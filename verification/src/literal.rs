//! The two kinds of number that a line can carry: whole numbers, for the
//! session id, and decimal literals, for the measured values.
//!
//! A decimal literal is recognised and kept as text. The grammar is
//!
//! ```text
//! Literal  ::= Sign? ( 'inf' | 'infinity' | 'nan' | Number )
//! Number   ::= Mantissa Exponent?
//! Mantissa ::= Digit+ | Digit+ '.' Digit* | Digit* '.' Digit+
//! Exponent ::= 'e' Sign? Digit+
//! Sign     ::= '+' | '-'
//! ```
//!
//! where letters count without regard to case.

use vstd::prelude::*;

verus! {

/// One of the ten digits `0` to `9`.
pub open spec fn is_digit(c: char) -> bool {
    '0' <= c <= '9'
}

/// A plus or a minus sign.
pub open spec fn is_sign(c: char) -> bool {
    c == '+' || c == '-'
}

/// Every character of `s` is a digit.
pub open spec fn all_digits(s: Seq<char>) -> bool {
    forall|i: int| 0 <= i < s.len() ==> is_digit(#[trigger] s[i])
}

/// The number that the digit `c` stands for.
pub open spec fn digit_value(c: char) -> int {
    c as u32 - '0' as u32
}

/// The number that a run of digits stands for in base ten; 0 for the empty
/// run.
pub open spec fn decimal_value(digits: Seq<char>) -> int
    decreases digits.len(),
{
    if digits.len() == 0 {
        0
    } else {
        decimal_value(digits.drop_last()) * 10 + digit_value(digits.last())
    }
}

/// `s` without its sign, where it starts with one.
pub open spec fn unsigned_part(s: Seq<char>) -> Seq<char> {
    if s.len() > 0 && is_sign(s[0]) {
        s.skip(1)
    } else {
        s
    }
}

/// The whole number that `s` writes: an optional sign and at least one
/// digit, nothing else.
pub open spec fn integer_literal(s: Seq<char>) -> Option<int> {
    let digits = unsigned_part(s);
    if digits.len() > 0 && all_digits(digits) {
        if s[0] == '-' {
            Some(-decimal_value(digits))
        } else {
            Some(decimal_value(digits))
        }
    } else {
        None
    }
}

/// The whole number that `s` writes, where it fits in 32 bits.
pub open spec fn i32_literal(s: Seq<char>) -> Option<i32> {
    match integer_literal(s) {
        Some(n) => if i32::MIN <= n <= i32::MAX {
            Some(n as i32)
        } else {
            None
        },
        None => None,
    }
}

/// Digits, with at most one point among them.
pub open spec fn is_mantissa(s: Seq<char>) -> bool {
    exists|point: int| mantissa_split(s, point)
}

/// `s` is a mantissa whose digits before the point, if it has one, end at
/// `point`.
pub open spec fn mantissa_split(s: Seq<char>, point: int) -> bool {
    &&& 0 <= point <= s.len()
    &&& all_digits(s.take(point))
    &&& if point == s.len() {
        point > 0
    } else {
        s[point] == '.' && all_digits(s.skip(point + 1)) && s.len() > 1
    }
}

/// The letter `e`, an optional sign and at least one digit.
pub open spec fn is_exponent(s: Seq<char>) -> bool {
    &&& s.len() > 0
    &&& (s[0] == 'e' || s[0] == 'E')
    &&& unsigned_part(s.skip(1)).len() > 0
    &&& all_digits(unsigned_part(s.skip(1)))
}

/// A mantissa, with or without an exponent behind it.
pub open spec fn is_number(s: Seq<char>) -> bool {
    exists|end: int| number_split(s, end)
}

/// `s` is a number whose mantissa ends at `end`.
pub open spec fn number_split(s: Seq<char>, end: int) -> bool {
    &&& 0 <= end <= s.len()
    &&& is_mantissa(s.take(end))
    &&& (end == s.len() || is_exponent(s.skip(end)))
}

/// `c` is the small letter `small`, or its ASCII capital.
pub open spec fn same_letter(c: char, small: char) -> bool {
    c == small || ('A' <= c <= 'Z' && c as u32 + 32 == small as u32)
}

/// `s` reads as `word` where case is left aside; `word` is in small letters.
pub open spec fn reads_as(s: Seq<char>, word: Seq<char>) -> bool {
    &&& s.len() == word.len()
    &&& forall|i: int| 0 <= i < s.len() ==> same_letter(#[trigger] s[i], word[i])
}

/// One of the three words for a value that is no number.
pub open spec fn is_special(s: Seq<char>) -> bool {
    ||| reads_as(s, seq!['i', 'n', 'f'])
    ||| reads_as(s, seq!['n', 'a', 'n'])
    ||| reads_as(s, seq!['i', 'n', 'f', 'i', 'n', 'i', 't', 'y'])
}

/// `s` is a decimal literal.
pub open spec fn is_decimal_literal(s: Seq<char>) -> bool {
    is_special(unsigned_part(s)) || is_number(unsigned_part(s))
}

/// Whether `c` is a digit.
pub fn is_ascii_digit(c: char) -> (digit: bool)
    ensures
        digit == is_digit(c),
{
    '0' <= c && c <= '9'
}

/// The end of the run of digits that starts at `from`.
fn digits_end(s: &[char], from: usize) -> (end: usize)
    requires
        from <= s.len(),
    ensures
        from <= end <= s.len(),
        forall|k: int| from <= k < end ==> is_digit(s@[k]),
        end == s.len() || !is_digit(s@[end as int]),
{
    let mut end: usize = from;
    while end < s.len() && is_ascii_digit(s[end])
        invariant
            from <= end <= s.len(),
            forall|k: int| from <= k < end ==> is_digit(s@[k]),
        decreases s.len() - end,
    {
        end += 1;
    }
    end
}

/// Whether `s[from..]` reads as `word`, case left aside.
fn reads_as_word(s: &[char], from: usize, word: &[char]) -> (same: bool)
    requires
        from <= s.len(),
    ensures
        same == reads_as(s@.skip(from as int), word@),
{
    if s.len() - from != word.len() {
        return false;
    }
    let mut at: usize = 0;
    while at < word.len()
        invariant
            at <= word.len(),
            from + word.len() == s.len(),
            forall|i: int| 0 <= i < at ==> same_letter(s@[from + i], word@[i]),
        decreases word.len() - at,
    {
        let c = s[from + at];
        let small = word[at];
        let same = c == small || ('A' <= c && c <= 'Z' && c as u32 + 32 == small as u32);
        if !same {
            assert(s@.skip(from as int)[at as int] == c);
            return false;
        }
        at += 1;
    }
    true
}

/// Whether `s[from..]` is one of the three words for a value that is no
/// number.
fn is_special_from(s: &[char], from: usize) -> (special: bool)
    requires
        from <= s.len(),
    ensures
        special == is_special(s@.skip(from as int)),
{
    let inf: [char; 3] = ['i', 'n', 'f'];
    let nan: [char; 3] = ['n', 'a', 'n'];
    let infinity: [char; 8] = ['i', 'n', 'f', 'i', 'n', 'i', 't', 'y'];
    reads_as_word(s, from, inf.as_slice()) || reads_as_word(s, from, nan.as_slice())
        || reads_as_word(s, from, infinity.as_slice())
}

/// Whether `s[from..]` is a number.
#[verifier::rlimit(30)]
fn is_number_from(s: &[char], from: usize) -> (number: bool)
    requires
        from <= s.len(),
    ensures
        number == is_number(s@.skip(from as int)),
{
    let ghost u = s@.skip(from as int);
    let point: usize = digits_end(s, from);
    let mut end: usize = point;
    let mut digits: usize = point - from;
    if point < s.len() && s[point] == '.' {
        end = digits_end(s, point + 1);
        digits = digits + (end - point - 1);
    }
    proof {
        // Whatever way `u` is a number, its mantissa is `s[from..end]`.
        assert forall|e: int| number_split(u, e) implies e == end - from && digits > 0 by {
            let m = u.take(e);
            let p = choose|p: int| mantissa_split(m, p);
            assert forall|k: int| from <= k < from + p implies is_digit(s@[k]) by {
                assert(m.take(p)[k - from] == s@[k]);
            }
            if e < u.len() {
                assert(u.skip(e)[0] == s@[from + e]);
            }
            if p < e {
                assert(m[p] == s@[from + p]);
                assert(point == from + p);
                assert forall|k: int| point < k < from + e implies is_digit(s@[k]) by {
                    assert(m.skip(p + 1)[k - point - 1] == s@[k]);
                }
            }
        }
        // And where it holds a digit, `s[from..end]` is a mantissa.
        if digits > 0 {
            let m = u.take(end - from);
            assert forall|i: int| 0 <= i < point - from implies is_digit(
                #[trigger] m.take(point - from)[i],
            ) by {
                assert(m.take(point - from)[i] == s@[from + i]);
            }
            if point < end {
                assert(m[point - from] == s@[point as int]);
                assert forall|i: int| 0 <= i < end - point - 1 implies is_digit(
                    #[trigger] m.skip(point - from + 1)[i],
                ) by {
                    assert(m.skip(point - from + 1)[i] == s@[point + 1 + i]);
                }
            }
            assert(mantissa_split(m, point - from));
        }
    }
    if digits == 0 {
        return false;
    }
    if end == s.len() {
        assert(number_split(u, end - from));
        return true;
    }
    assert(u.skip(end - from)[0] == s@[end as int]);
    if s[end] != 'e' && s[end] != 'E' {
        return false;
    }
    let mut first: usize = end + 1;
    if first < s.len() && (s[first] == '+' || s[first] == '-') {
        first += 1;
    }
    let stop: usize = digits_end(s, first);
    proof {
        let tail = u.skip(end - from).skip(1);
        assert(tail =~= s@.skip(end + 1));
        let run = unsigned_part(tail);
        assert(run =~= s@.skip(first as int));
        if stop == s.len() {
            assert forall|i: int| 0 <= i < run.len() implies is_digit(#[trigger] run[i]) by {
                assert(run[i] == s@[first + i]);
            }
        } else {
            assert(run[stop - first] == s@[stop as int]);
        }
        if stop == s.len() && stop > first {
            assert(number_split(u, end - from));
        }
    }
    stop == s.len() && stop > first
}

/// Whether `s` is a decimal literal.
pub fn is_decimal(s: &[char]) -> (literal: bool)
    ensures
        literal == is_decimal_literal(s@),
{
    let from: usize = if s.len() > 0 && (s[0] == '+' || s[0] == '-') {
        1
    } else {
        0
    };
    assert(unsigned_part(s@) =~= s@.skip(from as int));
    is_special_from(s, from) || is_number_from(s, from)
}

/// What a run of digits stands for does not shrink when more digits follow.
proof fn lemma_decimal_value_grows(digits: Seq<char>, n: int)
    requires
        all_digits(digits),
        0 <= n <= digits.len(),
    ensures
        0 <= decimal_value(digits.take(n)) <= decimal_value(digits),
    decreases digits.len() - n,
{
    if n == digits.len() {
        assert(digits.take(n) =~= digits);
        lemma_decimal_value_bounds(digits);
    } else {
        lemma_decimal_value_grows(digits, n + 1);
        assert(digits.take(n + 1).drop_last() =~= digits.take(n));
        lemma_decimal_value_bounds(digits.take(n));
    }
}

/// A run of digits stands for no negative number.
proof fn lemma_decimal_value_bounds(digits: Seq<char>)
    requires
        all_digits(digits),
    ensures
        0 <= decimal_value(digits),
    decreases digits.len(),
{
    if digits.len() > 0 {
        lemma_decimal_value_bounds(digits.drop_last());
    }
}

/// The whole number that `s` writes, where it is one and fits in 32 bits.
pub fn parse_i32(s: &[char]) -> (number: Option<i32>)
    ensures
        number == i32_literal(s@),
{
    let negative: bool = s.len() > 0 && s[0] == '-';
    let from: usize = if s.len() > 0 && (s[0] == '+' || s[0] == '-') {
        1
    } else {
        0
    };
    let ghost digits = s@.skip(from as int);
    if from == s.len() {
        return None;
    }
    let mut value: i64 = 0;
    let mut at: usize = from;
    while at < s.len()
        invariant
            from <= at <= s.len(),
            digits == s@.skip(from as int),
            digits == unsigned_part(s@),
            all_digits(digits.take(at - from)),
            value == decimal_value(digits.take(at - from)),
            0 <= value <= 0x8000_0000,
        decreases s.len() - at,
    {
        let c = s[at];
        assert(digits[at - from] == c);
        if !is_ascii_digit(c) {
            return None;
        }
        let ghost before = digits.take(at - from);
        let ghost after = digits.take(at - from + 1);
        assert(after.drop_last() =~= before);
        assert(all_digits(after)) by {
            assert forall|i: int| 0 <= i < after.len() implies is_digit(#[trigger] after[i]) by {
                if i < before.len() {
                    assert(after[i] == before[i]);
                }
            }
        }
        value = value * 10 + (c as u32 - '0' as u32) as i64;
        if value > 0x8000_0000 {
            proof {
                // Too large already, and the digits behind cannot mend it.
                if all_digits(digits) {
                    lemma_decimal_value_grows(digits, at - from + 1);
                }
            }
            return None;
        }
        at += 1;
    }
    assert(digits.take(at - from) =~= digits);
    if negative {
        Some((-value) as i32)
    } else if value <= 0x7FFF_FFFF {
        Some(value as i32)
    } else {
        None
    }
}

} // verus!
