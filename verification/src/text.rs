//! Character-level scanning of one line of input: substring search,
//! trimming of surrounding whitespace and splitting on a separator.
//!
//! Every function works on the characters of a line, so that positions in
//! contracts are positions in the view of the `&str` the line came from.

use vstd::prelude::*;

verus! {

/// `needle` stands in `hay` at position `at`.
pub open spec fn occurs_at(hay: Seq<char>, needle: Seq<char>, at: int) -> bool {
    &&& 0 <= at
    &&& at + needle.len() <= hay.len()
    &&& hay.subrange(at, at + needle.len()) == needle
}

/// `needle` stands somewhere in `hay`.
pub open spec fn has_infix(hay: Seq<char>, needle: Seq<char>) -> bool {
    exists|at: int| occurs_at(hay, needle, at)
}

/// The characters of `s`, in order.
pub fn chars_of(s: &str) -> (v: Vec<char>)
    ensures
        v@ == s@,
{
    let mut v: Vec<char> = Vec::new();
    for c in it: s.chars()
        invariant
            v@ == it.seq().take(it.index() as int),
            it.seq() == s@,
    {
        v.push(c);
    }
    v
}

/// Whether `needle` stands in `hay` at position `at`.
fn matches_at(hay: &[char], needle: &[char], at: usize) -> (found: bool)
    requires
        at + needle.len() <= hay.len(),
    ensures
        found == occurs_at(hay@, needle@, at as int),
{
    let mut j: usize = 0;
    while j < needle.len()
        invariant
            j <= needle.len(),
            at + needle.len() <= hay.len(),
            forall|k: int| 0 <= k < j ==> hay@[at + k] == needle@[k],
        decreases needle@.len() - j,
    {
        if hay[at + j] != needle[j] {
            return false;
        }
        j += 1;
    }
    assert(hay@.subrange(at as int, at + needle@.len()) =~= needle@);
    true
}

/// Whether `needle` stands somewhere in `hay`. The empty needle stands in
/// every line.
pub fn contains(hay: &[char], needle: &[char]) -> (found: bool)
    ensures
        found == has_infix(hay@, needle@),
{
    if needle.len() > hay.len() {
        return false;
    }
    if needle.len() == 0 {
        assert(hay@.subrange(0, 0) =~= needle@);
        assert(occurs_at(hay@, needle@, 0));
        return true;
    }
    let last: usize = hay.len() - needle.len();
    let mut at: usize = 0;
    while at <= last
        invariant
            at <= last + 1,
            last + needle.len() == hay.len(),
            needle.len() > 0,
            forall|k: int| 0 <= k < at ==> !occurs_at(hay@, needle@, k),
        decreases last + 1 - at,
    {
        if matches_at(hay, needle, at) {
            return true;
        }
        at += 1;
    }
    false
}

/// White space: the code points that carry the Unicode property
/// `White_Space`.
pub open spec fn is_space(c: char) -> bool {
    let n = c as u32;
    ||| 0x09 <= n <= 0x0D
    ||| n == 0x20
    ||| n == 0x85
    ||| n == 0xA0
    ||| n == 0x1680
    ||| 0x2000 <= n <= 0x200A
    ||| n == 0x2028
    ||| n == 0x2029
    ||| n == 0x202F
    ||| n == 0x205F
    ||| n == 0x3000
}

/// `s` without the white space at its start.
pub open spec fn trim_start(s: Seq<char>) -> Seq<char>
    decreases s.len(),
{
    if s.len() > 0 && is_space(s[0]) {
        trim_start(s.skip(1))
    } else {
        s
    }
}

/// `s` without the white space at its end.
pub open spec fn trim_end(s: Seq<char>) -> Seq<char>
    decreases s.len(),
{
    if s.len() > 0 && is_space(s.last()) {
        trim_end(s.drop_last())
    } else {
        s
    }
}

/// `s` without the white space at either end.
pub open spec fn trimmed(s: Seq<char>) -> Seq<char> {
    trim_end(trim_start(s))
}

/// What is left of `s` without the white space at its start is the end of
/// `s`, and starts with no white space.
proof fn lemma_trim_start(s: Seq<char>)
    ensures
        trim_start(s).len() <= s.len(),
        trim_start(s) == s.skip(s.len() - trim_start(s).len()),
        forall|k: int| 0 <= k < s.len() - trim_start(s).len() ==> is_space(s[k]),
        trim_start(s).len() > 0 ==> !is_space(trim_start(s)[0]),
    decreases s.len(),
{
    if s.len() > 0 && is_space(s[0]) {
        let rest = s.skip(1);
        lemma_trim_start(rest);
        assert forall|k: int| 0 <= k < s.len() - trim_start(s).len() implies is_space(s[k]) by {
            if k > 0 {
                assert(rest[k - 1] == s[k]);
            }
        }
    }
}

/// What is left of `s` without the white space at its end is the start of
/// `s`, and ends with no white space.
proof fn lemma_trim_end(s: Seq<char>)
    ensures
        trim_end(s).len() <= s.len(),
        trim_end(s) == s.take(trim_end(s).len() as int),
        forall|k: int| trim_end(s).len() <= k < s.len() ==> is_space(s[k]),
        trim_end(s).len() > 0 ==> !is_space(trim_end(s).last()),
    decreases s.len(),
{
    if s.len() > 0 && is_space(s.last()) {
        let rest = s.drop_last();
        lemma_trim_end(rest);
        assert forall|k: int| trim_end(s).len() <= k < s.len() implies is_space(s[k]) by {
            if k < rest.len() {
                assert(rest[k] == s[k]);
            }
        }
    }
}

/// Trimming cuts off white space and nothing else, and all of it: the line
/// is white space, then the trimmed line, then white space, and the trimmed
/// line neither starts nor ends with white space.
pub proof fn lemma_trimmed_is_tight(s: Seq<char>)
    ensures
        ({
            let from = s.len() - trim_start(s).len();
            let to = from + trimmed(s).len();
            &&& 0 <= from <= to <= s.len()
            &&& trimmed(s) == s.subrange(from, to)
            &&& forall|k: int| 0 <= k < from || to <= k < s.len() ==> is_space(#[trigger] s[k])
            &&& trimmed(s).len() > 0 ==> !is_space(trimmed(s)[0]) && !is_space(trimmed(s).last())
        }),
{
    let rest = trim_start(s);
    lemma_trim_start(s);
    lemma_trim_end(rest);
    let from = s.len() - rest.len();
    let to = from + trimmed(s).len();
    assert forall|k: int| 0 <= k < from || to <= k < s.len() implies is_space(
        #[trigger] s[k],
    ) by {
        if k >= to {
            assert(rest[k - from] == s[k]);
        }
    }
}

/// Whether `c` is white space.
pub fn is_whitespace(c: char) -> (space: bool)
    ensures
        space == is_space(c),
{
    let n: u32 = c as u32;
    (0x09 <= n && n <= 0x0D) || n == 0x20 || n == 0x85 || n == 0xA0 || n == 0x1680 || (0x2000 <= n
        && n <= 0x200A) || n == 0x2028 || n == 0x2029 || n == 0x202F || n == 0x205F || n == 0x3000
}

/// The bounds of `line` without the white space at either end: the trimmed
/// line is `line[from..to]`, and `from` is the number of characters that
/// were cut off at the start.
pub fn trim_bounds(line: &[char]) -> (bounds: (usize, usize))
    ensures
        bounds.0 <= bounds.1 <= line.len(),
        line@.subrange(bounds.0 as int, bounds.1 as int) == trimmed(line@),
        bounds.0 == line@.len() - trim_start(line@).len(),
{
    let mut from: usize = 0;
    assert(line@.skip(0) =~= line@);
    while from < line.len() && is_whitespace(line[from])
        invariant
            from <= line.len(),
            trim_start(line@) == trim_start(line@.skip(from as int)),
        decreases line.len() - from,
    {
        assert(line@.skip(from as int).skip(1) =~= line@.skip(from + 1));
        from += 1;
    }
    let mut to: usize = line.len();
    while to > from && is_whitespace(line[to - 1])
        invariant
            from <= to <= line.len(),
            from == line@.len() - trim_start(line@).len(),
            trimmed(line@) == trim_end(line@.subrange(from as int, to as int)),
        decreases to,
    {
        assert(line@.subrange(from as int, to as int).drop_last() =~= line@.subrange(
            from as int,
            to - 1,
        ));
        to -= 1;
    }
    (from, to)
}

/// The position of the first `sep` in `s`, or the length of `s` where it
/// holds none.
pub open spec fn first_index(s: Seq<char>, sep: char) -> int
    decreases s.len(),
{
    if s.len() == 0 || s[0] == sep {
        0
    } else {
        1 + first_index(s.skip(1), sep)
    }
}

/// The fields of `s`: the text before the first `sep`, then the fields of
/// the text behind it. A text without `sep` is one field, the empty text too.
pub open spec fn fields(s: Seq<char>, sep: char) -> Seq<Seq<char>>
    decreases s.len(),
{
    let at = first_index(s, sep);
    if 0 <= at < s.len() {
        seq![s.take(at)] + fields(s.skip(at + 1), sep)
    } else {
        seq![s]
    }
}

/// The number of times that `sep` stands in `s`.
pub open spec fn occurrences(s: Seq<char>, sep: char) -> nat
    decreases s.len(),
{
    if s.len() == 0 {
        0
    } else if s[0] == sep {
        1 + occurrences(s.skip(1), sep)
    } else {
        occurrences(s.skip(1), sep)
    }
}

/// The first `sep` stands where `first_index` says: nowhere before, and
/// there where that place is in `s`.
pub proof fn lemma_first_index_is_first(s: Seq<char>, sep: char)
    ensures
        0 <= first_index(s, sep) <= s.len(),
        forall|k: int| 0 <= k < first_index(s, sep) ==> s[k] != sep,
        first_index(s, sep) < s.len() ==> s[first_index(s, sep)] == sep,
    decreases s.len(),
{
    if s.len() > 0 && s[0] != sep {
        let rest = s.skip(1);
        lemma_first_index_is_first(rest, sep);
        assert forall|k: int| 0 <= k < first_index(s, sep) implies s[k] != sep by {
            if k > 0 {
                assert(rest[k - 1] == s[k]);
            }
        }
    }
}

/// Characters that are no separator do not count.
proof fn lemma_occurrences_behind(s: Seq<char>, sep: char, n: int)
    requires
        0 <= n <= s.len(),
        forall|k: int| 0 <= k < n ==> s[k] != sep,
    ensures
        occurrences(s, sep) == occurrences(s.skip(n), sep),
    decreases n,
{
    if n == 0 {
        assert(s.skip(0) =~= s);
    } else {
        lemma_occurrences_behind(s.skip(1), sep, n - 1);
        assert(s.skip(1).skip(n - 1) =~= s.skip(n));
    }
}

/// A text has one field more than it has separators, and no field holds a
/// separator.
pub proof fn lemma_fields_between_separators(s: Seq<char>, sep: char)
    ensures
        fields(s, sep).len() == occurrences(s, sep) + 1,
        forall|i: int, k: int|
            0 <= i < fields(s, sep).len() && 0 <= k < fields(s, sep)[i].len() ==> fields(
                s,
                sep,
            )[i][k] != sep,
    decreases s.len(),
{
    let at = first_index(s, sep);
    lemma_first_index_is_first(s, sep);
    if at < s.len() {
        let rest = s.skip(at + 1);
        lemma_fields_between_separators(rest, sep);
        lemma_occurrences_behind(s, sep, at);
        assert(s.skip(at).skip(1) =~= rest);
        assert forall|i: int, k: int|
            0 <= i < fields(s, sep).len() && 0 <= k < fields(s, sep)[i].len() implies fields(
            s,
            sep,
        )[i][k] != sep by {
            if i > 0 {
                assert(fields(s, sep)[i] == fields(rest, sep)[i - 1]);
            }
        }
    } else {
        lemma_occurrences_behind(s, sep, at);
    }
}

/// The field that `span` cuts out of `line`.
pub open spec fn span_text(line: Seq<char>, span: (usize, usize)) -> Seq<char> {
    line.subrange(span.0 as int, span.1 as int)
}

/// Where the first `sep` stands in a text whose first `n` characters hold
/// none.
proof fn lemma_first_index(s: Seq<char>, sep: char, n: int)
    requires
        0 <= n <= s.len(),
        forall|k: int| 0 <= k < n ==> s[k] != sep,
        n == s.len() || s[n] == sep,
    ensures
        first_index(s, sep) == n,
    decreases n,
{
    if n > 0 {
        lemma_first_index(s.skip(1), sep, n - 1);
    }
}

/// The fields of `line` between separators `sep`, each as the bounds
/// `(from, to)` of `line[from..to]`, in the order in which they stand. The
/// first field starts where the line starts, each later one behind the
/// separator that ends the field before it, and the last one ends where the
/// line ends.
pub fn split_fields(line: &[char], sep: char) -> (spans: Vec<(usize, usize)>)
    ensures
        spans@.len() == fields(line@, sep).len(),
        forall|i: int|
            0 <= i < spans@.len() ==> {
                &&& (#[trigger] spans@[i]).0 <= spans@[i].1 <= line.len()
                &&& span_text(line@, spans@[i]) == fields(line@, sep)[i]
            },
        spans@[0].0 == 0,
        forall|i: int| 0 < i < spans@.len() ==> (#[trigger] spans@[i]).0 == spans@[i - 1].1 + 1,
        spans@.last().1 == line.len(),
{
    let mut spans: Vec<(usize, usize)> = Vec::new();
    let mut from: usize = 0;
    let mut at: usize = 0;
    let ghost mut done: Seq<Seq<char>> = Seq::empty();
    assert(line@.skip(0) =~= line@);
    while at < line.len()
        invariant
            from <= at <= line.len(),
            forall|k: int| from <= k < at ==> line@[k] != sep,
            done.len() == spans@.len(),
            forall|i: int|
                0 <= i < spans@.len() ==> {
                    &&& (#[trigger] spans@[i]).0 <= spans@[i].1 <= line.len()
                    &&& span_text(line@, spans@[i]) == done[i]
                },
            fields(line@, sep) == done + fields(line@.skip(from as int), sep),
            spans@.len() == 0 ==> from == 0,
            spans@.len() > 0 ==> spans@[0].0 == 0 && from == spans@.last().1 + 1,
            forall|i: int| 0 < i < spans@.len() ==> (#[trigger] spans@[i]).0 == spans@[i - 1].1 + 1,
        decreases line.len() - at,
    {
        if line[at] == sep {
            proof {
                let rest = line@.skip(from as int);
                lemma_first_index(rest, sep, at - from);
                assert(rest.take(at - from) =~= line@.subrange(from as int, at as int));
                assert(rest.skip(at - from + 1) =~= line@.skip(at + 1));
                assert(done + (seq![rest.take(at - from)] + fields(line@.skip(at + 1), sep))
                    =~= done.push(line@.subrange(from as int, at as int)) + fields(
                    line@.skip(at + 1),
                    sep,
                ));
                done = done.push(line@.subrange(from as int, at as int));
            }
            spans.push((from, at));
            from = at + 1;
        }
        at += 1;
    }
    proof {
        let rest = line@.skip(from as int);
        lemma_first_index(rest, sep, at - from);
        done = done.push(rest);
    }
    spans.push((from, at));
    spans
}

} // verus!
