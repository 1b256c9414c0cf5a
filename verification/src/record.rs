//! The sensor reading: one record per accepted line.

use crate::literal::{all_digits, is_decimal, is_decimal_literal, mantissa_split, number_split};
use crate::text::chars_of;
use vstd::prelude::*;

verus! {

/// The number of measured values in a record.
pub const SCALARS: usize = 13;

/// The literal that stands for a measured value that could not be read.
pub open spec fn zero_literal() -> Seq<char> {
    seq!['0', '.', '0']
}

/// What a field of measured-value text is recorded as: the text itself
/// where it is a decimal literal, the zero literal where it is not.
pub open spec fn lenient_literal(text: Seq<char>) -> Seq<char> {
    if is_decimal_literal(text) {
        text
    } else {
        zero_literal()
    }
}

/// The zero literal is a decimal literal.
pub proof fn lemma_zero_is_literal()
    ensures
        is_decimal_literal(zero_literal()),
{
    let z = zero_literal();
    assert(z.take(3) =~= z);
    assert(mantissa_split(z, 1));
    assert(number_split(z, 3));
}

/// One measured value, held as the decimal literal that was received for
/// it.
#[derive(Debug, PartialEq, Eq)]
pub struct Scalar {
    text: String,
}

impl Clone for Scalar {
    fn clone(&self) -> (copy: Scalar)
        ensures
            copy@ == self@,
    {
        proof {
            use_type_invariant(self);
        }
        Scalar { text: self.text.clone() }
    }
}

impl View for Scalar {
    type V = Seq<char>;

    closed spec fn view(&self) -> Seq<char> {
        self.text@
    }
}

impl Scalar {
    /// What holds of every measured value: its text is a decimal literal.
    #[verifier::type_invariant]
    spec fn literal_inv(self) -> bool {
        is_decimal_literal(self.text@)
    }

    /// The literal is well formed.
    pub open spec fn wf(&self) -> bool {
        is_decimal_literal(self@)
    }

    /// The value zero.
    pub fn zero() -> (scalar: Scalar)
        ensures
            scalar@ == zero_literal(),
            scalar.wf(),
    {
        proof {
            reveal_strlit("0.0");
            lemma_zero_is_literal();
        }
        let text = "0.0".to_owned();
        assert(text@ =~= zero_literal());
        Scalar { text }
    }

    /// The value that `text` writes, where it is a decimal literal.
    pub fn parse(text: &str) -> (scalar: Option<Scalar>)
        ensures
            scalar is Some == is_decimal_literal(text@),
            scalar matches Some(s) ==> s@ == text@ && s.wf(),
    {
        let chars = chars_of(text);
        if is_decimal(chars.as_slice()) {
            Some(Scalar { text: text.to_owned() })
        } else {
            None
        }
    }

    /// The value that `text` writes, and zero where it writes none.
    pub fn lenient(text: &str) -> (scalar: Scalar)
        ensures
            scalar@ == lenient_literal(text@),
            scalar.wf(),
    {
        match Scalar::parse(text) {
            Some(scalar) => scalar,
            None => Scalar::zero(),
        }
    }

    /// The literal. It is well formed, whatever way the value was made.
    pub fn as_str(&self) -> (text: &str)
        ensures
            text@ == self@,
            self.wf(),
    {
        proof {
            use_type_invariant(self);
        }
        self.text.as_str()
    }
}

/// One sensor observation. Every field is set: there is no record in part.
#[derive(Debug, Clone, PartialEq, Eq)]
pub struct Record {
    /// The session the reading belongs to, where it names one.
    pub session_id: Option<i32>,
    /// The time of the reading as the sender wrote it; never interpreted.
    pub timestamp: String,
    pub latitude: Scalar,
    pub longitude: Scalar,
    pub altitude: Scalar,
    pub accel_x: Scalar,
    pub accel_y: Scalar,
    pub accel_z: Scalar,
    pub gyro_x: Scalar,
    pub gyro_y: Scalar,
    pub gyro_z: Scalar,
    pub dac_1: Scalar,
    pub dac_2: Scalar,
    pub dac_3: Scalar,
    pub dac_4: Scalar,
}

/// A record as a mathematical value. The measured values stand in the
/// order latitude, longitude, altitude, acceleration x y z, rotation x y z,
/// converter 1 to 4.
pub struct Reading {
    pub session_id: Option<i32>,
    pub timestamp: Seq<char>,
    pub scalars: Seq<Seq<char>>,
}

impl View for Record {
    type V = Reading;

    open spec fn view(&self) -> Reading {
        Reading {
            session_id: self.session_id,
            timestamp: self.timestamp@,
            scalars: seq![
                self.latitude@,
                self.longitude@,
                self.altitude@,
                self.accel_x@,
                self.accel_y@,
                self.accel_z@,
                self.gyro_x@,
                self.gyro_y@,
                self.gyro_z@,
                self.dac_1@,
                self.dac_2@,
                self.dac_3@,
                self.dac_4@,
            ],
        }
    }
}

impl Reading {
    /// Thirteen measured values, each a decimal literal.
    pub open spec fn wf(self) -> bool {
        &&& self.scalars.len() == SCALARS
        &&& forall|k: int| 0 <= k < self.scalars.len() ==> is_decimal_literal(#[trigger] self.scalars[k])
    }
}

impl Record {
    /// Every measured value is a decimal literal.
    pub open spec fn wf(&self) -> bool {
        self@.wf()
    }
}

} // verus!
