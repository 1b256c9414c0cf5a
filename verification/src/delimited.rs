//! The delimited encoding: one reading per line, its fields separated by
//! commas and told apart by position.
//!
//! ```text
//! sessionId,timestamp,latitude,longitude,altitude,accel_x,accel_y,accel_z,
//! gyro_x,gyro_y,gyro_z,dac_1,dac_2,dac_3,dac_4
//! ```

use crate::literal::{i32_literal, parse_i32};
use crate::outcome::{keepalive_word, DecodeOutcome, Outcome};
use crate::record::{lenient_literal, Reading, Record, Scalar, SCALARS};
use crate::text::{chars_of, contains, fields, has_infix, span_text, split_fields};
use vstd::prelude::*;
use vstd::slice::slice_subrange;

verus! {

/// The character between two fields.
pub const SEPARATOR: char = ',';

/// The least number of fields in a line that is decoded: the session id,
/// the timestamp and the measured values.
pub const FIELDS: usize = 15;

/// The text in the first field that says that the reading has no session.
pub open spec fn none_token() -> Seq<char> {
    "None"@
}

/// The session that the first field names: none for the token that says
/// so, and none for a field that is no whole number of 32 bits.
pub open spec fn session_of(field: Seq<char>) -> Option<i32> {
    if field == none_token() {
        None
    } else {
        i32_literal(field)
    }
}

/// The reading that the fields `f` of a line give.
pub open spec fn delimited_reading(f: Seq<Seq<char>>) -> Reading {
    Reading {
        session_id: session_of(f[0]),
        timestamp: f[1],
        scalars: Seq::new(SCALARS as nat, |k: int| lenient_literal(f[k + 2])),
    }
}

/// What a line in the delimited encoding decodes to. A line of fewer than
/// fifteen fields is malformed; no other line is. Fields after the
/// fifteenth are not read.
pub open spec fn delimited_outcome(line: Seq<char>) -> Outcome {
    let f = fields(line, SEPARATOR);
    if f.len() < FIELDS {
        Outcome::Malformed(line)
    } else if has_infix(f[1], keepalive_word()) {
        Outcome::Keepalive
    } else {
        Outcome::Record(delimited_reading(f))
    }
}

/// The session that the first field names.
pub fn parse_session(field: &[char]) -> (session: Option<i32>)
    ensures
        session == session_of(field@),
{
    proof {
        reveal_strlit("None");
    }
    parse_i32(field)
}

/// Decodes one line in the delimited encoding.
pub fn decode_delimited(line: &str) -> (outcome: DecodeOutcome)
    ensures
        outcome@ == delimited_outcome(line@),
{
    let chars = chars_of(line);
    let spans = split_fields(chars.as_slice(), SEPARATOR);
    if spans.len() < FIELDS {
        return DecodeOutcome::Malformed(line.to_owned());
    }
    let ghost f = fields(line@, SEPARATOR);
    assert forall|i: int| 0 <= i < spans@.len() implies (#[trigger] spans@[i]).0 <= spans@[i].1
        <= line@.len() && line@.subrange(spans@[i].0 as int, spans@[i].1 as int) == f[i] by {
        assert(span_text(line@, spans@[i]) == f[i]);
    }
    let stamp = spans[1];
    let word = chars_of("keepalive");
    if contains(slice_subrange(chars.as_slice(), stamp.0, stamp.1), word.as_slice()) {
        return DecodeOutcome::Keepalive;
    }
    let first = spans[0];
    let record = Record {
        session_id: parse_session(slice_subrange(chars.as_slice(), first.0, first.1)),
        timestamp: line.substring_char(stamp.0, stamp.1).to_owned(),
        latitude: Scalar::lenient(line.substring_char(spans[2].0, spans[2].1)),
        longitude: Scalar::lenient(line.substring_char(spans[3].0, spans[3].1)),
        altitude: Scalar::lenient(line.substring_char(spans[4].0, spans[4].1)),
        accel_x: Scalar::lenient(line.substring_char(spans[5].0, spans[5].1)),
        accel_y: Scalar::lenient(line.substring_char(spans[6].0, spans[6].1)),
        accel_z: Scalar::lenient(line.substring_char(spans[7].0, spans[7].1)),
        gyro_x: Scalar::lenient(line.substring_char(spans[8].0, spans[8].1)),
        gyro_y: Scalar::lenient(line.substring_char(spans[9].0, spans[9].1)),
        gyro_z: Scalar::lenient(line.substring_char(spans[10].0, spans[10].1)),
        dac_1: Scalar::lenient(line.substring_char(spans[11].0, spans[11].1)),
        dac_2: Scalar::lenient(line.substring_char(spans[12].0, spans[12].1)),
        dac_3: Scalar::lenient(line.substring_char(spans[13].0, spans[13].1)),
        dac_4: Scalar::lenient(line.substring_char(spans[14].0, spans[14].1)),
    };
    assert(record@.scalars =~= delimited_reading(f).scalars);
    DecodeOutcome::Record(record)
}

} // verus!
