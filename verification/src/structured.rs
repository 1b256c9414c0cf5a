//! The structured encoding: one JSON object per line, its members named
//! after the fields of a reading.
//!
//! ```text
//! {"sessionId":7,"timestamp":"2024-01-01T00:00:00Z","latitude":1.0, ...}
//! ```
//!
//! The timestamp and the thirteen measured values are required; the session
//! id may be left out or be `null`. Members under other names are not read.

use crate::json::{
    as_text, as_whole, get_member, is_null, json_value, member, number_text, read_json,
    value_as_text, value_as_whole, value_is_null, value_number_text,
};
use crate::literal::is_decimal_literal;
use crate::outcome::{keepalive_word, DecodeOutcome, Outcome};
use crate::record::{Reading, Record, Scalar, SCALARS};
use crate::text::{chars_of, contains, has_infix};
use vstd::prelude::*;

verus! {

/// The text that marks a line as a keepalive message wherever it stands in
/// the line.
pub open spec fn keepalive_marker() -> Seq<char> {
    "\"type\":\"keepalive\""@
}

/// The name of the member that holds the session id.
pub open spec fn session_key() -> Seq<char> {
    "sessionId"@
}

/// The name of the member that holds the timestamp.
pub open spec fn timestamp_key() -> Seq<char> {
    "timestamp"@
}

/// The names of the members that hold the measured values, in the order of
/// a reading.
pub open spec fn scalar_keys() -> Seq<Seq<char>> {
    seq![
        "latitude"@,
        "longitude"@,
        "altitude"@,
        "accel_x"@,
        "accel_y"@,
        "accel_z"@,
        "gyro_x"@,
        "gyro_y"@,
        "gyro_z"@,
        "dac_1"@,
        "dac_2"@,
        "dac_3"@,
        "dac_4"@,
    ]
}

/// What stands under one name of a JSON object, as far as a reading is
/// made of it.
#[derive(Debug, Clone, PartialEq, Eq)]
pub enum Member {
    /// No member of that name.
    Absent,
    /// JSON's `null`.
    Null,
    /// A number: its text, and its value where it is a whole number of 64
    /// bits.
    Number { literal: String, whole: Option<i64> },
    /// A string.
    Text(String),
    /// A truth value, an array or an object.
    Other,
}

/// A member as a mathematical value.
pub enum MemberView {
    Absent,
    Null,
    Number { literal: Seq<char>, whole: Option<i64> },
    Text(Seq<char>),
    Other,
}

impl View for Member {
    type V = MemberView;

    open spec fn view(&self) -> MemberView {
        match self {
            Member::Absent => MemberView::Absent,
            Member::Null => MemberView::Null,
            Member::Number { literal, whole } => MemberView::Number {
                literal: literal@,
                whole: *whole,
            },
            Member::Text(text) => MemberView::Text(text@),
            Member::Other => MemberView::Other,
        }
    }
}

impl MemberView {
    /// The session that the member names. It names none where it is absent
    /// or `null`; it is `None` here where it is anything but that or a whole
    /// number of 32 bits.
    pub open spec fn session(self) -> Option<Option<i32>> {
        match self {
            MemberView::Absent => Some(None),
            MemberView::Null => Some(None),
            MemberView::Number { literal, whole: Some(n) } => if i32::MIN <= n <= i32::MAX {
                Some(Some(n as i32))
            } else {
                None
            },
            _ => None,
        }
    }

    /// The timestamp that the member holds: the text of a string.
    pub open spec fn timestamp(self) -> Option<Seq<char>> {
        match self {
            MemberView::Text(text) => Some(text),
            _ => None,
        }
    }

    /// The measured value that the member holds: the text of a number, where
    /// that is a decimal literal.
    pub open spec fn scalar(self) -> Option<Seq<char>> {
        match self {
            MemberView::Number { literal, whole } => if is_decimal_literal(literal) {
                Some(literal)
            } else {
                None
            },
            _ => None,
        }
    }
}

/// What `value` is as a member.
pub open spec fn value_view(value: serde_json::Value) -> MemberView {
    if is_null(value) {
        MemberView::Null
    } else if as_text(value) is Some {
        MemberView::Text(as_text(value)->0)
    } else if number_text(value) is Some {
        MemberView::Number { literal: number_text(value)->0, whole: as_whole(value) }
    } else {
        MemberView::Other
    }
}

/// What stands under `key` in the JSON value `document`.
pub open spec fn member_view(document: serde_json::Value, key: Seq<char>) -> MemberView {
    match member(document, key) {
        None => MemberView::Absent,
        Some(value) => value_view(value),
    }
}

impl Member {
    /// What the JSON value `value` is as a member.
    pub fn of_value(value: &serde_json::Value) -> (found: Member)
        ensures
            found@ == value_view(*value),
    {
        if value_is_null(value) {
            return Member::Null;
        }
        if let Some(text) = value_as_text(value) {
            return Member::Text(text.to_owned());
        }
        match value_number_text(value) {
            Some(literal) => Member::Number { literal, whole: value_as_whole(value) },
            None => Member::Other,
        }
    }

    /// What stands under `key` in the JSON value `document`.
    pub fn read(document: &serde_json::Value, key: &str) -> (found: Member)
        ensures
            found@ == member_view(*document, key@),
    {
        match get_member(document, key) {
            None => Member::Absent,
            Some(value) => Member::of_value(value),
        }
    }

    /// The session that the member names, inside `Some`; `None` where the
    /// member does not have the form of a session id.
    pub fn into_session(self) -> (session: Option<Option<i32>>)
        ensures
            session == self@.session(),
    {
        match self {
            Member::Absent => Some(None),
            Member::Null => Some(None),
            Member::Number { literal, whole: Some(n) } => {
                if -0x8000_0000 <= n && n <= 0x7FFF_FFFF {
                    Some(Some(n as i32))
                } else {
                    None
                }
            },
            _ => None,
        }
    }

    /// The timestamp that the member holds.
    pub fn into_timestamp(self) -> (timestamp: Option<String>)
        ensures
            timestamp is Some == self@.timestamp() is Some,
            timestamp matches Some(t) ==> self@.timestamp() == Some(t@),
    {
        match self {
            Member::Text(text) => Some(text),
            _ => None,
        }
    }

    /// The measured value that the member holds.
    pub fn into_scalar(self) -> (scalar: Option<Scalar>)
        ensures
            scalar is Some == self@.scalar() is Some,
            scalar matches Some(s) ==> self@.scalar() == Some(s@) && s.wf(),
    {
        match self {
            Member::Number { literal, whole } => Scalar::parse(literal.as_str()),
            _ => None,
        }
    }
}

/// The members of one JSON object that a reading is made of.
#[derive(Debug, Clone, PartialEq, Eq)]
pub struct Document {
    pub session_id: Member,
    pub timestamp: Member,
    pub latitude: Member,
    pub longitude: Member,
    pub altitude: Member,
    pub accel_x: Member,
    pub accel_y: Member,
    pub accel_z: Member,
    pub gyro_x: Member,
    pub gyro_y: Member,
    pub gyro_z: Member,
    pub dac_1: Member,
    pub dac_2: Member,
    pub dac_3: Member,
    pub dac_4: Member,
}

/// A document as a mathematical value, the members for the measured values
/// in the order of a reading.
pub struct DocumentView {
    pub session_id: MemberView,
    pub timestamp: MemberView,
    pub scalars: Seq<MemberView>,
}

impl View for Document {
    type V = DocumentView;

    open spec fn view(&self) -> DocumentView {
        DocumentView {
            session_id: self.session_id@,
            timestamp: self.timestamp@,
            scalars: seq![
                self.latitude@,
                self.longitude@,
                self.altitude@,
                self.accel_x@,
                self.accel_y@,
                self.accel_z@,
                self.gyro_x@,
                self.gyro_y@,
                self.gyro_z@,
                self.dac_1@,
                self.dac_2@,
                self.dac_3@,
                self.dac_4@,
            ],
        }
    }
}

impl DocumentView {
    /// Every member has the form that its field asks for.
    pub open spec fn complete(self) -> bool {
        &&& self.session_id.session() is Some
        &&& self.timestamp.timestamp() is Some
        &&& forall|k: int| 0 <= k < SCALARS ==> (#[trigger] self.scalars[k]).scalar() is Some
    }

    /// The reading that the members give, where the document is complete.
    pub open spec fn reading(self) -> Option<Reading> {
        if self.complete() {
            Some(
                Reading {
                    session_id: self.session_id.session()->0,
                    timestamp: self.timestamp.timestamp()->0,
                    scalars: Seq::new(SCALARS as nat, |k: int| self.scalars[k].scalar()->0),
                },
            )
        } else {
            None
        }
    }

    /// What a line decodes to that was read as this document. A document
    /// that is not complete makes the line malformed; a complete one whose
    /// timestamp holds the keepalive word is a keepalive.
    pub open spec fn outcome(self, line: Seq<char>) -> Outcome {
        match self.reading() {
            None => Outcome::Malformed(line),
            Some(reading) => if has_infix(reading.timestamp, keepalive_word()) {
                Outcome::Keepalive
            } else {
                Outcome::Record(reading)
            },
        }
    }
}

/// The members of the JSON value `document` that a reading is made of.
pub open spec fn document_view(document: serde_json::Value) -> DocumentView {
    DocumentView {
        session_id: member_view(document, session_key()),
        timestamp: member_view(document, timestamp_key()),
        scalars: Seq::new(SCALARS as nat, |k: int| member_view(document, scalar_keys()[k])),
    }
}

/// What a line in the structured encoding decodes to. A line that holds the
/// keepalive marker is a keepalive, whatever else it holds. Any other line
/// is read as JSON: it is malformed where it is no JSON value, and decodes
/// as its document does where it is one.
pub open spec fn structured_outcome(line: Seq<char>) -> Outcome {
    if has_infix(line, keepalive_marker()) {
        Outcome::Keepalive
    } else {
        match json_value(line) {
            None => Outcome::Malformed(line),
            Some(document) => document_view(document).outcome(line),
        }
    }
}

impl Document {
    /// Looks up in `document` the members that a reading is made of.
    pub fn read(document: &serde_json::Value) -> (found: Document)
        ensures
            found@ == document_view(*document),
    {
        let found = Document {
            session_id: Member::read(document, "sessionId"),
            timestamp: Member::read(document, "timestamp"),
            latitude: Member::read(document, "latitude"),
            longitude: Member::read(document, "longitude"),
            altitude: Member::read(document, "altitude"),
            accel_x: Member::read(document, "accel_x"),
            accel_y: Member::read(document, "accel_y"),
            accel_z: Member::read(document, "accel_z"),
            gyro_x: Member::read(document, "gyro_x"),
            gyro_y: Member::read(document, "gyro_y"),
            gyro_z: Member::read(document, "gyro_z"),
            dac_1: Member::read(document, "dac_1"),
            dac_2: Member::read(document, "dac_2"),
            dac_3: Member::read(document, "dac_3"),
            dac_4: Member::read(document, "dac_4"),
        };
        assert(found@.scalars =~= document_view(*document).scalars);
        found
    }

    /// The reading that the members give; none where a member is missing
    /// or has another form than its field asks for.
    pub fn into_record(self) -> (record: Option<Record>)
        ensures
            record is Some == self@.reading() is Some,
            record matches Some(r) ==> self@.reading() == Some(r@) && r.wf(),
    {
        let ghost view = self@;
        let session_id = self.session_id.into_session()?;
        let timestamp = self.timestamp.into_timestamp()?;
        let latitude = self.latitude.into_scalar()?;
        let longitude = self.longitude.into_scalar()?;
        let altitude = self.altitude.into_scalar()?;
        let accel_x = self.accel_x.into_scalar()?;
        let accel_y = self.accel_y.into_scalar()?;
        let accel_z = self.accel_z.into_scalar()?;
        let gyro_x = self.gyro_x.into_scalar()?;
        let gyro_y = self.gyro_y.into_scalar()?;
        let gyro_z = self.gyro_z.into_scalar()?;
        let dac_1 = self.dac_1.into_scalar()?;
        let dac_2 = self.dac_2.into_scalar()?;
        let dac_3 = self.dac_3.into_scalar()?;
        let dac_4 = self.dac_4.into_scalar()?;
        let record = Record {
            session_id,
            timestamp,
            latitude,
            longitude,
            altitude,
            accel_x,
            accel_y,
            accel_z,
            gyro_x,
            gyro_y,
            gyro_z,
            dac_1,
            dac_2,
            dac_3,
            dac_4,
        };
        assert(record@.scalars =~= view.reading()->0.scalars);
        Some(record)
    }

    /// What a line decodes to that was read as this document.
    pub fn into_outcome(self, line: &str) -> (outcome: DecodeOutcome)
        ensures
            outcome@ == self@.outcome(line@),
    {
        match self.into_record() {
            None => DecodeOutcome::Malformed(line.to_owned()),
            Some(record) => {
                let stamp = chars_of(record.timestamp.as_str());
                let word = chars_of("keepalive");
                if contains(stamp.as_slice(), word.as_slice()) {
                    DecodeOutcome::Keepalive
                } else {
                    DecodeOutcome::Record(record)
                }
            },
        }
    }
}

/// Whether `line` holds the keepalive marker.
pub fn has_keepalive_marker(line: &str) -> (marked: bool)
    ensures
        marked == has_infix(line@, keepalive_marker()),
{
    let chars = chars_of(line);
    let marker = chars_of("\"type\":\"keepalive\"");
    contains(chars.as_slice(), marker.as_slice())
}

/// Decodes one line in the structured encoding.
pub fn decode_structured(line: &str) -> (outcome: DecodeOutcome)
    ensures
        outcome@ == structured_outcome(line@),
{
    if has_keepalive_marker(line) {
        return DecodeOutcome::Keepalive;
    }
    match read_json(line) {
        None => DecodeOutcome::Malformed(line.to_owned()),
        Some(document) => Document::read(&document).into_outcome(line),
    }
}

} // verus!
