//! The line protocol decoder: one line in, one outcome out.
//!
//! A connection speaks one encoding for as long as it lasts. Which one is
//! fixed when the server is set up; it is never guessed from a line.

use crate::delimited::{decode_delimited, delimited_outcome, session_of, FIELDS, SEPARATOR};
use crate::json::{json_value, member};
use crate::literal::is_decimal_literal;
use crate::outcome::{keepalive_word, DecodeOutcome, Outcome};
use crate::record::{lemma_zero_is_literal, zero_literal, SCALARS};
use crate::structured::{
    decode_structured, document_view, keepalive_marker, scalar_keys, structured_outcome,
    timestamp_key, MemberView,
};
use crate::text::{
    fields, has_infix, lemma_fields_between_separators, occurrences, occurs_at,
};
use vstd::prelude::*;

verus! {

/// The encoding that the lines of a connection are written in.
#[derive(Debug, Clone, Copy, PartialEq, Eq)]
pub enum WireFormat {
    /// Comma-separated fields, told apart by position.
    Delimited,
    /// One JSON object per line.
    Structured,
}

/// What `line` decodes to in the encoding `format`.
pub open spec fn decode_outcome(format: WireFormat, line: Seq<char>) -> Outcome {
    match format {
        WireFormat::Delimited => delimited_outcome(line),
        WireFormat::Structured => structured_outcome(line),
    }
}

/// Decodes one line in the encoding `format`.
pub fn decode(format: WireFormat, line: &str) -> (outcome: DecodeOutcome)
    ensures
        outcome@ == decode_outcome(format, line@),
{
    match format {
        WireFormat::Delimited => decode_delimited(line),
        WireFormat::Structured => decode_structured(line),
    }
}

/// A delimited line of fifteen fields or more is never rejected. Where it
/// gives a reading, the session id and the timestamp are those of the first
/// two fields, and each measured value is the text of its field where that
/// is a decimal literal and zero where it is not.
pub proof fn lemma_delimited_line_is_decoded(line: Seq<char>)
    requires
        fields(line, SEPARATOR).len() >= FIELDS,
    ensures
        !(delimited_outcome(line) is Malformed),
        delimited_outcome(line) matches Outcome::Record(reading) ==> {
            let f = fields(line, SEPARATOR);
            &&& reading.wf()
            &&& reading.session_id == session_of(f[0])
            &&& reading.timestamp == f[1]
            &&& forall|k: int|
                0 <= k < SCALARS ==> #[trigger] reading.scalars[k] == if is_decimal_literal(
                    f[k + 2],
                ) {
                    f[k + 2]
                } else {
                    zero_literal()
                }
        },
{
    lemma_zero_is_literal();
}

/// A delimited line of fewer than fifteen fields is malformed, whatever its
/// fields hold.
pub proof fn lemma_short_line_is_malformed(line: Seq<char>)
    requires
        fields(line, SEPARATOR).len() < FIELDS,
    ensures
        delimited_outcome(line) == Outcome::Malformed(line),
{
}

/// Whether a delimited line is rejected is a matter of counting commas:
/// it is malformed where it holds fewer than fourteen, and nowhere else.
pub proof fn lemma_malformed_by_commas(line: Seq<char>)
    ensures
        delimited_outcome(line) is Malformed <==> occurrences(line, SEPARATOR) + 1 < FIELDS,
{
    lemma_fields_between_separators(line, SEPARATOR);
}

/// A structured line without the keepalive marker is malformed where it is
/// no JSON value, and where the timestamp or one of the measured values is
/// missing from it.
pub proof fn lemma_broken_line_is_malformed(line: Seq<char>)
    requires
        !has_infix(line, keepalive_marker()),
        json_value(line) matches Some(document) ==> {
            ||| member(document, timestamp_key()) is None
            ||| exists|k: int| 0 <= k < SCALARS && member(document, #[trigger] scalar_keys()[k]) is None
        },
    ensures
        structured_outcome(line) == Outcome::Malformed(line),
{
    if let Some(document) = json_value(line) {
        let view = document_view(document);
        if member(document, timestamp_key()) is Some {
            let k = choose|k: int|
                0 <= k < SCALARS && member(document, #[trigger] scalar_keys()[k]) is None;
            assert(view.scalars[k] == MemberView::Absent);
        }
    }
}

/// Every reading that is decoded is complete: under either encoding it
/// has its thirteen measured values, each of them a decimal literal.
pub proof fn lemma_decoded_reading_is_complete(format: WireFormat, line: Seq<char>)
    ensures
        decode_outcome(format, line) matches Outcome::Record(reading) ==> reading.wf(),
{
    lemma_zero_is_literal();
}

/// A text holds itself.
pub proof fn lemma_text_holds_itself(text: Seq<char>)
    ensures
        has_infix(text, text),
{
    assert(text.subrange(0, text.len() as int) =~= text);
    assert(occurs_at(text, text, 0));
}

/// No reading comes out of a line whose timestamp is or holds the keepalive
/// word: under either encoding, the timestamp of a decoded reading is free
/// of it.
pub proof fn lemma_keepalive_is_no_reading(format: WireFormat, line: Seq<char>)
    ensures
        decode_outcome(format, line) matches Outcome::Record(reading) ==> {
            &&& reading.timestamp != keepalive_word()
            &&& !has_infix(reading.timestamp, keepalive_word())
        },
{
    lemma_text_holds_itself(keepalive_word());
}

/// A delimited line of fifteen fields or more whose second field is or
/// holds the keepalive word is a keepalive.
pub proof fn lemma_delimited_keepalive(line: Seq<char>)
    requires
        fields(line, SEPARATOR).len() >= FIELDS,
        has_infix(fields(line, SEPARATOR)[1], keepalive_word()),
    ensures
        delimited_outcome(line) == Outcome::Keepalive,
{
}

/// A structured line whose `timestamp` member is a string that is or holds
/// the keepalive word gives no reading.
pub proof fn lemma_structured_keepalive(line: Seq<char>, document: serde_json::Value)
    requires
        json_value(line) == Some(document),
        document_view(document).timestamp matches MemberView::Text(text) && has_infix(
            text,
            keepalive_word(),
        ),
    ensures
        !(structured_outcome(line) is Record),
{
}

} // verus!
