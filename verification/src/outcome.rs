//! What decoding one line can give.

use crate::record::{Reading, Record};
use vstd::prelude::*;

verus! {

/// The result of decoding one line: a reading, a keepalive signal, or the
/// line itself where it is neither.
#[derive(Debug, Clone, PartialEq, Eq)]
pub enum DecodeOutcome {
    /// A complete reading, to be stored.
    Record(Record),
    /// A control message that keeps the connection open; never stored.
    Keepalive,
    /// The line as it was received, which could not be decoded.
    Malformed(String),
}

/// A decoding result as a mathematical value.
pub enum Outcome {
    Record(Reading),
    Keepalive,
    Malformed(Seq<char>),
}

impl View for DecodeOutcome {
    type V = Outcome;

    open spec fn view(&self) -> Outcome {
        match self {
            DecodeOutcome::Record(record) => Outcome::Record(record@),
            DecodeOutcome::Keepalive => Outcome::Keepalive,
            DecodeOutcome::Malformed(line) => Outcome::Malformed(line@),
        }
    }
}

/// The word that marks a keepalive where it stands in a timestamp.
pub open spec fn keepalive_word() -> Seq<char> {
    "keepalive"@
}

impl DecodeOutcome {
    /// Whether this is a reading.
    pub fn is_record(&self) -> (record: bool)
        ensures
            record == (self@ is Record),
    {
        match self {
            DecodeOutcome::Record(_) => true,
            _ => false,
        }
    }

    /// Whether this is a keepalive signal.
    pub fn is_keepalive(&self) -> (keepalive: bool)
        ensures
            keepalive == (self@ is Keepalive),
    {
        match self {
            DecodeOutcome::Keepalive => true,
            _ => false,
        }
    }

    /// Whether the line could not be decoded.
    pub fn is_malformed(&self) -> (malformed: bool)
        ensures
            malformed == (self@ is Malformed),
    {
        match self {
            DecodeOutcome::Malformed(_) => true,
            _ => false,
        }
    }
}

} // verus!
