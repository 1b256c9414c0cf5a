//! The logic of a telemetry ingestion server: clients connect over TCP and
//! stream sensor readings, one per line, and every valid reading is stored
//! as one row.
//!
//! The library decides; it neither reads from a socket nor writes to a
//! store. The program around it does both and asks the library what to do
//! with each thing that happens.
//!
//! - `text`, `literal`: scanning of one line, and the numbers it can carry.
//! - `record`, `outcome`: a reading, and what decoding a line can give.
//! - `delimited`, `structured`, `json`, `decoder`: the two encodings of a
//!   line and the decoder over both.
//! - `session`: what one connection's handler does with each event.
//! - `acceptor`: when connections are taken, and when the server stops.
//! - `sink`: the row that is written for a reading.

pub mod acceptor;
pub mod decoder;
pub mod delimited;
pub mod json;
pub mod literal;
pub mod outcome;
pub mod record;
pub mod session;
pub mod sink;
pub mod structured;
pub mod text;
