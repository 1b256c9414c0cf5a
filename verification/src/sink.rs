//! What the persistence sink writes: one row per reading, into one table.
//!
//! The sink itself belongs to the handler, which owns the store handle. It
//! prepares `INSERT_ROW` and binds the cells of `row` to it in their order.
//! Each row is written by itself; a row that the store refuses is not
//! written again.

use crate::record::{Reading, Record, Scalar};
use vstd::prelude::*;

verus! {

/// The statement that creates the table where it does not exist yet. The
/// store numbers the rows itself, in the first column.
pub const CREATE_TABLE: &'static str =
    "CREATE TABLE IF NOT EXISTS sensor_data (\
id INTEGER PRIMARY KEY AUTOINCREMENT, \
sessionId INTEGER, \
timestamp TEXT, \
latitude REAL, \
longitude REAL, \
altitude REAL, \
accel_x REAL, \
accel_y REAL, \
accel_z REAL, \
gyro_x REAL, \
gyro_y REAL, \
gyro_z REAL, \
dac_1 REAL, \
dac_2 REAL, \
dac_3 REAL, \
dac_4 REAL)";

/// The statement that writes one row. Its parameters are the cells of
/// `row`, in their order.
pub const INSERT_ROW: &'static str =
    "INSERT INTO sensor_data (\
sessionId, timestamp, latitude, longitude, altitude, \
accel_x, accel_y, accel_z, gyro_x, gyro_y, gyro_z, \
dac_1, dac_2, dac_3, dac_4) \
VALUES (?, ?, ?, ?, ?, ?, ?, ?, ?, ?, ?, ?, ?, ?, ?)";

/// The number of cells in a row.
pub const CELLS: usize = 15;

/// One cell of a row.
#[derive(Debug, Clone, PartialEq, Eq)]
pub enum Cell {
    /// A whole number, or no value.
    Integer(Option<i32>),
    /// A text.
    Text(String),
    /// A measured value.
    Real(Scalar),
}

/// A cell as a mathematical value.
pub enum CellView {
    Integer(Option<i32>),
    Text(Seq<char>),
    Real(Seq<char>),
}

impl View for Cell {
    type V = CellView;

    open spec fn view(&self) -> CellView {
        match self {
            Cell::Integer(number) => CellView::Integer(*number),
            Cell::Text(text) => CellView::Text(text@),
            Cell::Real(scalar) => CellView::Real(scalar@),
        }
    }
}

/// The row that is written for `reading`: the session id, the timestamp as
/// text, then the measured values in their order.
pub open spec fn row_of(reading: Reading) -> Seq<CellView> {
    seq![CellView::Integer(reading.session_id), CellView::Text(reading.timestamp)]
        + reading.scalars.map_values(|scalar: Seq<char>| CellView::Real(scalar))
}

/// The row that is written for `record`. The record is used up.
pub fn row(record: Record) -> (cells: Vec<Cell>)
    ensures
        cells@.map_values(|cell: Cell| cell@) == row_of(record@),
        cells@.len() == CELLS,
{
    let ghost reading = record@;
    let mut cells: Vec<Cell> = Vec::with_capacity(CELLS);
    cells.push(Cell::Integer(record.session_id));
    cells.push(Cell::Text(record.timestamp));
    cells.push(Cell::Real(record.latitude));
    cells.push(Cell::Real(record.longitude));
    cells.push(Cell::Real(record.altitude));
    cells.push(Cell::Real(record.accel_x));
    cells.push(Cell::Real(record.accel_y));
    cells.push(Cell::Real(record.accel_z));
    cells.push(Cell::Real(record.gyro_x));
    cells.push(Cell::Real(record.gyro_y));
    cells.push(Cell::Real(record.gyro_z));
    cells.push(Cell::Real(record.dac_1));
    cells.push(Cell::Real(record.dac_2));
    cells.push(Cell::Real(record.dac_3));
    cells.push(Cell::Real(record.dac_4));
    cells
}

} // verus!
