//! The raw table: the header and the data rows of a text table, still as
//! text.

use crate::error::LoadError;
use crate::source::csv_header;
use crate::source::csv_records;
use crate::source::get_headers;
use crate::source::get_rows;
use crate::source::open_reader;
use crate::source::rows_result;
use vstd::prelude::*;

verus! {

/// The header and the data rows of a table, each row a sequence of text
/// fields. Every row has as many fields as the header.
#[derive(Debug)]
pub struct RawTable {
    header: Vec<String>,
    rows: Vec<Vec<String>>,
}

/// What a raw table holds.
pub struct TableView {
    pub header: Seq<Seq<char>>,
    pub rows: Seq<Seq<Seq<char>>>,
}

impl TableView {
    /// Every row has as many fields as the header.
    pub open spec fn wf(self) -> bool {
        forall|i: int| 0 <= i < self.rows.len() ==> (#[trigger] self.rows[i]).len() == self.header.len()
    }
}

impl View for RawTable {
    type V = TableView;

    closed spec fn view(&self) -> TableView {
        TableView { header: self.header.deep_view(), rows: self.rows.deep_view() }
    }
}

impl RawTable {
    /// The names of the columns.
    pub fn header(&self) -> (r: &Vec<String>)
        ensures
            r.deep_view() == self@.header,
    {
        &self.header
    }

    /// The data rows, in the order of the text.
    pub fn rows(&self) -> (r: &Vec<Vec<String>>)
        ensures
            r.deep_view() == self@.rows,
    {
        &self.rows
    }
}

/// What reading a table comes to, for the header and the records that the
/// reader gives: `Header` where it gives no header; otherwise, as
/// `rows_result` says, the table of all rows or `Malformed` with the number
/// of the first record that it refuses or that is not as wide as the header.
pub open spec fn table_result(
    header: Option<Seq<Seq<char>>>,
    records: Seq<Option<Seq<Seq<char>>>>,
    result: Result<TableView, LoadError>,
) -> bool {
    match result {
        Err(LoadError::Header) => header is None,
        Err(error) => header matches Some(names) && rows_result(
            records,
            names.len() as int,
            Err(error),
        ),
        Ok(table) => header == Some(table.header) && rows_result(
            records,
            table.header.len() as int,
            Ok(table.rows),
        ),
    }
}

/// A table that was read has rows as wide as its header.
pub proof fn lemma_table_well_formed(
    header: Option<Seq<Seq<char>>>,
    records: Seq<Option<Seq<Seq<char>>>>,
    table: TableView,
)
    requires
        table_result(header, records, Ok(table)),
    ensures
        table.wf(),
{
    assert forall|i: int| 0 <= i < table.rows.len() implies (#[trigger] table.rows[i]).len()
        == table.header.len() by {
        assert(records[i] == Some(table.rows[i]));
    }
}

/// A result of reading, with the table taken by what it holds.
pub open spec fn read_view(result: Result<RawTable, LoadError>) -> Result<TableView, LoadError> {
    match result {
        Ok(table) => Ok(table@),
        Err(error) => Err(error),
    }
}

/// Reads a whole table from the bytes of a comma-delimited text whose first
/// line is the header. No row is skipped: the result is the whole table, or
/// the first error, as `table_result` says of what the reader gives for
/// these bytes.
pub fn read_table(bytes: &[u8]) -> (r: Result<RawTable, LoadError>)
    ensures
        table_result(csv_header(bytes@), csv_records(bytes@), read_view(r)),
        r matches Ok(table) ==> table@.wf(),
{
    let mut reader = open_reader(bytes);
    let header = match get_headers(&mut reader) {
        Ok(header) => header,
        Err(error) => return Err(error),
    };
    let rows = match get_rows(&mut reader, header.len()) {
        Ok(rows) => rows,
        Err(error) => return Err(error),
    };
    let table = RawTable { header, rows };
    proof {
        lemma_table_well_formed(csv_header(bytes@), csv_records(bytes@), table@);
    }
    Ok(table)
}

} // verus!
