//! Reading the text table: the header and the data rows, as the `csv` reader
//! gives them for a buffer of bytes.

use crate::error::LoadError;
use vstd::prelude::*;

verus! {

/// `csv::Reader`, the reader of delimited text.
#[verifier::external_type_specification]
#[verifier::external_body]
#[verifier::reject_recursive_types(R)]
pub struct ExReader<R>(csv::Reader<R>);

/// `csv::Error`, the error of a reader.
#[verifier::external_type_specification]
#[verifier::external_body]
pub struct ExError(csv::Error);

/// A reader over the bytes of a text table. It is made by `open_reader`
/// alone, so it always is a `csv` reader with the default settings: the
/// first record is the header, and every record has to have as many fields
/// as the first.
pub struct TableReader<'a> {
    inner: csv::Reader<&'a [u8]>,
}

/// What `Reader::headers` gives for a reader with the default settings over
/// `input`: the fields of the first record, or nothing where it fails.
pub uninterp spec fn csv_header(input: Seq<u8>) -> Option<Seq<Seq<char>>>;

/// What the iterator of `Reader::records` yields for a reader with the
/// default settings over `input`, in order: for each record after the header
/// its fields, or nothing where the reader refuses the record.
pub uninterp spec fn csv_records(input: Seq<u8>) -> Seq<Option<Seq<Seq<char>>>>;

/// The header that a reader gives: the fields of the first record of its
/// input, or nothing where `Reader::headers` fails.
pub uninterp spec fn reader_header(reader: TableReader) -> Option<Seq<Seq<char>>>;

/// What a reader has still to yield: for each record to come its fields, or
/// nothing where the reader refuses the record.
pub uninterp spec fn reader_pending(reader: TableReader) -> Seq<Option<Seq<Seq<char>>>>;

/// `csv::Reader::from_reader` on a buffer of bytes: a reader with the default
/// settings that has read nothing yet.
#[verifier::external_body]
fn reader_over(bytes: &[u8]) -> (r: TableReader<'_>)
    ensures
        reader_header(r) == csv_header(bytes@),
        reader_pending(r) == csv_records(bytes@),
{
    TableReader { inner: csv::Reader::from_reader(bytes) }
}

/// `Reader::headers` on a reader with the default settings: the fields of
/// the header, each copied into a `String`, or the reader's error. The call
/// leaves the records to come as they were.
#[verifier::external_body]
fn read_header(reader: &mut TableReader) -> (r: Result<Vec<String>, csv::Error>)
    ensures
        reader_header(*final(reader)) == reader_header(*old(reader)),
        reader_pending(*final(reader)) == reader_pending(*old(reader)),
        match r {
            Ok(fields) => reader_header(*old(reader)) == Some(fields.deep_view()),
            Err(_) => reader_header(*old(reader)) is None,
        },
{
    match reader.inner.headers() {
        Ok(record) => Ok(record.iter().map(String::from).collect()),
        Err(error) => Err(error),
    }
}

/// One step of the iterator of `Reader::records` on a reader with the
/// default settings: nothing where no record is left; else the next record,
/// its fields each copied into a `String`, or the reader's error for it. A
/// step takes the record off what is still to come.
#[verifier::external_body]
fn next_record(reader: &mut TableReader) -> (r: Option<Result<Vec<String>, csv::Error>>)
    ensures
        reader_header(*final(reader)) == reader_header(*old(reader)),
        match r {
            None => reader_pending(*old(reader)).len() == 0 && reader_pending(*final(reader))
                == reader_pending(*old(reader)),
            Some(outcome) => {
                &&& reader_pending(*old(reader)).len() > 0
                &&& reader_pending(*final(reader)) == reader_pending(*old(reader)).drop_first()
                &&& match outcome {
                    Ok(fields) => reader_pending(*old(reader))[0] == Some(fields.deep_view()),
                    Err(_) => reader_pending(*old(reader))[0] is None,
                }
            },
        },
{
    match reader.inner.records().next() {
        Some(Ok(record)) => Some(Ok(record.iter().map(String::from).collect())),
        Some(Err(error)) => Some(Err(error)),
        None => None,
    }
}

/// Opens a reader over the bytes of a comma-delimited text whose first line
/// is the header. Nothing is read yet: the reader gives the header and has
/// still to yield every record that the text holds after it.
pub fn open_reader(bytes: &[u8]) -> (r: TableReader<'_>)
    ensures
        reader_header(r) == csv_header(bytes@),
        reader_pending(r) == csv_records(bytes@),
{
    reader_over(bytes)
}

/// What reading the header comes to: its fields, or `LoadError::Header` where
/// the reader gives none.
pub open spec fn header_result(
    header: Option<Seq<Seq<char>>>,
    result: Result<Seq<Seq<char>>, LoadError>,
) -> bool {
    match result {
        Ok(fields) => header == Some(fields),
        Err(error) => header is None && error == LoadError::Header,
    }
}

/// Reads the header of the table: the names of its columns.
pub fn get_headers(reader: &mut TableReader) -> (r: Result<Vec<String>, LoadError>)
    ensures
        reader_header(*final(reader)) == reader_header(*old(reader)),
        reader_pending(*final(reader)) == reader_pending(*old(reader)),
        match r {
            Ok(fields) => header_result(reader_header(*old(reader)), Ok(fields.deep_view())),
            Err(error) => header_result(reader_header(*old(reader)), Err(error)),
        },
{
    match read_header(reader) {
        Ok(fields) => Ok(fields),
        Err(_) => Err(LoadError::Header),
    }
}

/// A record that the reader gave, with as many fields as the header.
pub open spec fn record_sound(record: Option<Seq<Seq<char>>>, width: int) -> bool {
    record matches Some(fields) && fields.len() == width
}

/// Accepts a data row as the reader gave it: the row stands if the reader
/// gave its fields and they are as many as the header has; else it is
/// `Malformed`, under its number.
pub fn check_row(record: Option<Vec<String>>, width: usize, row: usize) -> (r: Result<
    Vec<String>,
    LoadError,
>)
    ensures
        r is Ok <==> record_sound(record.deep_view(), width as int),
        r matches Ok(fields) ==> record == Some(fields),
        r matches Err(error) ==> error == (LoadError::Malformed { row }),
{
    match record {
        Some(fields) => {
            if fields.len() == width {
                Ok(fields)
            } else {
                Err(LoadError::Malformed { row })
            }
        },
        None => Err(LoadError::Malformed { row }),
    }
}

/// What reading the data rows comes to, for a header of `width` columns and
/// the records that the reader yields: all the rows, where every record is
/// sound; otherwise `Malformed` with the number of the first that is not.
pub open spec fn rows_result(
    records: Seq<Option<Seq<Seq<char>>>>,
    width: int,
    result: Result<Seq<Seq<Seq<char>>>, LoadError>,
) -> bool {
    match result {
        Ok(rows) => {
            &&& rows.len() == records.len()
            &&& forall|i: int|
                0 <= i < records.len() ==> record_sound(#[trigger] records[i], width)
                    && records[i] == Some(rows[i])
        },
        Err(LoadError::Malformed { row }) => {
            &&& row < records.len()
            &&& forall|i: int| 0 <= i < row ==> record_sound(#[trigger] records[i], width)
            &&& !record_sound(records[row as int], width)
        },
        Err(_) => false,
    }
}

/// Reads the data rows that the reader has still to yield, each checked
/// against the `width` of the header, and stops at the first that is not
/// sound.
pub fn get_rows(reader: &mut TableReader, width: usize) -> (r: Result<
    Vec<Vec<String>>,
    LoadError,
>)
    ensures
        reader_header(*final(reader)) == reader_header(*old(reader)),
        match r {
            Ok(rows) => {
                &&& rows_result(reader_pending(*old(reader)), width as int, Ok(rows.deep_view()))
                &&& reader_pending(*final(reader)).len() == 0
            },
            Err(error) => {
                &&& rows_result(reader_pending(*old(reader)), width as int, Err(error))
                &&& error matches LoadError::Malformed { row } && reader_pending(*final(reader))
                    == reader_pending(*old(reader)).skip(row + 1)
            },
        },
{
    let ghost records = reader_pending(*reader);
    let mut rows: Vec<Vec<String>> = Vec::new();
    loop
        invariant
            reader_header(*reader) == reader_header(*old(reader)),
            records == reader_pending(*old(reader)),
            rows@.len() <= records.len(),
            reader_pending(*reader) == records.skip(rows@.len() as int),
            forall|i: int|
                0 <= i < rows@.len() ==> record_sound(#[trigger] records[i], width as int)
                    && records[i] == Some(rows@[i].deep_view()),
        decreases records.len() - rows@.len(),
    {
        let ghost taken = rows@.len() as int;
        let record: Option<Vec<String>> = match next_record(reader) {
            None => {
                assert forall|i: int| 0 <= i < records.len() implies record_sound(
                    #[trigger] records[i],
                    width as int,
                ) && records[i] == Some(rows.deep_view()[i]) by {
                    assert(rows.deep_view()[i] == rows@[i].deep_view());
                }
                return Ok(rows);
            },
            Some(Ok(fields)) => Some(fields),
            Some(Err(_)) => None,
        };
        assert(records.skip(taken)[0] == records[taken]);
        assert(records.skip(taken).drop_first() =~= records.skip(taken + 1));
        match check_row(record, width, rows.len()) {
            Ok(fields) => {
                rows.push(fields);
            },
            Err(error) => {
                return Err(error);
            },
        }
    }
}

} // verus!
