//! From parsed fields to rows of numbers.
//!
//! A field that was parsed arrives as `Some` bit pattern, a field that is not
//! a number as `None`. A table of such fields becomes a table of numbers only
//! if every row is as wide as the header and every field is a number; the
//! first row that is not stops the load.

use crate::error::LoadError;
use vstd::prelude::*;

verus! {

/// A row of parsed fields with nothing wrong: as many fields as the header,
/// each of them a number.
pub open spec fn row_sound(row: Seq<Option<u32>>, width: int) -> bool {
    &&& row.len() == width
    &&& forall|j: int| 0 <= j < row.len() ==> (#[trigger] row[j]) is Some
}

/// Whether the first `count` rows are all sound.
pub open spec fn rows_sound(cells: Seq<Seq<Option<u32>>>, width: int, count: int) -> bool {
    forall|i: int| 0 <= i < count ==> row_sound(#[trigger] cells[i], width)
}

/// The numbers of a row of parsed fields.
pub open spec fn row_numbers(row: Seq<Option<u32>>) -> Seq<u32> {
    Seq::new(row.len(), |j: int| row[j].unwrap())
}

/// The numbers of a table of parsed fields, row by row.
pub open spec fn numbers_of(cells: Seq<Seq<Option<u32>>>) -> Seq<Seq<u32>> {
    Seq::new(cells.len(), |i: int| row_numbers(cells[i]))
}

/// What turning `cells` into rows of numbers comes to, for a header of
/// `width` columns: the numbers, where every row is sound; otherwise the
/// fault of the first row that is not. A row of the wrong width is
/// `Malformed`; in a row of the right width, the first field that is not a
/// number is `NotNumeric`.
pub open spec fn data_result(
    cells: Seq<Seq<Option<u32>>>,
    width: int,
    result: Result<Seq<Seq<u32>>, LoadError>,
) -> bool {
    match result {
        Ok(data) => rows_sound(cells, width, cells.len() as int) && data == numbers_of(cells),
        Err(LoadError::Malformed { row }) => {
            &&& row < cells.len()
            &&& rows_sound(cells, width, row as int)
            &&& cells[row as int].len() != width
        },
        Err(LoadError::NotNumeric { row, column }) => {
            &&& row < cells.len()
            &&& rows_sound(cells, width, row as int)
            &&& cells[row as int].len() == width
            &&& column < width
            &&& cells[row as int][column as int] is None
            &&& forall|k: int| 0 <= k < column ==> (#[trigger] cells[row as int][k]) is Some
        },
        Err(_) => false,
    }
}

/// The numbers of one row, or the place of its first field that is not a
/// number.
fn row_data(row: &Vec<Option<u32>>) -> (r: Result<Vec<u32>, usize>)
    ensures
        match r {
            Ok(numbers) => {
                &&& forall|j: int| 0 <= j < row@.len() ==> (#[trigger] row@[j]) is Some
                &&& numbers@ == row_numbers(row@)
            },
            Err(column) => {
                &&& column < row@.len()
                &&& row@[column as int] is None
                &&& forall|k: int| 0 <= k < column ==> (#[trigger] row@[k]) is Some
            },
        },
{
    let mut numbers: Vec<u32> = Vec::new();
    let mut j: usize = 0;
    while j < row.len()
        invariant
            j <= row@.len(),
            numbers@.len() == j,
            forall|k: int| 0 <= k < j ==> (#[trigger] row@[k]) == Some(numbers@[k]),
        decreases row@.len() - j,
    {
        match row[j] {
            Some(bits) => numbers.push(bits),
            None => return Err(j),
        }
        j += 1;
    }
    assert(numbers@ =~= row_numbers(row@));
    Ok(numbers)
}

/// Turns a table of parsed fields into rows of numbers, for a header of
/// `width` columns. Succeeds exactly where every row has `width` fields and
/// every field is a number; otherwise reports the first row at fault, and in
/// it the first field.
pub fn get_data(cells: &Vec<Vec<Option<u32>>>, width: usize) -> (r: Result<
    Vec<Vec<u32>>,
    LoadError,
>)
    ensures
        match r {
            Ok(data) => data_result(cells.deep_view(), width as int, Ok(data.deep_view())),
            Err(error) => data_result(cells.deep_view(), width as int, Err(error)),
        },
{
    let ghost table = cells.deep_view();
    let mut data: Vec<Vec<u32>> = Vec::new();
    let mut i: usize = 0;
    while i < cells.len()
        invariant
            i <= cells@.len(),
            table == cells.deep_view(),
            data@.len() == i,
            rows_sound(table, width as int, i as int),
            forall|k: int| 0 <= k < i ==> (#[trigger] data@[k])@ == row_numbers(table[k]),
        decreases cells@.len() - i,
    {
        let row = &cells[i];
        assert(table[i as int] =~= row@);
        if row.len() != width {
            return Err(LoadError::Malformed { row: i });
        }
        match row_data(row) {
            Ok(numbers) => data.push(numbers),
            Err(column) => return Err(LoadError::NotNumeric { row: i, column }),
        }
        i += 1;
    }
    assert(data.deep_view() =~= numbers_of(table)) by {
        assert forall|k: int| 0 <= k < data@.len() implies data.deep_view()[k] == numbers_of(
            table,
        )[k] by {
            assert(data.deep_view()[k] =~= data@[k]@);
        }
    }
    Ok(data)
}

} // verus!
