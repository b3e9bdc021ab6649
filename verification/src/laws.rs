//! What holds of every load, proved from the contracts of the loader.

use crate::data::numbers_of;
use crate::data::rows_sound;
use crate::dataset::dataset_result;
use crate::dataset::lemma_feature_values;
use crate::dataset::shape_agrees;
use crate::dataset::DatasetView;
use crate::error::LoadError;
use crate::number::lemma_truncated_in_range;
use crate::number::truncated;
use crate::source::record_sound;
use crate::table::table_result;
use crate::table::TableView;
use vstd::prelude::*;

verus! {

/// A loaded dataset has the sizes of its table: for a header of `H` columns
/// and `R` data rows, `H - 1` feature names, a matrix of `R` by `H - 1` that
/// is full, and `R` labels.
pub proof fn lemma_loaded_sizes(
    headers: Seq<Seq<char>>,
    cells: Seq<Seq<Option<u32>>>,
    shape: Option<(usize, usize)>,
    dataset: DatasetView,
)
    requires
        dataset_result(headers, cells, shape, Ok(dataset)),
    ensures
        dataset.feature_names.len() == headers.len() - 1,
        dataset.records.rows == cells.len(),
        dataset.records.cols == headers.len() - 1,
        dataset.records.wf(),
        dataset.targets.len() == cells.len(),
{
    lemma_feature_values(numbers_of(cells), headers.len() - 1);
}

/// A well-formed table loads: a header of two columns or more, rows that are
/// all sound, and a shape that agrees give a dataset, never an error. The
/// shape agrees where none is expected or the expected one is the table's
/// own, and where an array can have it.
pub proof fn lemma_well_formed_loads(
    headers: Seq<Seq<char>>,
    cells: Seq<Seq<Option<u32>>>,
    shape: Option<(usize, usize)>,
    result: Result<DatasetView, LoadError>,
)
    requires
        2 <= headers.len(),
        rows_sound(cells, headers.len() as int, cells.len() as int),
        shape_agrees(shape, cells.len() as int, headers.len() - 1),
        dataset_result(headers, cells, shape, result),
    ensures
        result is Ok,
{
}

/// A table that does not have the expected shape does not load: where its
/// rows are sound, the error is `Shape`.
pub proof fn lemma_other_shape_fails(
    headers: Seq<Seq<char>>,
    cells: Seq<Seq<Option<u32>>>,
    expected: (usize, usize),
    result: Result<DatasetView, LoadError>,
)
    requires
        2 <= headers.len(),
        rows_sound(cells, headers.len() as int, cells.len() as int),
        expected.0 != cells.len() || expected.1 != headers.len() - 1,
        dataset_result(headers, cells, Some(expected), result),
    ensures
        result == Err::<DatasetView, LoadError>(LoadError::Shape),
{
}

/// Every label is the truncation of the last field of its row.
pub proof fn lemma_labels_truncated(
    headers: Seq<Seq<char>>,
    cells: Seq<Seq<Option<u32>>>,
    shape: Option<(usize, usize)>,
    dataset: DatasetView,
)
    requires
        dataset_result(headers, cells, shape, Ok(dataset)),
    ensures
        dataset.targets.len() == cells.len(),
        forall|i: int|
            0 <= i < cells.len() ==> (#[trigger] dataset.targets[i]) == truncated(
                cells[i][headers.len() - 1].unwrap(),
            ),
{
    assert forall|i: int| 0 <= i < cells.len() implies (#[trigger] dataset.targets[i])
        == truncated(cells[i][headers.len() - 1].unwrap()) by {
        lemma_truncated_in_range(cells[i][headers.len() - 1].unwrap());
    }
}

/// Every feature value keeps its place: the value of the matrix at row `i`
/// and column `j` is the field of data row `i` and column `j`, and the
/// values stand row after row.
pub proof fn lemma_features_in_place(
    headers: Seq<Seq<char>>,
    cells: Seq<Seq<Option<u32>>>,
    shape: Option<(usize, usize)>,
    dataset: DatasetView,
)
    requires
        dataset_result(headers, cells, shape, Ok(dataset)),
    ensures
        forall|i: int, j: int|
            0 <= i < cells.len() && 0 <= j < headers.len() - 1 ==> dataset.records.at(i, j)
                == (#[trigger] cells[i][j]).unwrap(),
        forall|i: int, j: int|
            0 <= i < cells.len() && 0 <= j < headers.len() - 1
                ==> dataset.records.values[i * (headers.len() - 1) + j]
                == (#[trigger] cells[i][j]).unwrap(),
{
    let features = headers.len() - 1;
    let data = numbers_of(cells);
    lemma_feature_values(data, features);
    assert forall|i: int, j: int|
        0 <= i < cells.len() && 0 <= j < features implies dataset.records.values[i * features
        + j] == (#[trigger] cells[i][j]).unwrap() by {
        assert(data[i][j] == cells[i][j].unwrap());
    }
}

/// A table with a row that is not as wide as the header, or with a field
/// that is not a number, does not load.
pub proof fn lemma_unsound_row_fails(
    headers: Seq<Seq<char>>,
    cells: Seq<Seq<Option<u32>>>,
    shape: Option<(usize, usize)>,
    result: Result<DatasetView, LoadError>,
)
    requires
        !rows_sound(cells, headers.len() as int, cells.len() as int),
        dataset_result(headers, cells, shape, result),
    ensures
        result is Err,
{
}

/// The two steps fit: where the fields come from a table that was read, one
/// parsed field for each text field, no row is the wrong width, so loading
/// can only fail on a header without features, on a field that is not a
/// number, or on the shape.
pub proof fn lemma_read_rows_fit(
    table: TableView,
    cells: Seq<Seq<Option<u32>>>,
    shape: Option<(usize, usize)>,
    result: Result<DatasetView, LoadError>,
)
    requires
        table.wf(),
        cells.len() == table.rows.len(),
        forall|i: int| 0 <= i < cells.len() ==> (#[trigger] cells[i]).len() == table.rows[i].len(),
        dataset_result(table.header, cells, shape, result),
    ensures
        !(result matches Err(LoadError::Malformed { .. })),
        !(result matches Err(LoadError::Header)),
{
    if let Err(LoadError::Malformed { row }) = result {
        assert(cells[row as int].len() == table.rows[row as int].len());
    }
}

/// Loading is a function of what is loaded: two results for the same header,
/// fields and shape are the same dataset or the same error.
pub proof fn lemma_load_deterministic(
    headers: Seq<Seq<char>>,
    cells: Seq<Seq<Option<u32>>>,
    shape: Option<(usize, usize)>,
    first: Result<DatasetView, LoadError>,
    second: Result<DatasetView, LoadError>,
)
    requires
        dataset_result(headers, cells, shape, first),
        dataset_result(headers, cells, shape, second),
    ensures
        first == second,
{
}

/// Text in which the reader refuses a record, or finds one that is not as
/// wide as the header, gives no table.
pub proof fn lemma_unsound_record_fails(
    header: Option<Seq<Seq<char>>>,
    records: Seq<Option<Seq<Seq<char>>>>,
    at: int,
    result: Result<TableView, LoadError>,
)
    requires
        header is Some,
        0 <= at < records.len(),
        !record_sound(records[at], header->Some_0.len() as int),
        table_result(header, records, result),
    ensures
        result is Err,
{
}

/// Reading is a function of what the reader gives: two results for the same
/// header and records are the same table or the same error.
pub proof fn lemma_read_deterministic(
    header: Option<Seq<Seq<char>>>,
    records: Seq<Option<Seq<Seq<char>>>>,
    first: Result<TableView, LoadError>,
    second: Result<TableView, LoadError>,
)
    requires
        table_result(header, records, first),
        table_result(header, records, second),
    ensures
        first == second,
{
    match (first, second) {
        (Ok(one), Ok(other)) => {
            assert forall|i: int| 0 <= i < one.rows.len() implies one.rows[i] == other.rows[i] by {
                assert(records[i] == Some(one.rows[i]));
                assert(records[i] == Some(other.rows[i]));
            }
            assert(one.rows =~= other.rows);
        },
        (Ok(one), Err(LoadError::Malformed { row })) => {
            assert(records[row as int] == Some(one.rows[row as int]));
        },
        (Err(LoadError::Malformed { row }), Ok(other)) => {
            assert(records[row as int] == Some(other.rows[row as int]));
        },
        (Err(LoadError::Malformed { row }), Err(LoadError::Malformed { row: later })) => {
            if row < later {
                assert(record_sound(records[row as int], header->Some_0.len() as int));
            } else if later < row {
                assert(record_sound(records[later as int], header->Some_0.len() as int));
            }
        },
        _ => {},
    }
}

} // verus!
