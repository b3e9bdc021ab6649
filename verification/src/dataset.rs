//! The dataset and how it is built from rows of numbers: the feature columns
//! of every row go into the matrix, the last column is truncated into the
//! labels, and the header without its last name gives the feature names.

use crate::arrays::shape_extent;
use crate::arrays::FeatureMatrix;
use crate::arrays::LabelVector;
use crate::arrays::MatrixView;
use crate::data::data_result;
use crate::data::get_data;
use crate::data::numbers_of;
use crate::data::rows_sound;
use crate::error::LoadError;
use crate::number::truncate;
use crate::number::truncated;
use vstd::prelude::*;

verus! {

/// The first `target` values of every row, one row after the other.
pub open spec fn feature_values(data: Seq<Seq<u32>>, target: int) -> Seq<u32>
    decreases data.len(),
{
    if data.len() == 0 {
        Seq::empty()
    } else {
        feature_values(data.drop_last(), target) + data.last().take(target)
    }
}

/// The label of every row: what its value at `target` truncates to.
pub open spec fn label_values_of(data: Seq<Seq<u32>>, target: int) -> Seq<i32> {
    Seq::new(data.len(), |i: int| truncated(data[i][target]) as i32)
}

/// Whether every row has at least `count` values.
pub open spec fn rows_reach(data: Seq<Seq<u32>>, count: int) -> bool {
    forall|i: int| 0 <= i < data.len() ==> count <= (#[trigger] data[i]).len()
}

/// In a table of `rows` by `cols`, kept row after row, the place of row `i`
/// and column `j` is `i * cols + j`, and it lies within the table.
pub proof fn lemma_place_in_range(rows: int, cols: int, i: int, j: int)
    by (nonlinear_arith)
    requires
        0 <= i < rows,
        0 <= j < cols,
    ensures
        0 <= i * cols + j < rows * cols,
{
}

/// Where every row has at least `target` values, the feature values are
/// `target` for each row, and the value of row `i` at column `j` stands at
/// `i * target + j`: the order is row-major.
pub proof fn lemma_feature_values(data: Seq<Seq<u32>>, target: int)
    requires
        0 <= target,
        rows_reach(data, target),
    ensures
        feature_values(data, target).len() == data.len() * target,
        forall|i: int, j: int|
            0 <= i < data.len() && 0 <= j < target ==> feature_values(data, target)[i * target
                + j] == #[trigger] data[i][j],
    decreases data.len(),
{
    if data.len() == 0 {
    } else {
        let front = data.drop_last();
        let last = data.len() - 1;
        lemma_feature_values(front, target);
        assert(feature_values(data, target).len() == data.len() * target) by (nonlinear_arith)
            requires
                feature_values(data, target).len() == last * target + target,
                last == data.len() - 1,
        ;
        assert forall|i: int, j: int|
            0 <= i < data.len() && 0 <= j < target implies feature_values(data, target)[i
            * target + j] == #[trigger] data[i][j] by {
            if i < last {
                lemma_place_in_range(last, target, i, j);
                assert(front[i][j] == data[i][j]);
            } else {
                assert(i * target + j - last * target == j) by (nonlinear_arith)
                    requires
                        i == last,
                ;
            }
        }
    }
}

/// Whether the features of a table of `rows` data rows and `cols` feature
/// columns can be laid out as a matrix: an expected shape, where one is
/// given, is the table's own (rows, then columns), and an array can have
/// that shape.
pub open spec fn shape_agrees(expected: Option<(usize, usize)>, rows: int, cols: int) -> bool {
    &&& expected matches Some(given) ==> given.0 == rows && given.1 == cols
    &&& shape_extent(rows, cols) <= isize::MAX
}

/// Gathers the feature values of `data`, the first `target_index` of every
/// row, into a matrix with one row for each row of `data` and one column for
/// each feature, so that every value keeps its row and its column. Fails with
/// `LoadError::Shape`, and only then, where an `expected` shape is given and
/// is not the shape of the table, or where no array can have that shape.
pub fn get_records(
    data: &Vec<Vec<u32>>,
    target_index: usize,
    expected: Option<(usize, usize)>,
) -> (r: Result<FeatureMatrix, LoadError>)
    requires
        rows_reach(data.deep_view(), target_index as int),
    ensures
        r is Ok <==> shape_agrees(expected, data@.len() as int, target_index as int),
        r matches Ok(matrix) ==> {
            &&& matrix@.wf()
            &&& matrix@ == (MatrixView {
                rows: data@.len(),
                cols: target_index as nat,
                values: feature_values(data.deep_view(), target_index as int),
            })
            &&& forall|i: int, j: int|
                0 <= i < data@.len() && 0 <= j < target_index ==> matrix@.at(i, j)
                    == #[trigger] data.deep_view()[i][j]
        },
        r matches Err(error) ==> error == LoadError::Shape,
{
    match expected {
        Some(given) => {
            if given.0 != data.len() || given.1 != target_index {
                return Err(LoadError::Shape);
            }
        },
        None => {},
    }
    let ghost table = data.deep_view();
    let ghost target = target_index as int;
    let mut values: Vec<u32> = Vec::new();
    let mut i: usize = 0;
    assert(table.take(0) =~= Seq::empty());
    while i < data.len()
        invariant
            i <= data@.len(),
            table == data.deep_view(),
            target == target_index,
            rows_reach(table, target),
            values@ == feature_values(table.take(i as int), target),
        decreases data@.len() - i,
    {
        let row = &data[i];
        let ghost before = values@;
        assert(table[i as int] =~= row@);
        let mut j: usize = 0;
        while j < target_index
            invariant
                j <= target_index <= row@.len(),
                values@ == before + row@.take(j as int),
            decreases target_index - j,
        {
            values.push(row[j]);
            assert(row@.take(j + 1) =~= row@.take(j as int).push(row@[j as int]));
            j += 1;
        }
        proof {
            let next = table.take(i + 1);
            assert(next.drop_last() =~= table.take(i as int));
            assert(next.last() == row@);
        }
        i += 1;
    }
    assert(table.take(i as int) =~= table);
    proof {
        lemma_feature_values(table, target);
    }
    FeatureMatrix::from_values(values, data.len(), target_index)
}

/// Truncates the value at `target_index` of every row to an integer label.
pub fn get_targets(data: &Vec<Vec<u32>>, target_index: usize) -> (r: LabelVector)
    requires
        rows_reach(data.deep_view(), target_index + 1),
    ensures
        r@ == label_values_of(data.deep_view(), target_index as int),
{
    let ghost table = data.deep_view();
    let mut labels: Vec<i32> = Vec::new();
    let mut i: usize = 0;
    while i < data.len()
        invariant
            i <= data@.len(),
            table == data.deep_view(),
            rows_reach(table, target_index + 1),
            labels@.len() == i,
            forall|k: int|
                0 <= k < i ==> (#[trigger] labels@[k]) == truncated(table[k][target_index as int]),
        decreases data@.len() - i,
    {
        let row = &data[i];
        assert(table[i as int] =~= row@);
        labels.push(truncate(row[target_index]));
        i += 1;
    }
    assert(labels@ =~= label_values_of(table, target_index as int));
    LabelVector::from_vec(labels)
}

/// A loaded dataset: the feature matrix, the label vector and the names of
/// the feature columns. It is made once and never changed.
#[derive(Debug)]
pub struct Dataset {
    records: FeatureMatrix,
    targets: LabelVector,
    feature_names: Vec<String>,
}

/// What a dataset holds.
pub struct DatasetView {
    pub records: MatrixView,
    pub targets: Seq<i32>,
    pub feature_names: Seq<Seq<char>>,
}

impl View for Dataset {
    type V = DatasetView;

    closed spec fn view(&self) -> DatasetView {
        DatasetView {
            records: self.records@,
            targets: self.targets@,
            feature_names: self.feature_names.deep_view(),
        }
    }
}

impl Dataset {
    /// The feature matrix.
    pub fn records(&self) -> (r: &FeatureMatrix)
        ensures
            r@ == self@.records,
    {
        &self.records
    }

    /// The label vector.
    pub fn targets(&self) -> (r: &LabelVector)
        ensures
            r@ == self@.targets,
    {
        &self.targets
    }

    /// The names of the feature columns, in the order of the columns.
    pub fn feature_names(&self) -> (r: &Vec<String>)
        ensures
            r.deep_view() == self@.feature_names,
    {
        &self.feature_names
    }
}

/// What loading comes to, for a header and a table of parsed fields. The
/// last column is the target, the columns before it are the features.
///
/// A header of fewer than two columns is `NoFeatures`. Otherwise the first
/// row at fault, if there is one, gives the error, as `data_result` says.
/// Otherwise the shape must agree, as `shape_agrees` says, or the error is
/// `Shape`. Otherwise the dataset holds the feature values in one matrix row
/// for each data row and one column for each feature, the truncated target
/// of every row, and the header without its last name.
pub open spec fn dataset_result(
    headers: Seq<Seq<char>>,
    cells: Seq<Seq<Option<u32>>>,
    shape: Option<(usize, usize)>,
    result: Result<DatasetView, LoadError>,
) -> bool {
    let width = headers.len() as int;
    let target = width - 1;
    let rows = cells.len() as int;
    let data = numbers_of(cells);
    match result {
        Err(LoadError::NoFeatures) => width < 2,
        Err(LoadError::Shape) => {
            &&& width >= 2
            &&& rows_sound(cells, width, rows)
            &&& !shape_agrees(shape, rows, target)
        },
        Err(error) => width >= 2 && data_result(cells, width, Err(error)),
        Ok(dataset) => {
            &&& width >= 2
            &&& rows_sound(cells, width, rows)
            &&& shape_agrees(shape, rows, target)
            &&& dataset == (DatasetView {
                records: MatrixView {
                    rows: rows as nat,
                    cols: target as nat,
                    values: feature_values(data, target),
                },
                targets: label_values_of(data, target),
                feature_names: headers.take(target),
            })
        },
    }
}

/// A result of loading, with the dataset taken by what it holds.
pub open spec fn loaded_view(result: Result<Dataset, LoadError>) -> Result<DatasetView, LoadError> {
    match result {
        Ok(dataset) => Ok(dataset@),
        Err(error) => Err(error),
    }
}

/// The first `count` names of a header.
fn leading_names(headers: &Vec<String>, count: usize) -> (r: Vec<String>)
    requires
        count <= headers@.len(),
    ensures
        r.deep_view() == headers.deep_view().take(count as int),
{
    let mut names: Vec<String> = Vec::new();
    let mut i: usize = 0;
    while i < count
        invariant
            i <= count <= headers@.len(),
            names@.len() == i,
            forall|k: int| 0 <= k < i ==> (#[trigger] names@[k])@ == headers@[k]@,
        decreases count - i,
    {
        names.push(headers[i].clone());
        i += 1;
    }
    assert(names.deep_view() =~= headers.deep_view().take(count as int));
    names
}

/// Builds the dataset from the header of a table and its parsed fields. The
/// last column is the target. The matrix has one row for each data row and
/// one column for each feature; a `shape` (rows, then columns), where one is
/// given, is what the table is expected to have, and any other table fails.
/// Nothing is skipped or mended: the result is the whole dataset or the first
/// error, as `dataset_result` says.
pub fn get_dataset(
    headers: &Vec<String>,
    cells: &Vec<Vec<Option<u32>>>,
    shape: Option<(usize, usize)>,
) -> (r: Result<Dataset, LoadError>)
    ensures
        dataset_result(headers.deep_view(), cells.deep_view(), shape, loaded_view(r)),
{
    if headers.len() < 2 {
        return Err(LoadError::NoFeatures);
    }
    let data = match get_data(cells, headers.len()) {
        Ok(data) => data,
        Err(error) => return Err(error),
    };
    let target_index: usize = headers.len() - 1;
    let feature_names = leading_names(headers, target_index);
    let records = match get_records(&data, target_index, shape) {
        Ok(records) => records,
        Err(error) => return Err(error),
    };
    let targets = get_targets(&data, target_index);
    Ok(Dataset { records, targets, feature_names })
}

} // verus!
