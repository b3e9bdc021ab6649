//! The two containers of a dataset: the matrix of feature values and the
//! vector of labels. Both are `ndarray` arrays; what they hold is named by
//! the functions below, and every operation on them is stated over those
//! names.

use crate::error::LoadError;
use vstd::prelude::*;

verus! {

/// A two-dimensional array of feature values, one row per record and one
/// column per feature. Each value is the bit pattern of a single-precision
/// number.
///
/// The values are kept in an `ndarray::Array2`. The prover does not look
/// into it: what it holds is named by `matrix_shape` and `matrix_values`.
#[verifier::external_body]
#[derive(Debug)]
pub struct FeatureMatrix {
    inner: ndarray::Array2<u32>,
}

/// A one-dimensional array of integer labels, one per record.
///
/// The labels are kept in an `ndarray::Array1`. The prover does not look
/// into it: what it holds is named by `label_values`.
#[verifier::external_body]
#[derive(Debug)]
pub struct LabelVector {
    inner: ndarray::Array1<i32>,
}

/// `ndarray::ShapeError`, the error of a reshape that does not fit.
#[verifier::external_type_specification]
#[verifier::external_body]
pub struct ExShapeError(ndarray::ShapeError);

/// The numbers of rows and of columns of the array inside a matrix.
pub uninterp spec fn matrix_shape(matrix: FeatureMatrix) -> (nat, nat);

/// The elements of the array inside a matrix, row after row.
pub uninterp spec fn matrix_values(matrix: FeatureMatrix) -> Seq<u32>;

/// The elements of the array inside a label vector, in order.
pub uninterp spec fn label_values(labels: LabelVector) -> Seq<i32>;

/// What a matrix holds: its shape and its values, row after row.
pub struct MatrixView {
    pub rows: nat,
    pub cols: nat,
    pub values: Seq<u32>,
}

impl MatrixView {
    /// The values are as many as the shape has places.
    pub open spec fn wf(self) -> bool {
        self.values.len() == self.rows * self.cols
    }

    /// The value at `row` and `column`.
    pub open spec fn at(self, row: int, column: int) -> u32 {
        self.values[row * self.cols + column]
    }
}

impl View for FeatureMatrix {
    type V = MatrixView;

    open spec fn view(&self) -> MatrixView {
        MatrixView {
            rows: matrix_shape(*self).0,
            cols: matrix_shape(*self).1,
            values: matrix_values(*self),
        }
    }
}

impl View for LabelVector {
    type V = Seq<i32>;

    open spec fn view(&self) -> Seq<i32> {
        label_values(*self)
    }
}

/// The number of places that a shape of `rows` by `cols` spans when an empty
/// axis is counted as one place wide. An array can only be made where this
/// number is at most `isize::MAX`.
pub open spec fn shape_extent(rows: int, cols: int) -> int {
    (if rows == 0 { 1 } else { rows }) * (if cols == 0 { 1 } else { cols })
}

/// Whether `count` values fill a matrix of `rows` by `cols` exactly.
pub open spec fn fills_shape(count: nat, rows: usize, cols: usize) -> bool {
    shape_extent(rows as int, cols as int) <= isize::MAX && rows * cols == count
}

/// `ndarray::Array::from` on a vector, followed by `ArrayBase::into_shape`
/// with the shape `(rows, cols)`. The reshape succeeds exactly where the
/// shape is one that an array can have and its number of elements is the
/// length of the vector; the new array then has that shape and holds the
/// vector's elements row after row.
#[verifier::external_body]
fn array_into_shape(values: Vec<u32>, rows: usize, cols: usize) -> (r: Result<
    FeatureMatrix,
    ndarray::ShapeError,
>)
    ensures
        r is Ok <==> fills_shape(values@.len(), rows, cols),
        r matches Ok(matrix) ==> matrix_shape(matrix) == (rows as nat, cols as nat)
            && matrix_values(matrix) == values@,
{
    match ndarray::Array::from(values).into_shape((rows, cols)) {
        Ok(inner) => Ok(FeatureMatrix { inner }),
        Err(error) => Err(error),
    }
}

/// `ArrayBase::nrows`: the length of the first axis.
#[verifier::external_body]
fn array_nrows(matrix: &FeatureMatrix) -> (r: usize)
    ensures
        r == matrix_shape(*matrix).0,
{
    matrix.inner.nrows()
}

/// `ArrayBase::ncols`: the length of the second axis.
#[verifier::external_body]
fn array_ncols(matrix: &FeatureMatrix) -> (r: usize)
    ensures
        r == matrix_shape(*matrix).1,
{
    matrix.inner.ncols()
}

/// `ArrayBase::get` with a pair of indices: the element at that place, or
/// nothing where an index is not below the length of its axis.
#[verifier::external_body]
fn array_get(matrix: &FeatureMatrix, row: usize, column: usize) -> (r: Option<u32>)
    ensures
        r is Some <==> (row < matrix_shape(*matrix).0 && column < matrix_shape(*matrix).1),
        r matches Some(value) ==> value == matrix_values(*matrix)[row * matrix_shape(*matrix).1
            + column],
{
    matrix.inner.get((row, column)).copied()
}

/// `ndarray::Array::from` on a vector: a one-dimensional array of the same
/// elements in the same order.
#[verifier::external_body]
fn labels_from(values: Vec<i32>) -> (r: LabelVector)
    ensures
        label_values(r) == values@,
{
    LabelVector { inner: ndarray::Array::from(values) }
}

/// `ArrayBase::len`: the number of elements.
#[verifier::external_body]
fn labels_len(labels: &LabelVector) -> (r: usize)
    ensures
        r == label_values(*labels).len(),
{
    labels.inner.len()
}

/// `ArrayBase::get` with one index: the element at that place, or nothing
/// where the index is not below the length.
#[verifier::external_body]
fn labels_get(labels: &LabelVector, index: usize) -> (r: Option<i32>)
    ensures
        r is Some <==> index < label_values(*labels).len(),
        r matches Some(value) ==> value == label_values(*labels)[index as int],
{
    labels.inner.get(index).copied()
}

impl FeatureMatrix {
    /// Lays `values` out as a matrix of `rows` by `cols`, row after row.
    /// Fails with `LoadError::Shape`, and only then, where the values do not
    /// fill that shape exactly.
    pub fn from_values(values: Vec<u32>, rows: usize, cols: usize) -> (r: Result<
        FeatureMatrix,
        LoadError,
    >)
        ensures
            r is Ok <==> fills_shape(values@.len(), rows, cols),
            r matches Ok(matrix) ==> matrix@.wf() && matrix@ == (MatrixView {
                rows: rows as nat,
                cols: cols as nat,
                values: values@,
            }),
            r matches Err(error) ==> error == LoadError::Shape,
    {
        match array_into_shape(values, rows, cols) {
            Ok(matrix) => Ok(matrix),
            Err(_) => Err(LoadError::Shape),
        }
    }

    /// The number of rows.
    pub fn nrows(&self) -> (r: usize)
        ensures
            r == self@.rows,
    {
        array_nrows(self)
    }

    /// The number of columns.
    pub fn ncols(&self) -> (r: usize)
        ensures
            r == self@.cols,
    {
        array_ncols(self)
    }

    /// The value at `row` and `column`, or nothing where there is no such
    /// place.
    pub fn get(&self, row: usize, column: usize) -> (r: Option<u32>)
        ensures
            r is Some <==> row < self@.rows && column < self@.cols,
            r matches Some(value) ==> value == self@.at(row as int, column as int),
    {
        array_get(self, row, column)
    }
}

impl LabelVector {
    /// A label vector of the given labels, in their order.
    pub fn from_vec(values: Vec<i32>) -> (r: LabelVector)
        ensures
            r@ == values@,
    {
        labels_from(values)
    }

    /// The number of labels.
    pub fn len(&self) -> (r: usize)
        ensures
            r == self@.len(),
    {
        labels_len(self)
    }

    /// The label at `index`, or nothing where there is none.
    pub fn get(&self, index: usize) -> (r: Option<i32>)
        ensures
            r is Some <==> index < self@.len(),
            r matches Some(value) ==> value == self@[index as int],
    {
        labels_get(self, index)
    }
}

} // verus!
