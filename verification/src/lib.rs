//! A loader that turns a delimited text table into a dataset for a learning
//! model: a matrix of feature values, a vector of integer labels, and the
//! names of the feature columns.
//!
//! Loading has two steps. `read_table` splits the bytes of the text into a
//! header and rows of text fields. `get_dataset` takes the header and the
//! fields after they were parsed as numbers, and builds the dataset: one
//! matrix row for each data row, one column for each feature, one label for
//! each row.
//!
//! Numbers are carried as the bit patterns of single-precision values, so
//! that every step of the conversion is stated and proved over integers.

pub mod arrays;
pub mod data;
pub mod dataset;
pub mod error;
pub mod laws;
pub mod number;
pub mod source;
pub mod table;

pub use arrays::FeatureMatrix;
pub use arrays::LabelVector;
pub use dataset::get_dataset;
pub use dataset::Dataset;
pub use error::LoadError;
pub use source::TableReader;
pub use table::read_table;
pub use table::RawTable;
