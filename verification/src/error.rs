use vstd::prelude::*;

verus! {

/// The outside I/O error type, carried as it is.
#[verifier::external_type_specification]
#[verifier::external_body]
pub struct ExIoError(std::io::Error);

/// The errors of the toolkit.
#[derive(Debug)]
pub enum Error {
    ShapeMismatch { expected: Vec<usize>, found: Vec<usize> },
    TypeMismatch { expected: String, found: String },
    DeviceMismatch { expected: String, found: String },
    Io(std::io::Error),
    Other(String),
}

/// A result whose error is the toolkit's.
pub type Result<T> = std::result::Result<T, Error>;

} // verus!
