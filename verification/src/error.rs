//! The ways a load can fail.

use vstd::prelude::*;

verus! {

/// Why a load failed.  Each variant carries the name of the offending
/// container entry, so a caller can report which weight was at fault.
/// Either failure is fatal for the whole load: no partial parameter
/// set is ever returned.
#[derive(Debug, PartialEq, Eq)]
pub enum LoadError {
    /// The named tensor is absent from the container.
    NotFound(String),
    /// The named entry cannot be decoded: its byte length is not a
    /// multiple of the scalar width, or the decoded element count
    /// differs from the product of its declared shape.
    MalformedTensor(String),
}

impl LoadError {
    /// The name of the container entry the error is about.
    pub open spec fn spec_name(self) -> Seq<char> {
        match self {
            LoadError::NotFound(n) => n@,
            LoadError::MalformedTensor(n) => n@,
        }
    }

    /// The name of the container entry the error is about.
    pub fn name(&self) -> (r: &str)
        ensures
            r@ == self.spec_name(),
    {
        match self {
            LoadError::NotFound(n) => n.as_str(),
            LoadError::MalformedTensor(n) => n.as_str(),
        }
    }
}

} // verus!
