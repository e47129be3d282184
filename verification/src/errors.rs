//! The error taxonomy returned by every fallible operation.

use vstd::prelude::*;

verus! {

/// A typed failure of a lifecycle operation.
#[derive(Debug)]
pub enum Error {
    /// Caller-supplied data was structurally wrong before any kernel
    /// interaction took place: a path that cannot be carried to the kernel,
    /// or a key or value buffer whose length does not match the map's
    /// declared sizes.
    InvalidInput(String),
    /// The kernel (here: its model) rejected the operation: a failed open or
    /// load, a rejected map or program creation, a refused element operation,
    /// or a refused attachment.
    Internal(String),
}

/// Whether a result failed with [`Error::InvalidInput`].
pub open spec fn is_invalid_input<T>(r: Result<T, Error>) -> bool {
    r matches Err(e) && e is InvalidInput
}

/// Whether a result failed with [`Error::Internal`].
pub open spec fn is_internal<T>(r: Result<T, Error>) -> bool {
    r matches Err(e) && e is Internal
}

impl Error {
    /// Whether this error is the [`Error::InvalidInput`] kind.
    pub fn invalid_input(&self) -> (r: bool)
        ensures
            r == (self is InvalidInput),
    {
        match self {
            Error::InvalidInput(_) => true,
            Error::Internal(_) => false,
        }
    }

    /// Whether this error is the [`Error::Internal`] kind.
    pub fn internal(&self) -> (r: bool)
        ensures
            r == (self is Internal),
    {
        match self {
            Error::InvalidInput(_) => false,
            Error::Internal(_) => true,
        }
    }

    /// The descriptive text carried by the error.
    pub fn message(&self) -> (r: &str)
        ensures
            (self matches Error::InvalidInput(m) ==> r@ == m@),
            (self matches Error::Internal(m) ==> r@ == m@),
    {
        match self {
            Error::InvalidInput(m) => m.as_str(),
            Error::Internal(m) => m.as_str(),
        }
    }
}

} // verus!
