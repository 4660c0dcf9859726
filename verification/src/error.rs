//! What can go wrong, as values a caller can tell apart.

use vstd::prelude::*;

use crate::ident::Urn;
use crate::reference::Reference;
use crate::reference::ReferenceView;

verus! {

/// A failure of the storage below, handed on as it came.
#[derive(Clone, Debug, PartialEq, Eq)]
pub enum StorageError {
    /// A document with this identifier is stored already.
    AlreadyExists(Urn),
    /// Any other fault, with the storage's own words.
    Fault(String),
}

/// What a storage failure says.
pub enum StorageErrorView {
    AlreadyExists(Seq<char>),
    Fault(Seq<char>),
}

impl View for StorageError {
    type V = StorageErrorView;

    open spec fn view(&self) -> StorageErrorView {
        match *self {
            StorageError::AlreadyExists(urn) => StorageErrorView::AlreadyExists(urn@),
            StorageError::Fault(message) => StorageErrorView::Fault(message@),
        }
    }
}

/// A failure of an operation of this library.
#[derive(Clone, Debug, PartialEq, Eq)]
pub enum Error {
    /// A reference that had to be there is not.
    MissingRef { reference: Reference },
    /// The project declares no default branch, or nobody who is asked has it.
    NoDefaultBranch { name: String, urn: Urn },
    /// The storage failed.
    Storage(StorageError),
    /// A peer's self reference exists, yet no identity stands behind it.
    ContractViolation { reference: Reference },
    /// The transport left warnings behind: the operation did not complete.
    Transport { warnings: Vec<String> },
    /// A text that had to name a reference is not a reference name.
    InvalidName { name: String },
}

/// What a failure says.
pub enum ErrorView {
    MissingRef { reference: ReferenceView },
    NoDefaultBranch { name: Seq<char>, urn: Seq<char> },
    Storage(StorageErrorView),
    ContractViolation { reference: ReferenceView },
    Transport { warnings: Seq<Seq<char>> },
    InvalidName { name: Seq<char> },
}

/// The views of a sequence of texts.
pub open spec fn text_views(texts: Seq<String>) -> Seq<Seq<char>> {
    Seq::new(texts.len(), |i: int| texts[i]@)
}

impl View for Error {
    type V = ErrorView;

    open spec fn view(&self) -> ErrorView {
        match *self {
            Error::MissingRef { reference } => ErrorView::MissingRef { reference: reference@ },
            Error::NoDefaultBranch { name, urn } => ErrorView::NoDefaultBranch {
                name: name@,
                urn: urn@,
            },
            Error::Storage(error) => ErrorView::Storage(error@),
            Error::ContractViolation { reference } => ErrorView::ContractViolation {
                reference: reference@,
            },
            Error::Transport { warnings } => ErrorView::Transport {
                warnings: text_views(warnings@),
            },
            Error::InvalidName { name } => ErrorView::InvalidName { name: name@ },
        }
    }
}

impl ErrorView {
    /// Whether the failure says no more than that a reference is not there.
    pub open spec fn is_missing_ref(self) -> bool {
        self is MissingRef
    }
}

impl vstd::std_specs::convert::FromSpecImpl<StorageError> for Error {
    open spec fn obeys_from_spec() -> bool {
        true
    }

    open spec fn from_spec(error: StorageError) -> Error {
        Error::Storage(error)
    }
}

impl From<StorageError> for Error {
    /// A failure of the storage, handed on as it came.
    fn from(error: StorageError) -> (wrapped: Error) {
        Error::Storage(error)
    }
}

/// What the storage returned, with its failure, if any, handed on as it came.
pub fn stored<T>(outcome: Result<T, StorageError>) -> (handed: Result<T, Error>)
    ensures
        handed == match outcome {
            Ok(value) => Ok::<T, Error>(value),
            Err(error) => Err(Error::Storage(error)),
        },
{
    match outcome {
        Ok(value) => Ok(value),
        Err(error) => Err(Error::from(error)),
    }
}

impl Error {
    /// Whether the failure says no more than that a reference is not there.
    pub fn is_missing_ref(&self) -> (missing: bool)
        ensures
            missing == self@.is_missing_ref(),
    {
        match self {
            Error::MissingRef { .. } => true,
            _ => false,
        }
    }
}

} // verus!
