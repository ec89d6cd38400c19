//! What can go wrong in an export.
use vstd::prelude::*;

verus! {

/// An error that ends an export, with what the failing part said of it.
#[derive(Debug, Clone, PartialEq, Eq)]
pub enum RuntimeError {
    /// The options contradict what was found.
    InvalidOptions(String),
    /// The message database could not be read.
    DatabaseError(String),
    /// The device backup could not be read.
    BackupError(String),
    /// A file could not be read or written.
    DiskError(String),
    /// A path has no usable file name.
    FileNameError,
}

/// An error that ends an export.
pub ghost enum RuntimeErrorView {
    InvalidOptions(Seq<char>),
    DatabaseError(Seq<char>),
    BackupError(Seq<char>),
    DiskError(Seq<char>),
    FileNameError,
}

impl View for RuntimeError {
    type V = RuntimeErrorView;

    open spec fn view(&self) -> RuntimeErrorView {
        match self {
            RuntimeError::InvalidOptions(why) => RuntimeErrorView::InvalidOptions(why@),
            RuntimeError::DatabaseError(why) => RuntimeErrorView::DatabaseError(why@),
            RuntimeError::BackupError(why) => RuntimeErrorView::BackupError(why@),
            RuntimeError::DiskError(why) => RuntimeErrorView::DiskError(why@),
            RuntimeError::FileNameError => RuntimeErrorView::FileNameError,
        }
    }
}

} // verus!
