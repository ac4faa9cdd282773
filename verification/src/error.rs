//! What can go wrong.

use vstd::prelude::*;

verus! {

/// The ways in which looking at, entering or leaving a namespace fails.
#[derive(Debug, PartialEq, Eq)]
pub enum Error {
    /// The status record names no thread group: the process is gone, or the
    /// record is not what it should be.
    NotFound,
    /// The file at `path` could not be examined, opened, read or made the
    /// working directory.
    Io { path: Vec<u8> },
    /// The system refused to move the thread into the target's namespace.
    Os { errno: i32 },
    /// The system refused to move the thread back into its own namespace.
    /// The thread must do no more work on files.
    FatalRestore,
}

/// An [`Error`] as contracts see it: paths are sequences of bytes.
pub enum ErrorView {
    NotFound,
    Io { path: Seq<u8> },
    Os { errno: i32 },
    FatalRestore,
}

impl View for Error {
    type V = ErrorView;

    open spec fn view(&self) -> ErrorView {
        match *self {
            Error::NotFound => ErrorView::NotFound,
            Error::Io { path } => ErrorView::Io { path: path@ },
            Error::Os { errno } => ErrorView::Os { errno },
            Error::FatalRestore => ErrorView::FatalRestore,
        }
    }
}

impl Error {
    /// Whether the caller may go on after this error. Only a failed return
    /// to the caller's own namespace is final.
    pub fn is_recoverable(&self) -> (r: bool)
        ensures
            r == !(self@ is FatalRestore),
    {
        match self {
            Error::FatalRestore => false,
            _ => true,
        }
    }
}

} // verus!
