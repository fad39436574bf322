//! What ends a run.

use vstd::prelude::*;

verus! {

/// Why a run, or a part of it, ended early.
#[derive(Debug)]
pub enum Error {
    Usage(String),
    Connection(String),
    Account(String),
    SourceChange(String),
    Partial(String),
    PruneAborted,
}

/// The view of an [`Error`].
pub enum ErrorView {
    Usage(Seq<char>),
    Connection(Seq<char>),
    Account(Seq<char>),
    SourceChange(Seq<char>),
    Partial(Seq<char>),
    PruneAborted,
}

impl View for Error {
    type V = ErrorView;

    open spec fn view(&self) -> ErrorView {
        match self {
            Error::Usage(m) => ErrorView::Usage(m@),
            Error::Connection(m) => ErrorView::Connection(m@),
            Error::Account(m) => ErrorView::Account(m@),
            Error::SourceChange(m) => ErrorView::SourceChange(m@),
            Error::Partial(m) => ErrorView::Partial(m@),
            Error::PruneAborted => ErrorView::PruneAborted,
        }
    }
}

/// The exit code of a program that such an error ends, where one is fixed.
pub open spec fn code_of(e: ErrorView) -> Option<i32> {
    match e {
        ErrorView::Account(_) => Some(3),
        ErrorView::Partial(_) => Some(5),
        _ => None,
    }
}

impl Error {
    /// See [`code_of`].
    pub fn exit_code(&self) -> (r: Option<i32>)
        ensures
            r == code_of(self@),
    {
        match self {
            Error::Account(_) => Some(3),
            Error::Partial(_) => Some(5),
            _ => None,
        }
    }
}

} // verus!
