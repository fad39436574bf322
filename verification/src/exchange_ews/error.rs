//! What can go wrong while reading from Exchange.

use vstd::prelude::*;

verus! {

/// An error of the Exchange source, with its message.
#[derive(Debug)]
pub enum EwsError {
    Transport(String),
    Malformed(String),
    OAuth(String),
    AutodiscoverFailed(String),
    AutodiscoverLoop,
}

/// The view of an [`EwsError`].
pub enum EwsErrorView {
    Transport(Seq<char>),
    Malformed(Seq<char>),
    OAuth(Seq<char>),
    AutodiscoverFailed(Seq<char>),
    AutodiscoverLoop,
}

impl View for EwsError {
    type V = EwsErrorView;

    open spec fn view(&self) -> EwsErrorView {
        match self {
            EwsError::Transport(m) => EwsErrorView::Transport(m@),
            EwsError::Malformed(m) => EwsErrorView::Malformed(m@),
            EwsError::OAuth(m) => EwsErrorView::OAuth(m@),
            EwsError::AutodiscoverFailed(m) => EwsErrorView::AutodiscoverFailed(m@),
            EwsError::AutodiscoverLoop => EwsErrorView::AutodiscoverLoop,
        }
    }
}

} // verus!
