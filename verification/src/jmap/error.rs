//! What can go wrong while talking HTTP to a server.

use vstd::prelude::*;

verus! {

/// An error of an exchange with a server.
#[derive(Debug)]
pub enum JmapError {
    Transport(String),
    Connect(String),
    Auth(String),
    HttpStatus { status: u16, body: String },
    RetriesExhausted(String),
    Malformed(String),
    RequestTooLarge,
    SingleObjectTooLarge(String),
    UnknownMethod,
}

/// The view of a [`JmapError`].
pub enum JmapErrorView {
    Transport(Seq<char>),
    Connect(Seq<char>),
    Auth(Seq<char>),
    HttpStatus { status: u16, body: Seq<char> },
    RetriesExhausted(Seq<char>),
    Malformed(Seq<char>),
    RequestTooLarge,
    SingleObjectTooLarge(Seq<char>),
    UnknownMethod,
}

impl View for JmapError {
    type V = JmapErrorView;

    open spec fn view(&self) -> JmapErrorView {
        match self {
            JmapError::Transport(m) => JmapErrorView::Transport(m@),
            JmapError::Connect(m) => JmapErrorView::Connect(m@),
            JmapError::Auth(m) => JmapErrorView::Auth(m@),
            JmapError::HttpStatus { status, body } => JmapErrorView::HttpStatus {
                status: *status,
                body: body@,
            },
            JmapError::RetriesExhausted(m) => JmapErrorView::RetriesExhausted(m@),
            JmapError::Malformed(m) => JmapErrorView::Malformed(m@),
            JmapError::RequestTooLarge => JmapErrorView::RequestTooLarge,
            JmapError::SingleObjectTooLarge(m) => JmapErrorView::SingleObjectTooLarge(m@),
            JmapError::UnknownMethod => JmapErrorView::UnknownMethod,
        }
    }
}

} // verus!
