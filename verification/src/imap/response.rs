//! What an IMAP server says.

use vstd::prelude::*;

use crate::text;

verus! {

/// How a command, or a session, stands.
#[derive(Debug, Clone, Copy, PartialEq, Eq, Structural)]
pub enum Status {
    Done,
    No,
    Bad,
    Bye,
    PreAuth,
}

/// A line with a status: what it says, and the code in brackets with its
/// arguments, where there is one.
#[derive(Debug)]
pub struct StatusLine {
    pub status: Status,
    pub text: String,
    pub code: Option<String>,
    pub code_args: Option<String>,
}

/// The view of a [`StatusLine`].
pub struct LineView {
    pub status: Status,
    pub text: Seq<char>,
    pub code: Option<Seq<char>>,
    pub code_args: Option<Seq<char>>,
}

impl View for StatusLine {
    type V = LineView;

    open spec fn view(&self) -> LineView {
        LineView {
            status: self.status,
            text: self.text@,
            code: text::opt_text(self.code),
            code_args: text::opt_text(self.code_args),
        }
    }
}

/// A response that answers no command in particular.
#[derive(Debug)]
pub enum Untagged {
    StatusLine(StatusLine),
    Bye(String),
    Capability(Vec<String>),
    Enabled(Vec<String>),
    Other(String),
}

/// The view of an [`Untagged`] response.
pub enum UntaggedView {
    StatusLine(LineView),
    Bye(Seq<char>),
    Capability(Seq<Seq<char>>),
    Enabled(Seq<Seq<char>>),
    Other(Seq<char>),
}

impl View for Untagged {
    type V = UntaggedView;

    open spec fn view(&self) -> UntaggedView {
        match self {
            Untagged::StatusLine(l) => UntaggedView::StatusLine(l@),
            Untagged::Bye(t) => UntaggedView::Bye(t@),
            Untagged::Capability(v) => UntaggedView::Capability(text::texts(v@)),
            Untagged::Enabled(v) => UntaggedView::Enabled(text::texts(v@)),
            Untagged::Other(t) => UntaggedView::Other(t@),
        }
    }
}

/// A response of the server.
#[derive(Debug)]
pub enum Response {
    Tagged { tag: String, line: StatusLine },
    Untagged(Untagged),
    Continuation(String),
}

/// The view of a [`Response`].
pub enum ResponseView {
    Tagged { tag: Seq<char>, line: LineView },
    Untagged(UntaggedView),
    Continuation(Seq<char>),
}

impl View for Response {
    type V = ResponseView;

    open spec fn view(&self) -> ResponseView {
        match self {
            Response::Tagged { tag, line } => ResponseView::Tagged { tag: tag@, line: line@ },
            Response::Untagged(u) => ResponseView::Untagged(u@),
            Response::Continuation(t) => ResponseView::Continuation(t@),
        }
    }
}

} // verus!
