//! What can go wrong in an IMAP session.

use vstd::prelude::*;

use crate::text;

verus! {

/// A refusal: what the server says, and its code.
#[derive(Debug)]
pub struct NoError {
    pub text: String,
    pub code: Option<String>,
}

/// The view of a [`NoError`].
pub struct NoView {
    pub text: Seq<char>,
    pub code: Option<Seq<char>>,
}

impl View for NoError {
    type V = NoView;

    open spec fn view(&self) -> NoView {
        NoView { text: self.text@, code: text::opt_text(self.code) }
    }
}

impl NoView {
    /// Whether the credentials were turned down.
    pub open spec fn auth_failed(self) -> bool {
        self.code matches Some(c) && text::small_text(c) == text::small_text("AUTHENTICATIONFAILED"@)
    }
}

impl NoError {
    /// A refusal.
    pub fn new(text: String, code: Option<String>) -> (r: NoError)
        ensures
            r.text == text,
            r.code == code,
    {
        NoError { text, code }
    }

    /// Whether the credentials were turned down.
    pub fn is_auth_failed(&self) -> (r: bool)
        ensures
            r == self@.auth_failed(),
    {
        match &self.code {
            Some(c) => text::same_ignoring_case(c.as_str(), "AUTHENTICATIONFAILED"),
            None => false,
        }
    }
}

/// An error of an IMAP session.
#[derive(Debug)]
pub enum ImapError {
    No(NoError),
    Bad(String),
    Bye(String),
    Protocol(String),
    Unsupported(String),
    AuthFailed(String),
}

/// The view of an [`ImapError`].
pub enum ImapErrorView {
    No(NoView),
    Bad(Seq<char>),
    Bye(Seq<char>),
    Protocol(Seq<char>),
    Unsupported(Seq<char>),
    AuthFailed(Seq<char>),
}

impl View for ImapError {
    type V = ImapErrorView;

    open spec fn view(&self) -> ImapErrorView {
        match self {
            ImapError::No(n) => ImapErrorView::No(n@),
            ImapError::Bad(t) => ImapErrorView::Bad(t@),
            ImapError::Bye(t) => ImapErrorView::Bye(t@),
            ImapError::Protocol(t) => ImapErrorView::Protocol(t@),
            ImapError::Unsupported(t) => ImapErrorView::Unsupported(t@),
            ImapError::AuthFailed(t) => ImapErrorView::AuthFailed(t@),
        }
    }
}

} // verus!
