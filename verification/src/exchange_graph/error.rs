//! What can go wrong while reading from Microsoft Graph.

use vstd::prelude::*;

verus! {

/// An error of the Graph source, with its message.
#[derive(Debug)]
pub enum GraphError {
    Malformed(String),
    OAuth(String),
}

/// The view of a [`GraphError`].
pub enum GraphErrorView {
    Malformed(Seq<char>),
    OAuth(Seq<char>),
}

impl View for GraphError {
    type V = GraphErrorView;

    open spec fn view(&self) -> GraphErrorView {
        match self {
            GraphError::Malformed(m) => GraphErrorView::Malformed(m@),
            GraphError::OAuth(m) => GraphErrorView::OAuth(m@),
        }
    }
}

/// A `Malformed` error with a fixed message.
pub fn malformed(message: &str) -> (r: GraphError)
    ensures
        r@ == GraphErrorView::Malformed(message@),
{
    GraphError::Malformed(message.to_owned())
}

/// An `OAuth` error with a fixed message.
pub fn oauth(message: &str) -> (r: GraphError)
    ensures
        r@ == GraphErrorView::OAuth(message@),
{
    GraphError::OAuth(message.to_owned())
}

} // verus!
