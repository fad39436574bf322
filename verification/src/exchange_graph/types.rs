//! What is common to all of Graph.

use vstd::prelude::*;

verus! {

/// Which of a user's two mailboxes is meant.
#[derive(Debug, Clone, Copy, PartialEq, Eq, Structural)]
pub enum MailboxKind {
    Primary,
    Archive,
}

} // verus!
