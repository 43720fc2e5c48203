//! The errors that an operation can end with.

use vstd::prelude::*;

verus! {

/// Why an operation was refused.
#[derive(Clone, Copy, Debug, PartialEq, Eq, Structural)]
pub enum ErrorKind {
    /// A referenced organization, proposal or comment does not exist.
    NotFound,
    /// The caller is not the owner or a listed member of the organization.
    NotAMember,
    /// The caller is not the owner or author of the entity.
    PermissionError,
    /// The caller has already voted on the proposal, or liked the comment.
    HasVoted,
    /// The caller owns the proposal.
    CantVoteYours,
    /// The caller wrote the comment.
    CantLikeYours,
    /// The voting window has closed.
    DeadlineExceeded,
    /// The voting window is still open.
    DeadlineNotExceeded,
}

/// A refused operation: its kind and a message for people.
#[derive(Debug)]
pub struct Error {
    pub kind: ErrorKind,
    pub msg: String,
}

/// Relies on `std::format!` to write a message naming an entity id; nothing
/// is claimed about the text.
#[verifier::external_body]
fn describe(text: &str, id: u64) -> String {
    format!("{} (id={})", text, id)
}

impl Error {
    pub fn new(kind: ErrorKind, text: &str, id: u64) -> (r: Error)
        ensures
            r.kind == kind,
    {
        Error { kind, msg: describe(text, id) }
    }

    pub fn kind(&self) -> (r: ErrorKind)
        ensures
            r == self.kind,
    {
        self.kind
    }

    pub fn message(&self) -> (r: &str)
        ensures
            r@ == self.msg@,
    {
        self.msg.as_str()
    }
}

/// `r` is an error of kind `k`.
pub open spec fn fails_with<T>(r: Result<T, Error>, k: ErrorKind) -> bool {
    r matches Err(e) && e.kind == k
}

} // verus!
