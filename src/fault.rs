//! The ways a request can fail, with their severity and outward reason.

use vstd::prelude::*;

verus! {

/// Why a read or a write was refused.
#[derive(Clone, Copy, Debug, PartialEq, Eq, Structural)]
pub enum Fault {
    /// The request body is not UTF-8 text.
    UnreadableBody,
    /// The request body did not decode.
    MalformedRequest,
    /// A comment field failed validation.
    InvalidField,
    /// The `Origin` header was missing, unreadable or not a tenant.
    BadOrigin,
    /// The submitted URL lies outside every tenant domain.
    OutOfScope,
    /// The target page could not be read or lacks the content marker.
    InvalidUrl,
    /// The page's content identifier differs from the submitted one.
    ContentMismatch,
    /// The parent is missing or is itself a reply.
    InvalidParent,
    /// The sanitizer failed.
    SanitizeFailed,
    /// Fetching the target page failed.
    FetchFailed,
    /// The tenant's store could not be taken.
    StoreUnavailable,
    /// Reading comments from the store failed.
    ReadFailed,
    /// Writing a comment to the store failed.
    WriteFailed,
}

impl Fault {
    pub open spec fn spec_is_client(self) -> bool {
        !(self is SanitizeFailed || self is FetchFailed || self is StoreUnavailable || self is ReadFailed
            || self is WriteFailed)
    }

    pub open spec fn spec_reason(self) -> Seq<char> {
        match self {
            Fault::UnreadableBody => "failed to parse request body"@,
            Fault::MalformedRequest => "invalid request body"@,
            Fault::InvalidField => "invalid comment field(s)"@,
            Fault::BadOrigin => "bad origin"@,
            Fault::OutOfScope => "url out of scope"@,
            Fault::InvalidUrl => "url invalid"@,
            Fault::ContentMismatch => "content ids don't match"@,
            Fault::InvalidParent => "invalid comment parent"@,
            Fault::SanitizeFailed => "failed to sanitize request"@,
            Fault::FetchFailed => "failed to get page data"@,
            Fault::StoreUnavailable => "database error"@,
            Fault::ReadFailed => "failed to get comments"@,
            Fault::WriteFailed => "failed to create comment"@,
        }
    }

    /// Whether the client caused the fault (a rejection rather than an
    /// internal failure).
    pub fn is_client(&self) -> (r: bool)
        ensures
            r == self.spec_is_client(),
    {
        match self {
            Fault::SanitizeFailed
            | Fault::FetchFailed
            | Fault::StoreUnavailable
            | Fault::ReadFailed
            | Fault::WriteFailed => false,
            _ => true,
        }
    }

    /// The short machine-oriented reason reported to the caller.
    pub fn reason(&self) -> (r: &'static str)
        ensures
            r@ == self.spec_reason(),
    {
        match self {
            Fault::UnreadableBody => "failed to parse request body",
            Fault::MalformedRequest => "invalid request body",
            Fault::InvalidField => "invalid comment field(s)",
            Fault::BadOrigin => "bad origin",
            Fault::OutOfScope => "url out of scope",
            Fault::InvalidUrl => "url invalid",
            Fault::ContentMismatch => "content ids don't match",
            Fault::InvalidParent => "invalid comment parent",
            Fault::SanitizeFailed => "failed to sanitize request",
            Fault::FetchFailed => "failed to get page data",
            Fault::StoreUnavailable => "database error",
            Fault::ReadFailed => "failed to get comments",
            Fault::WriteFailed => "failed to create comment",
        }
    }
}

} // verus!
