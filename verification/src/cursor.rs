//! The position of a paged read.

use vstd::prelude::*;

verus! {

/// Where a paged read stands: before the first page, after a page that
/// named its successor, or past the last page.
pub enum ServiceCursor<T> {
    Initial,
    Next(T),
    End,
}

impl<T> ServiceCursor<T> {
    /// The token to send with the next request, if the service gave one.
    pub open spec fn request_cursor(self) -> Option<T> {
        match self {
            ServiceCursor::Initial => None,
            ServiceCursor::Next(t) => Some(t),
            ServiceCursor::End => None,
        }
    }

    /// The token to send with the next request: the one held by `Next`,
    /// and none at either end.
    pub fn as_request_cursor_ref(&self) -> (token: Option<&T>)
        ensures
            token.is_some() == self.request_cursor().is_some(),
            token matches Some(t) ==> *t == self.request_cursor().unwrap(),
            token == match *self {
                ServiceCursor::Next(t) => Some(&t),
                _ => None,
            },
    {
        match self {
            ServiceCursor::Initial => None,
            ServiceCursor::Next(t) => Some(t),
            ServiceCursor::End => None,
        }
    }
}

} // verus!
