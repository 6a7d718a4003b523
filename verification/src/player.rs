//! The record type: a player, immutable once created, addressed by the
//! cursor it was assigned at insertion time.

use vstd::prelude::*;
use crate::cursor::{cursor_to_id, dec_digits};

verus! {

/// A record of the store. `cursor` is the zero-based insertion position the
/// store assigned to it; `name` is unique across the store.
#[derive(Debug, PartialEq, Eq)]
pub struct Player {
    pub cursor: usize,
    pub name: String,
}

impl Player {
    /// The record's externally visible id: the decimal encoding of its
    /// cursor. Callers treat it as opaque and echo it back verbatim to
    /// resume a subscription.
    pub fn id(&self) -> (r: String)
        ensures
            r@ == dec_digits(self.cursor as nat),
    {
        cursor_to_id(self.cursor)
    }
}

impl Clone for Player {
    fn clone(&self) -> (res: Self)
        ensures
            res == *self,
    {
        Player { cursor: self.cursor, name: self.name.clone() }
    }
}

/// Errors the service surfaces to its caller. A point lookup that misses is
/// an absent result, not an error, so it has no variant here.
#[derive(Debug, Clone, Copy, PartialEq, Eq, Structural)]
pub enum ServiceError {
    /// Record creation rejected: another record already has the same name.
    DuplicateName,
    /// A subscription's resume cursor did not parse as a non-negative integer.
    InvalidCursor,
}

} // verus!
