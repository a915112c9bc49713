//! What things are called.
//!
//! Names are minted elsewhere and only carried and compared here, apart from
//! tabs and toasts, which belong to this screen.

use vstd::prelude::*;

verus! {

/// A connection.
#[derive(Debug, Clone, Copy, PartialEq, Eq, Structural, Hash, PartialOrd, Ord)]
pub struct ConnId(pub u64);

/// A run of a statement.
#[derive(Debug, Clone, Copy, PartialEq, Eq, Structural, Hash, PartialOrd, Ord)]
pub struct QueryId(pub u64);

/// A piece of work that can be stopped.
#[derive(Debug, Clone, Copy, PartialEq, Eq, Structural, Hash, PartialOrd, Ord)]
pub struct BusyId(pub u64);

/// A saved statement.
#[derive(Debug, Clone, Copy, PartialEq, Eq, Structural, Hash, PartialOrd, Ord)]
pub struct TemplateId(pub u64);

/// A run that the history remembers.
#[derive(Debug, Clone, Copy, PartialEq, Eq, Structural, Hash, PartialOrd, Ord)]
pub struct RunId(pub u64);

/// One set of rows, or one definition, as the store published it. A snapshot
/// that carries the same rows carries the same number.
#[derive(Debug, Clone, Copy, PartialEq, Eq, Structural, Hash, PartialOrd, Ord)]
pub struct Edition(pub u64);

/// A tab of this screen.
#[derive(Debug, Clone, Copy, PartialEq, Eq, Structural, Hash, PartialOrd, Ord)]
pub struct TabId(pub u32);

impl TabId {
    pub fn new(n: u32) -> (r: Self)
        ensures
            r == TabId(n),
    {
        TabId(n)
    }

    pub fn get(self) -> (n: u32)
        ensures
            n == self.0,
    {
        self.0
    }
}

} // verus!
