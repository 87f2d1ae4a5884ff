//! Handles of the connections that the broker works with.
//!
//! A handle pairs the integer that stands for a live connection with what
//! the broker knows of the peer. Two board handles are equal when they name
//! the same connection; two user handles are equal when they carry the same
//! user name, so that a second connection under one name takes the place of
//! the first.

use std::hash::Hash;
use std::hash::Hasher;
use vstd::prelude::*;
use vstd::std_specs::cmp::PartialEqSpecImpl;

verus! {

/// What a board tells of itself when it authenticates.
#[derive(Debug, PartialEq, Eq, Hash)]
pub struct BoardInfo {
    pub remote: String,
    pub software_version: String,
    pub hardware_version: String,
}

impl Clone for BoardInfo {
    fn clone(&self) -> (r: Self)
        ensures
            r == *self,
    {
        BoardInfo {
            remote: self.remote.clone(),
            software_version: self.software_version.clone(),
            hardware_version: self.hardware_version.clone(),
        }
    }
}

/// The handle of a board: its connection and its description.
#[derive(Debug)]
pub struct BoardStat {
    pub addr: u64,
    pub info: BoardInfo,
}

impl Clone for BoardStat {
    fn clone(&self) -> (r: Self)
        ensures
            r == *self,
    {
        BoardStat { addr: self.addr, info: self.info.clone() }
    }
}

impl PartialEq for BoardStat {
    /// Two board handles are equal when they are on the same connection.
    fn eq(&self, other: &Self) -> (r: bool) {
        self.addr == other.addr
    }
}

impl PartialEqSpecImpl for BoardStat {
    open spec fn obeys_eq_spec() -> bool {
        true
    }

    open spec fn eq_spec(&self, other: &Self) -> bool {
        self.addr == other.addr
    }
}

impl Eq for BoardStat {

}

impl Hash for BoardStat {
    /// Hashes the connection alone, as equality looks at nothing else.
    fn hash<H: Hasher>(&self, state: &mut H) {
        self.addr.hash(state);
    }
}

/// The handle of a user: the connection and the authenticated name.
#[derive(Debug)]
pub struct UserStat {
    pub addr: u64,
    pub user_name: String,
}

impl PartialEq for UserStat {
    /// Two user handles are equal when they carry the same name.
    fn eq(&self, other: &Self) -> (r: bool) {
        self.user_name == other.user_name
    }
}

impl PartialEqSpecImpl for UserStat {
    open spec fn obeys_eq_spec() -> bool {
        true
    }

    open spec fn eq_spec(&self, other: &Self) -> bool {
        self.user_name@ == other.user_name@
    }
}

impl Eq for UserStat {

}

impl Hash for UserStat {
    /// Hashes the name alone, as equality looks at nothing else.
    fn hash<H: Hasher>(&self, state: &mut H) {
        self.user_name.hash(state);
    }
}

} // verus!
