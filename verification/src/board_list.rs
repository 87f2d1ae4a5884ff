//! The list of boards that the broker hands to an administrator.

use crate::handles::BoardInfo;
use vstd::prelude::*;

verus! {

/// One board of the list, with the name of the user that it is bound to.
#[derive(Debug, PartialEq, Eq, Hash)]
pub struct BoardInfo2 {
    pub board: BoardInfo,
    pub connected_user: Option<String>,
}

/// The boards that the broker knows at one moment, bound and idle.
#[derive(Debug, PartialEq, Eq)]
pub struct BoardInfoList(pub Vec<BoardInfo2>);

/// How many of the first `n` entries are bound to a user.
pub open spec fn assigned_among(list: Seq<BoardInfo2>, n: int) -> int
    decreases n,
{
    if n <= 0 {
        0
    } else if list[n - 1].connected_user.is_some() {
        assigned_among(list, n - 1) + 1
    } else {
        assigned_among(list, n - 1)
    }
}

impl BoardInfoList {
    /// The number of boards.
    pub fn board_count(&self) -> (n: usize)
        ensures
            n == self.0@.len(),
    {
        self.0.len()
    }

    /// The number of boards that are bound to a user.
    pub fn assigned_board_count(&self) -> (n: usize)
        ensures
            n == assigned_among(self.0@, self.0@.len() as int),
    {
        let mut n: usize = 0;
        let mut i: usize = 0;
        while i < self.0.len()
            invariant
                i <= self.0@.len(),
                n == assigned_among(self.0@, i as int),
                n <= i,
            decreases self.0@.len() - i,
        {
            if self.0[i].connected_user.is_some() {
                n = n + 1;
            }
            i = i + 1;
        }
        n
    }
}

} // verus!
