//! The bijective map that holds the bindings between users and boards.
//!
//! The map is `bimap::BiMap`. Verus does not look inside it: what it holds is
//! given a name here, and each of its methods that the broker calls is reached
//! through a function whose contract says what the method does to that
//! content. None of these contracts is proved.

use crate::handles::BoardStat;
use crate::handles::UserStat;
use bimap::BiHashMap;
use bimap::BiMap;
use std::hash::Hash;
use std::hash::Hasher;
use vstd::prelude::*;

verus! {

/// `bimap::BiHashMap`, the type behind `BiMap`. Verus takes a value of it as
/// opaque.
#[verifier::external_type_specification]
#[verifier::external_body]
#[verifier::reject_recursive_types(L)]
#[verifier::reject_recursive_types(R)]
#[verifier::reject_recursive_types(LS)]
#[verifier::reject_recursive_types(RS)]
pub struct ExBiHashMap<L, R, LS, RS>(BiHashMap<L, R, LS, RS>);

/// `Hash::hash` of `String` feeds the string to the hasher. Nothing is
/// claimed of the hasher's state.
pub assume_specification<H>[ <String as Hash>::hash ](s: &String, state: &mut H) where H: Hasher;

/// `Hash::hash` of `u64` feeds the integer to the hasher. Nothing is claimed
/// of the hasher's state.
pub assume_specification<H>[ <u64 as Hash>::hash ](s: &u64, state: &mut H) where H: Hasher;

/// The pairs that a map holds, each under the name of its user.
pub uninterp spec fn bound_pairs(m: BiMap<UserStat, BoardStat>) -> Map<Seq<char>, (UserStat, BoardStat)>;

/// The pairs of `pairs` whose board is not on the connection `addr`.
pub open spec fn without_board(
    pairs: Map<Seq<char>, (UserStat, BoardStat)>,
    addr: u64,
) -> Map<Seq<char>, (UserStat, BoardStat)> {
    pairs.restrict(Set::new(|name: Seq<char>| pairs.dom().contains(name) && pairs[name].1.addr != addr))
}

/// The content of a map that holds no pair.
pub open spec fn no_pairs() -> Map<Seq<char>, (UserStat, BoardStat)> {
    Map::empty()
}

/// `BiMap::new`: a map that holds no pair.
#[verifier::external_body]
pub(crate) fn empty_map() -> (m: BiMap<UserStat, BoardStat>)
    ensures
        bound_pairs(m) == no_pairs(),
{
    BiMap::new()
}

/// `BiMap::get_by_left`: the board of the pair whose user has the name of
/// `user`, if the map holds such a pair.
#[verifier::external_body]
pub(crate) fn board_of<'a>(m: &'a BiMap<UserStat, BoardStat>, user: &UserStat) -> (r: Option<&'a BoardStat>)
    ensures
        match r {
            Some(board) => bound_pairs(*m).dom().contains(user.user_name@)
                && bound_pairs(*m)[user.user_name@].1 == *board,
            None => !bound_pairs(*m).dom().contains(user.user_name@),
        },
{
    m.get_by_left(user)
}

/// `BiMap::get_by_right`: the user of the pair whose board is on the
/// connection of `board`, if the map holds such a pair.
#[verifier::external_body]
pub(crate) fn user_of<'a>(m: &'a BiMap<UserStat, BoardStat>, board: &BoardStat) -> (r: Option<&'a UserStat>)
    ensures
        match r {
            Some(user) => bound_pairs(*m).dom().contains(user.user_name@)
                && bound_pairs(*m)[user.user_name@].0 == *user
                && bound_pairs(*m)[user.user_name@].1.addr == board.addr,
            None => forall|name: Seq<char>|
                bound_pairs(*m).dom().contains(name) ==> (#[trigger] bound_pairs(*m)[name]).1.addr
                    != board.addr,
        },
{
    m.get_by_right(board)
}

/// `BiMap::remove_by_right`: takes out the pair whose board is on the
/// connection of `board` and returns it; without such a pair the map stays
/// as it is.
#[verifier::external_body]
pub(crate) fn remove_board(m: &mut BiMap<UserStat, BoardStat>, board: &BoardStat) -> (r: Option<(UserStat, BoardStat)>)
    ensures
        match r {
            Some(pair) => bound_pairs(*old(m)).dom().contains(pair.0.user_name@)
                && bound_pairs(*old(m))[pair.0.user_name@] == pair
                && pair.1.addr == board.addr
                && bound_pairs(*final(m)) == bound_pairs(*old(m)).remove(pair.0.user_name@),
            None => bound_pairs(*final(m)) == bound_pairs(*old(m))
                && forall|name: Seq<char>|
                    bound_pairs(*old(m)).dom().contains(name) ==> (#[trigger] bound_pairs(*old(m))[name]).1.addr
                        != board.addr,
        },
{
    m.remove_by_right(board)
}

/// `BiMap::insert`: takes out the pair of the user's name and the pair of
/// the board's connection, where there are such, and puts in the new pair.
#[verifier::external_body]
pub(crate) fn bind(m: &mut BiMap<UserStat, BoardStat>, user: UserStat, board: BoardStat)
    ensures
        bound_pairs(*final(m)) == without_board(
            bound_pairs(*old(m)).remove(user.user_name@),
            board.addr,
        ).insert(user.user_name@, (user, board)),
{
    m.insert(user, board);
}

/// Neither the user nor the board of the pair is on a connection that is
/// listed as gone.
pub open spec fn pair_alive(pair: (UserStat, BoardStat), dead_boards: Seq<u64>, dead_users: Seq<u64>) -> bool {
    !dead_users.contains(pair.0.addr) && !dead_boards.contains(pair.1.addr)
}

/// The pairs of `pairs` of which both sides are alive.
pub open spec fn surviving(
    pairs: Map<Seq<char>, (UserStat, BoardStat)>,
    dead_boards: Seq<u64>,
    dead_users: Seq<u64>,
) -> Map<Seq<char>, (UserStat, BoardStat)> {
    pairs.restrict(
        Set::new(
            |name: Seq<char>| pairs.dom().contains(name) && pair_alive(pairs[name], dead_boards, dead_users),
        ),
    )
}

/// Whether `addr` is one of `addrs`.
pub fn listed(addrs: &Vec<u64>, addr: u64) -> (r: bool)
    ensures
        r == addrs@.contains(addr),
{
    let mut i: usize = 0;
    while i < addrs.len()
        invariant
            i <= addrs@.len(),
            forall|j: int| 0 <= j < i ==> addrs@[j] != addr,
        decreases addrs@.len() - i,
    {
        if addrs[i] == addr {
            return true;
        }
        i = i + 1;
    }
    false
}

/// Whether both sides of a pair are alive.
pub fn both_alive(user: &UserStat, board: &BoardStat, dead_boards: &Vec<u64>, dead_users: &Vec<u64>) -> (r: bool)
    ensures
        r == pair_alive((*user, *board), dead_boards@, dead_users@),
{
    !listed(dead_users, user.addr) && !listed(dead_boards, board.addr)
}

/// `BiMap::retain`: keeps the pairs of which both sides are alive and takes
/// out the others.
#[verifier::external_body]
pub(crate) fn retain_alive(m: &mut BiMap<UserStat, BoardStat>, dead_boards: &Vec<u64>, dead_users: &Vec<u64>)
    ensures
        bound_pairs(*final(m)) == surviving(bound_pairs(*old(m)), dead_boards@, dead_users@),
{
    m.retain(|user, board| both_alive(user, board, dead_boards, dead_users));
}

/// `walk` holds every pair of `pairs` once, and nothing else.
pub open spec fn walks(pairs: Map<Seq<char>, (UserStat, BoardStat)>, walk: Seq<(&UserStat, &BoardStat)>) -> bool {
    &&& forall|i: int|
        0 <= i < walk.len() ==> pairs.dom().contains((#[trigger] walk[i]).0.user_name@)
            && pairs[walk[i].0.user_name@] == (*walk[i].0, *walk[i].1)
    &&& forall|i: int, j: int|
        0 <= i < j < walk.len() ==> (#[trigger] walk[i]).0.user_name@ != (#[trigger] walk[j]).0.user_name@
    &&& forall|name: Seq<char>|
        pairs.dom().contains(name) ==> exists|i: int|
            0 <= i < walk.len() && (#[trigger] walk[i]).0.user_name@ == name
}

/// `BiMap::iter`: every pair of the map once, in an order that the map
/// chooses.
#[verifier::external_body]
pub(crate) fn pairs<'a>(m: &'a BiMap<UserStat, BoardStat>) -> (r: Vec<(&'a UserStat, &'a BoardStat)>)
    ensures
        walks(bound_pairs(*m), r@),
{
    m.iter().collect()
}

} // verus!
