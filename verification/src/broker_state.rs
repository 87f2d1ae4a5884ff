//! The broker as a mathematical state, and the steps that it takes.
//!
//! The state is the stack of idle boards and the bindings, each binding under
//! the name of its user. Every operation of the broker is a function from
//! state to state here, and the executable broker is specified against it.

use crate::board_list::BoardInfo2;
use crate::connections::surviving;
use crate::connections::without_board;
use crate::handles::BoardStat;
use crate::handles::UserStat;
use crate::ws_board::ProgramBitstream;
use crate::ws_board::SendToBoard;
use crate::ws_board::WSBoardMessageB2S;
use crate::ws_board::WSBoardMessageS2B;
use crate::ws_user::BoardDisconnected;
use crate::ws_user::RequestForBoardResult;
use crate::ws_user::SendToUser;
use vstd::prelude::*;

verus! {

/// A message of the broker together with the connection that is to get it.
#[derive(Debug, Clone, PartialEq, Eq)]
pub enum Delivery {
    SendToBoard(u64, SendToBoard),
    ProgramBitstream(u64, ProgramBitstream),
    RequestForBoardResult(u64, RequestForBoardResult),
    SendToUser(u64, SendToUser),
    BoardDisconnected(u64, BoardDisconnected),
}

/// The state of the broker: the idle boards, the last one on top, and the
/// bindings by user name.
pub struct BrokerState {
    pub idle: Seq<BoardStat>,
    pub bindings: Map<Seq<char>, (UserStat, BoardStat)>,
}

impl BrokerState {
    /// The state that holds no board and no binding.
    pub open spec fn empty() -> BrokerState {
        BrokerState { idle: Seq::empty(), bindings: Map::empty() }
    }

    /// Every binding stands under the name of its user, and no two bindings
    /// share a board.
    pub open spec fn wf(self) -> bool {
        &&& forall|name: Seq<char>|
            self.bindings.dom().contains(name) ==> (#[trigger] self.bindings[name]).0.user_name@
                == name
        &&& forall|a: Seq<char>, b: Seq<char>|
            self.bindings.dom().contains(a) && self.bindings.dom().contains(b) && (
            #[trigger] self.bindings[a]).1.addr == (#[trigger] self.bindings[b]).1.addr ==> a == b
    }

    /// The board on connection `addr` waits on the stack.
    pub open spec fn is_idle(self, addr: u64) -> bool {
        exists|i: int| 0 <= i < self.idle.len() && (#[trigger] self.idle[i]).addr == addr
    }

    /// The board on connection `addr` is bound to a user.
    pub open spec fn is_bound(self, addr: u64) -> bool {
        exists|name: Seq<char>|
            self.bindings.dom().contains(name) && (#[trigger] self.bindings[name]).1.addr == addr
    }

    /// No board is on the stack twice, and no board on the stack is bound.
    pub open spec fn handles_distinct(self) -> bool {
        &&& forall|i: int, j: int|
            0 <= i < j < self.idle.len() ==> (#[trigger] self.idle[i]).addr != (
            #[trigger] self.idle[j]).addr
        &&& forall|i: int, name: Seq<char>|
            0 <= i < self.idle.len() && self.bindings.dom().contains(name) ==> (
            #[trigger] self.idle[i]).addr != (#[trigger] self.bindings[name]).1.addr
    }

    /// A board registers: it goes on top of the stack.
    pub open spec fn register(self, board: BoardStat) -> BrokerState {
        BrokerState { idle: self.idle.push(board), bindings: self.bindings }
    }

    /// The binding of `name`, if there is one, is taken down and its board
    /// goes back on top of the stack.
    pub open spec fn release(self, name: Seq<char>) -> BrokerState {
        if self.bindings.dom().contains(name) {
            BrokerState {
                idle: self.idle.push(self.bindings[name].1),
                bindings: self.bindings.remove(name),
            }
        } else {
            self
        }
    }

    /// The board on top of the stack, if there is one, is bound to `user`.
    pub open spec fn assign(self, user: UserStat) -> BrokerState {
        if self.idle.len() > 0 {
            BrokerState {
                idle: self.idle.drop_last(),
                bindings: without_board(
                    self.bindings.remove(user.user_name@),
                    self.idle.last().addr,
                ).insert(user.user_name@, (user, self.idle.last())),
            }
        } else {
            self
        }
    }

    /// A user asks for a board: an earlier binding under the same name is
    /// released, then the board on top of the stack is assigned.
    pub open spec fn request(self, user: UserStat) -> BrokerState {
        self.release(user.user_name@).assign(user)
    }

    /// The answer to the request of `user`: the remote address of the board
    /// that is assigned, or `None` where the stack is empty.
    pub open spec fn request_result(self, user: UserStat) -> RequestForBoardResult {
        let released = self.release(user.user_name@);
        if released.idle.len() > 0 {
            RequestForBoardResult(Some(released.idle.last().info.remote))
        } else {
            RequestForBoardResult(None)
        }
    }

    /// What the request of `user` sends: a notice to the connection that held
    /// the name before, where that is another connection, and then the answer
    /// to the connection that asked.
    pub open spec fn request_deliveries(self, user: UserStat) -> Seq<Delivery> {
        let name = user.user_name@;
        let answer = Delivery::RequestForBoardResult(user.addr, self.request_result(user));
        if self.bindings.dom().contains(name) && self.bindings[name].0.addr != user.addr {
            seq![Delivery::BoardDisconnected(self.bindings[name].0.addr, BoardDisconnected), answer]
        } else {
            seq![answer]
        }
    }
}


/// The boards of `idle` that are alive, in their order.
pub open spec fn live_boards(idle: Seq<BoardStat>, dead_boards: Seq<u64>) -> Seq<BoardStat>
    decreases idle.len(),
{
    if idle.len() == 0 {
        Seq::empty()
    } else if dead_boards.contains(idle.last().addr) {
        live_boards(idle.drop_last(), dead_boards)
    } else {
        live_boards(idle.drop_last(), dead_boards).push(idle.last())
    }
}

/// No two boards of `boards` are on the same connection.
pub open spec fn distinct_boards(boards: Seq<BoardStat>) -> bool {
    forall|i: int, j: int|
        0 <= i < j < boards.len() ==> (#[trigger] boards[i]).addr != (#[trigger] boards[j]).addr
}

impl BrokerState {
    /// What routing a command of the user `name` sends: the command, to the
    /// board that the name is bound to; nothing where the name is not bound.
    pub open spec fn route_to_board(self, name: Seq<char>, action: WSBoardMessageS2B) -> Option<Delivery> {
        if self.bindings.dom().contains(name) {
            Some(Delivery::SendToBoard(self.bindings[name].1.addr, SendToBoard { action }))
        } else {
            None
        }
    }

    /// What a bitstream of `user` sends: the bitstream, to the board that
    /// the name is bound to; where the name is not bound, the notice to the
    /// user's connection that programming did not succeed.
    pub open spec fn program_bitstream(self, user: UserStat, data: Vec<u8>) -> Delivery {
        if self.bindings.dom().contains(user.user_name@) {
            Delivery::ProgramBitstream(self.bindings[user.user_name@].1.addr, ProgramBitstream { data })
        } else {
            Delivery::SendToUser(
                user.addr,
                SendToUser { action: WSBoardMessageB2S::ProgramBitstreamFinish(false) },
            )
        }
    }

    /// The name that the board on connection `addr` is bound to.
    pub open spec fn name_on(self, addr: u64) -> Seq<char> {
        choose|name: Seq<char>|
            self.bindings.dom().contains(name) && (#[trigger] self.bindings[name]).1.addr == addr
    }

    /// What routing a message of the board on connection `addr` sends: the
    /// message, to the user that the board is bound to; nothing where the
    /// board is not bound.
    pub open spec fn route_to_user(self, addr: u64, action: WSBoardMessageB2S) -> Option<Delivery> {
        if self.is_bound(addr) {
            Some(Delivery::SendToUser(self.bindings[self.name_on(addr)].0.addr, SendToUser { action }))
        } else {
            None
        }
    }

    /// A bound board reports the remote address `remote`.
    pub open spec fn bound_at(self, remote: Seq<char>) -> bool {
        exists|name: Seq<char>|
            self.bindings.dom().contains(name) && (#[trigger] self.bindings[name]).1.info.remote@
                == remote
    }

    /// An idle board reports the remote address `remote`.
    pub open spec fn idle_at(self, remote: Seq<char>) -> bool {
        exists|i: int| 0 <= i < self.idle.len() && (#[trigger] self.idle[i]).info.remote@ == remote
    }

    /// The board on connection `addr` may be picked for the remote address
    /// `remote`: it is a bound board with that address, or, where no bound
    /// board has that address, the lowest idle board with it.
    pub open spec fn picked_at(self, remote: Seq<char>, addr: u64) -> bool {
        if self.bound_at(remote) {
            exists|name: Seq<char>|
                self.bindings.dom().contains(name) && (#[trigger] self.bindings[name]).1.info.remote@
                    == remote && self.bindings[name].1.addr == addr
        } else {
            exists|i: int|
                0 <= i < self.idle.len() && (#[trigger] self.idle[i]).info.remote@ == remote
                    && self.idle[i].addr == addr && forall|j: int|
                    0 <= j < i ==> (#[trigger] self.idle[j]).info.remote@ != remote
        }
    }

    /// `order` names every binding once.
    pub open spec fn lists(self, order: Seq<Seq<char>>) -> bool {
        &&& order.no_duplicates()
        &&& forall|name: Seq<char>| order.contains(name) <==> self.bindings.dom().contains(name)
    }

    /// The entries of the bound boards, in the order `order`.
    pub open spec fn bound_entries(self, order: Seq<Seq<char>>) -> Seq<BoardInfo2> {
        Seq::new(
            order.len(),
            |i: int|
                BoardInfo2 {
                    board: self.bindings[order[i]].1.info,
                    connected_user: Some(self.bindings[order[i]].0.user_name),
                },
        )
    }

    /// The entries of the idle boards, from the bottom of the stack.
    pub open spec fn idle_entries(self) -> Seq<BoardInfo2> {
        Seq::new(
            self.idle.len(),
            |i: int| BoardInfo2 { board: self.idle[i].info, connected_user: None },
        )
    }

    /// The list of all boards, the bound ones first, in the order `order`.
    pub open spec fn board_list(self, order: Seq<Seq<char>>) -> Seq<BoardInfo2> {
        self.bound_entries(order) + self.idle_entries()
    }

    /// The boards that go back on the stack when the bindings are walked in
    /// the order `order`: those that are alive while their user is gone.
    pub open spec fn released(self, order: Seq<Seq<char>>, dead_boards: Seq<u64>, dead_users: Seq<u64>) -> Seq<
        BoardStat,
    >
        decreases order.len(),
    {
        if order.len() == 0 {
            Seq::empty()
        } else {
            let rest = self.released(order.drop_last(), dead_boards, dead_users);
            let pair = self.bindings[order.last()];
            if dead_users.contains(pair.0.addr) && !dead_boards.contains(pair.1.addr) {
                rest.push(pair.1)
            } else {
                rest
            }
        }
    }

    /// The notices that go out when the bindings are walked in the order
    /// `order`: one to each user who is alive while the board is gone.
    pub open spec fn disconnect_notices(
        self,
        order: Seq<Seq<char>>,
        dead_boards: Seq<u64>,
        dead_users: Seq<u64>,
    ) -> Seq<Delivery>
        decreases order.len(),
    {
        if order.len() == 0 {
            Seq::empty()
        } else {
            let rest = self.disconnect_notices(order.drop_last(), dead_boards, dead_users);
            let pair = self.bindings[order.last()];
            if !dead_users.contains(pair.0.addr) && dead_boards.contains(pair.1.addr) {
                rest.push(Delivery::BoardDisconnected(pair.0.addr, BoardDisconnected))
            } else {
                rest
            }
        }
    }

    /// The state after a sweep that walks the bindings in the order `order`:
    /// idle boards that are gone leave the stack, boards whose user is gone
    /// go back on it, and only bindings with both sides alive stay.
    pub open spec fn reconcile(self, order: Seq<Seq<char>>, dead_boards: Seq<u64>, dead_users: Seq<u64>) -> BrokerState {
        BrokerState {
            idle: live_boards(self.idle, dead_boards) + self.released(order, dead_boards, dead_users),
            bindings: surviving(self.bindings, dead_boards, dead_users),
        }
    }
}

/// Registering keeps the bindings a bijection. It keeps the boards distinct
/// as well, unless the board that registers is already known to the broker.
pub proof fn lemma_register_invariant(s: BrokerState, board: BoardStat)
    requires
        s.wf(),
    ensures
        s.register(board).wf(),
        s.handles_distinct() && !s.is_idle(board.addr) && !s.is_bound(board.addr) ==> s.register(
            board,
        ).handles_distinct(),
{
    let t = s.register(board);
    if s.handles_distinct() && !s.is_idle(board.addr) && !s.is_bound(board.addr) {
        assert forall|i: int, j: int| 0 <= i < j < t.idle.len() implies (#[trigger] t.idle[i]).addr
            != (#[trigger] t.idle[j]).addr by {
            assert(t.idle[i] == s.idle[i]);
            if j < s.idle.len() {
                assert(t.idle[j] == s.idle[j]);
            }
        }
        assert forall|i: int, name: Seq<char>|
            0 <= i < t.idle.len() && t.bindings.dom().contains(name) implies (
        #[trigger] t.idle[i]).addr != (#[trigger] t.bindings[name]).1.addr by {
            if i < s.idle.len() {
                assert(t.idle[i] == s.idle[i]);
            }
        }
    }
}

/// Releasing a name keeps the bindings a bijection and the boards distinct.
pub proof fn lemma_release_invariant(s: BrokerState, name: Seq<char>)
    requires
        s.wf(),
    ensures
        s.release(name).wf(),
        s.handles_distinct() ==> s.release(name).handles_distinct(),
{
    let t = s.release(name);
    if s.bindings.dom().contains(name) {
        assert forall|a: Seq<char>| t.bindings.dom().contains(a) implies (
        #[trigger] t.bindings[a]).0.user_name@ == a by {
            assert(t.bindings[a] == s.bindings[a]);
        }
        assert forall|a: Seq<char>, b: Seq<char>|
            t.bindings.dom().contains(a) && t.bindings.dom().contains(b) && (
            #[trigger] t.bindings[a]).1.addr == (#[trigger] t.bindings[b]).1.addr implies a == b by {
            assert(t.bindings[a] == s.bindings[a]);
            assert(t.bindings[b] == s.bindings[b]);
        }
        if s.handles_distinct() {
            let board = s.bindings[name].1;
            assert forall|i: int, j: int| 0 <= i < j < t.idle.len() implies (
            #[trigger] t.idle[i]).addr != (#[trigger] t.idle[j]).addr by {
                assert(t.idle[i] == s.idle[i]);
                if j < s.idle.len() {
                    assert(t.idle[j] == s.idle[j]);
                } else {
                    assert(t.idle[j] == board);
                }
            }
            assert forall|i: int, a: Seq<char>|
                0 <= i < t.idle.len() && t.bindings.dom().contains(a) implies (
            #[trigger] t.idle[i]).addr != (#[trigger] t.bindings[a]).1.addr by {
                assert(t.bindings[a] == s.bindings[a]);
                if i < s.idle.len() {
                    assert(t.idle[i] == s.idle[i]);
                } else {
                    assert(t.idle[i] == board);
                }
            }
        }
    }
}

/// Assigning the board on top of the stack keeps the bindings a bijection
/// and the boards distinct.
pub proof fn lemma_assign_invariant(s: BrokerState, user: UserStat)
    requires
        s.wf(),
    ensures
        s.assign(user).wf(),
        s.handles_distinct() ==> s.assign(user).handles_distinct(),
{
    let t = s.assign(user);
    if s.idle.len() > 0 {
        let name = user.user_name@;
        let top = s.idle.last();
        let kept = without_board(s.bindings.remove(name), top.addr);
        assert forall|a: Seq<char>| t.bindings.dom().contains(a) implies (
        #[trigger] t.bindings[a]).0.user_name@ == a by {
            if a != name {
                assert(kept.dom().contains(a));
                assert(t.bindings[a] == s.bindings[a]);
            }
        }
        assert forall|a: Seq<char>, b: Seq<char>|
            t.bindings.dom().contains(a) && t.bindings.dom().contains(b) && (
            #[trigger] t.bindings[a]).1.addr == (#[trigger] t.bindings[b]).1.addr implies a == b by {
            if a != name {
                assert(kept.dom().contains(a));
                assert(t.bindings[a] == s.bindings[a]);
            }
            if b != name {
                assert(kept.dom().contains(b));
                assert(t.bindings[b] == s.bindings[b]);
            }
        }
        if s.handles_distinct() {
            assert forall|i: int, j: int| 0 <= i < j < t.idle.len() implies (
            #[trigger] t.idle[i]).addr != (#[trigger] t.idle[j]).addr by {
                assert(t.idle[i] == s.idle[i]);
                assert(t.idle[j] == s.idle[j]);
            }
            assert forall|i: int, a: Seq<char>|
                0 <= i < t.idle.len() && t.bindings.dom().contains(a) implies (
            #[trigger] t.idle[i]).addr != (#[trigger] t.bindings[a]).1.addr by {
                assert(t.idle[i] == s.idle[i]);
                if a != name {
                    assert(kept.dom().contains(a));
                    assert(t.bindings[a] == s.bindings[a]);
                } else {
                    assert(s.idle[s.idle.len() - 1] == top);
                }
            }
        }
    }
}

/// A request keeps the bindings a bijection and the boards distinct.
pub proof fn lemma_request_invariant(s: BrokerState, user: UserStat)
    requires
        s.wf(),
    ensures
        s.request(user).wf(),
        s.handles_distinct() ==> s.request(user).handles_distinct(),
{
    lemma_release_invariant(s, user.user_name@);
    lemma_assign_invariant(s.release(user.user_name@), user);
}

/// Every board that stays on the stack is alive and was on the stack, and
/// the boards that stay are distinct if the boards on the stack were.
pub proof fn lemma_live_boards(idle: Seq<BoardStat>, dead_boards: Seq<u64>)
    ensures
        forall|i: int|
            0 <= i < live_boards(idle, dead_boards).len() ==> !dead_boards.contains(
                (#[trigger] live_boards(idle, dead_boards)[i]).addr,
            ) && idle.contains(live_boards(idle, dead_boards)[i]),
        forall|j: int|
            0 <= j < idle.len() && !dead_boards.contains((#[trigger] idle[j]).addr) ==> live_boards(
                idle,
                dead_boards,
            ).contains(idle[j]),
        distinct_boards(idle) ==> distinct_boards(live_boards(idle, dead_boards)),
    decreases idle.len(),
{
    let live = live_boards(idle, dead_boards);
    if idle.len() > 0 {
        let front = idle.drop_last();
        let rest = live_boards(front, dead_boards);
        lemma_live_boards(front, dead_boards);
        assert forall|i: int| 0 <= i < live.len() implies !dead_boards.contains((#[trigger] live[i]).addr)
            && idle.contains(live[i]) by {
            if i < rest.len() {
                assert(live[i] == rest[i]);
                let j = choose|j: int| 0 <= j < front.len() && front[j] == rest[i];
                assert(idle[j] == live[i]);
            } else {
                assert(live[i] == idle[idle.len() - 1]);
            }
        }
        assert forall|j: int|
            0 <= j < idle.len() && !dead_boards.contains((#[trigger] idle[j]).addr) implies live.contains(
            idle[j],
        ) by {
            if j < front.len() {
                assert(front[j] == idle[j]);
                let i = choose|i: int| 0 <= i < rest.len() && rest[i] == front[j];
                assert(live[i] == idle[j]);
            } else {
                assert(live[live.len() - 1] == idle[j]);
            }
        }
        if distinct_boards(idle) {
            assert(distinct_boards(front)) by {
                assert forall|i: int, j: int| 0 <= i < j < front.len() implies (#[trigger] front[i]).addr != (
                #[trigger] front[j]).addr by {
                    assert(front[i] == idle[i]);
                    assert(front[j] == idle[j]);
                }
            }
            assert forall|i: int, j: int| 0 <= i < j < live.len() implies (#[trigger] live[i]).addr != (
            #[trigger] live[j]).addr by {
                assert(live[i] == rest[i]);
                if j < rest.len() {
                    assert(live[j] == rest[j]);
                } else {
                    let k = choose|k: int| 0 <= k < front.len() && front[k] == rest[i];
                    assert(idle[k] == rest[i]);
                    assert(live[j] == idle[idle.len() - 1]);
                }
            }
        }
    }
}

/// Every board that a sweep puts back on the stack is alive and was bound,
/// under a name of the walk, to a user who is gone; and every such board is
/// put back.
pub proof fn lemma_released(s: BrokerState, order: Seq<Seq<char>>, dead_boards: Seq<u64>, dead_users: Seq<u64>)
    ensures
        forall|i: int|
            0 <= i < s.released(order, dead_boards, dead_users).len() ==> exists|k: int|
                0 <= k < order.len() && s.bindings[order[k]].1 == (#[trigger] s.released(
                    order,
                    dead_boards,
                    dead_users,
                )[i]) && dead_users.contains(s.bindings[order[k]].0.addr) && !dead_boards.contains(
                    s.bindings[order[k]].1.addr,
                ),
        forall|k: int|
            0 <= k < order.len() && dead_users.contains(s.bindings[#[trigger] order[k]].0.addr)
                && !dead_boards.contains(s.bindings[order[k]].1.addr) ==> s.released(
                order,
                dead_boards,
                dead_users,
            ).contains(s.bindings[order[k]].1),
    decreases order.len(),
{
    let back = s.released(order, dead_boards, dead_users);
    if order.len() > 0 {
        let front = order.drop_last();
        let rest = s.released(front, dead_boards, dead_users);
        lemma_released(s, front, dead_boards, dead_users);
        assert forall|i: int| 0 <= i < back.len() implies exists|k: int|
            0 <= k < order.len() && s.bindings[order[k]].1 == (#[trigger] back[i]) && dead_users.contains(
                s.bindings[order[k]].0.addr,
            ) && !dead_boards.contains(s.bindings[order[k]].1.addr) by {
            if i < rest.len() {
                assert(back[i] == rest[i]);
                let k = choose|k: int|
                    0 <= k < front.len() && s.bindings[front[k]].1 == rest[i] && dead_users.contains(
                        s.bindings[front[k]].0.addr,
                    ) && !dead_boards.contains(s.bindings[front[k]].1.addr);
                assert(order[k] == front[k]);
            } else {
                assert(back[i] == s.bindings[order[order.len() - 1]].1);
            }
        }
        assert forall|k: int|
            0 <= k < order.len() && dead_users.contains(s.bindings[#[trigger] order[k]].0.addr)
                && !dead_boards.contains(s.bindings[order[k]].1.addr) implies back.contains(
            s.bindings[order[k]].1,
        ) by {
            if k < front.len() {
                assert(front[k] == order[k]);
                let i = choose|i: int| 0 <= i < rest.len() && rest[i] == s.bindings[front[k]].1;
                assert(back[i] == s.bindings[order[k]].1);
            } else {
                assert(back[back.len() - 1] == s.bindings[order[k]].1);
            }
        }
    }
}

/// The boards that a sweep puts back on the stack are distinct.
pub proof fn lemma_released_distinct(
    s: BrokerState,
    order: Seq<Seq<char>>,
    dead_boards: Seq<u64>,
    dead_users: Seq<u64>,
)
    requires
        s.wf(),
        order.no_duplicates(),
        forall|k: int| 0 <= k < order.len() ==> s.bindings.dom().contains(#[trigger] order[k]),
    ensures
        distinct_boards(s.released(order, dead_boards, dead_users)),
    decreases order.len(),
{
    let back = s.released(order, dead_boards, dead_users);
    if order.len() > 0 {
        let front = order.drop_last();
        let rest = s.released(front, dead_boards, dead_users);
        assert forall|k: int| 0 <= k < front.len() implies s.bindings.dom().contains(#[trigger] front[k]) by {
            assert(front[k] == order[k]);
        }
        assert(front.no_duplicates()) by {
            assert forall|i: int, j: int| 0 <= i < front.len() && 0 <= j < front.len() && i != j implies front[i]
                != front[j] by {
                assert(front[i] == order[i]);
                assert(front[j] == order[j]);
            }
        }
        lemma_released_distinct(s, front, dead_boards, dead_users);
        lemma_released(s, front, dead_boards, dead_users);
        assert forall|i: int, j: int| 0 <= i < j < back.len() implies (#[trigger] back[i]).addr != (
        #[trigger] back[j]).addr by {
            assert(back[i] == rest[i]);
            if j < rest.len() {
                assert(back[j] == rest[j]);
            } else {
                let k = choose|k: int| 0 <= k < front.len() && s.bindings[front[k]].1 == rest[i];
                assert(front[k] == order[k]);
                assert(order[k] != order[order.len() - 1]);
                assert(back[j] == s.bindings[order[order.len() - 1]].1);
            }
        }
    }
}

/// A sweep keeps the bindings a bijection and the boards distinct.
pub proof fn lemma_reconcile_invariant(
    s: BrokerState,
    order: Seq<Seq<char>>,
    dead_boards: Seq<u64>,
    dead_users: Seq<u64>,
)
    requires
        s.wf(),
        s.lists(order),
    ensures
        s.reconcile(order, dead_boards, dead_users).wf(),
        s.handles_distinct() ==> s.reconcile(order, dead_boards, dead_users).handles_distinct(),
{
    let t = s.reconcile(order, dead_boards, dead_users);
    assert forall|a: Seq<char>| t.bindings.dom().contains(a) implies (#[trigger] t.bindings[a]).0.user_name@
        == a by {
        assert(t.bindings[a] == s.bindings[a]);
    }
    assert forall|a: Seq<char>, b: Seq<char>|
        t.bindings.dom().contains(a) && t.bindings.dom().contains(b) && (#[trigger] t.bindings[a]).1.addr == (
        #[trigger] t.bindings[b]).1.addr implies a == b by {
        assert(t.bindings[a] == s.bindings[a]);
        assert(t.bindings[b] == s.bindings[b]);
    }
    if s.handles_distinct() {
        let live = live_boards(s.idle, dead_boards);
        let back = s.released(order, dead_boards, dead_users);
        assert(distinct_boards(s.idle));
        lemma_live_boards(s.idle, dead_boards);
        lemma_released(s, order, dead_boards, dead_users);
        assert forall|k: int| 0 <= k < order.len() implies s.bindings.dom().contains(#[trigger] order[k]) by {
            assert(order.contains(order[k]));
        }
        lemma_released_distinct(s, order, dead_boards, dead_users);
        assert forall|i: int| 0 <= i < t.idle.len() implies (s.is_idle((#[trigger] t.idle[i]).addr) && i
            < live.len() && t.idle[i] == live[i]) || (i >= live.len() && t.idle[i] == back[i - live.len()]
            && exists|k: int|
            0 <= k < order.len() && s.bindings[order[k]].1 == t.idle[i] && dead_users.contains(
                s.bindings[order[k]].0.addr,
            )) by {
            if i < live.len() {
                assert(t.idle[i] == live[i]);
                let j = choose|j: int| 0 <= j < s.idle.len() && s.idle[j] == live[i];
                assert(s.idle[j].addr == t.idle[i].addr);
            } else {
                assert(t.idle[i] == back[i - live.len()]);
            }
        }
        assert forall|i: int, j: int| 0 <= i < j < t.idle.len() implies (#[trigger] t.idle[i]).addr != (
        #[trigger] t.idle[j]).addr by {
            if j < live.len() {
                assert(t.idle[i] == live[i]);
                assert(t.idle[j] == live[j]);
            } else if i >= live.len() {
                assert(t.idle[i] == back[i - live.len()]);
                assert(t.idle[j] == back[j - live.len()]);
            } else {
                let p = choose|p: int| 0 <= p < s.idle.len() && s.idle[p] == live[i];
                let k = choose|k: int|
                    0 <= k < order.len() && s.bindings[order[k]].1 == t.idle[j] && dead_users.contains(
                        s.bindings[order[k]].0.addr,
                    );
                assert(s.idle[p].addr != s.bindings[order[k]].1.addr);
            }
        }
        assert forall|i: int, a: Seq<char>|
            0 <= i < t.idle.len() && t.bindings.dom().contains(a) implies (#[trigger] t.idle[i]).addr != (
        #[trigger] t.bindings[a]).1.addr by {
            assert(t.bindings[a] == s.bindings[a]);
            if i < live.len() {
                let p = choose|p: int| 0 <= p < s.idle.len() && s.idle[p] == live[i];
                assert(s.idle[p].addr != s.bindings[a].1.addr);
            } else {
                let k = choose|k: int|
                    0 <= k < order.len() && s.bindings[order[k]].1 == t.idle[i] && dead_users.contains(
                        s.bindings[order[k]].0.addr,
                    );
                assert(order[k] != a);
            }
        }
    }
}

} // verus!
