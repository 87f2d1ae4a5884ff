//! The broker: the boards that wait, the bindings, and the operations on
//! them.

use crate::broker_state::BrokerState;
use crate::broker_state::lemma_reconcile_invariant;
use crate::broker_state::lemma_register_invariant;
use crate::broker_state::lemma_request_invariant;
use crate::broker_state::live_boards;
use crate::broker_state::Delivery;
use crate::board_list::BoardInfo2;
use crate::board_list::BoardInfoList;
use crate::connections::bind;
use crate::connections::board_of;
use crate::connections::bound_pairs;
use crate::connections::empty_map;
use crate::connections::listed;
use crate::connections::pairs;
use crate::connections::remove_board;
use crate::connections::retain_alive;
use crate::connections::user_of;
use crate::connections::walks;
use crate::handles::BoardInfo;
use crate::handles::BoardStat;
use crate::handles::UserStat;
use crate::ws_board::ProgramBitstream;
use crate::ws_board::SendToBoard;
use crate::ws_board::WSBoardMessageB2S;
use crate::ws_board::WSBoardMessageS2B;
use crate::ws_user::BoardDisconnected;
use crate::ws_user::RequestForBoardResult;
use crate::ws_user::SendToUser;
use bimap::BiMap;
use vstd::prelude::*;

verus! {

/// A board has authenticated on connection `addr`.
#[derive(Debug, Clone, PartialEq, Eq)]
pub struct RegisterBoard {
    pub addr: u64,
    pub info: BoardInfo,
}

/// The user `user_name` asks for a board on connection `user`.
#[derive(Debug, Clone, PartialEq, Eq)]
pub struct RequestForBoard {
    pub user: u64,
    pub user_name: String,
}

/// Asks for the list of all boards.
#[derive(Debug, Clone, Copy, PartialEq, Eq)]
pub struct GetBoardList;

/// The user `user_name` sends a command to the board that it is bound to.
#[derive(Debug, Clone, PartialEq, Eq)]
pub struct RouteToBoard {
    pub user: u64,
    pub user_name: String,
    pub action: WSBoardMessageS2B,
}

/// The user `user_name` sends a bitstream to the board that it is bound to.
#[derive(Debug, Clone, PartialEq, Eq)]
pub struct ProgramBitstreamToBoard {
    pub user: u64,
    pub user_name: String,
    pub data: Vec<u8>,
}

/// The board on connection `addr` sends a message to the user that it is
/// bound to.
#[derive(Debug, Clone, PartialEq, Eq)]
pub struct RouteToUser {
    pub addr: u64,
    pub info: BoardInfo,
    pub action: WSBoardMessageB2S,
}

/// An administrator sends a command to the board that reports the remote
/// address `remote`, whether it is bound or idle.
#[derive(Debug, Clone, PartialEq, Eq)]
pub struct SendToBoardByRemote {
    pub remote: String,
    pub action: WSBoardMessageS2B,
}

/// The broker sweeps for lost connections at this interval, in
/// milliseconds.
pub const SWEEP_INTERVAL: u64 = 5000;

/// The broker. It owns the stack of idle boards and the bindings; nothing
/// else changes them.
pub struct BoardManagerActor {
    idle_boards: Vec<BoardStat>,
    connections: BiMap<UserStat, BoardStat>,
}

impl View for BoardManagerActor {
    type V = BrokerState;

    closed spec fn view(&self) -> BrokerState {
        BrokerState { idle: self.idle_boards@, bindings: bound_pairs(self.connections) }
    }
}

impl RequestForBoard {
    /// The handle of the user who asks.
    pub open spec fn user_stat(self) -> UserStat {
        UserStat { addr: self.user, user_name: self.user_name }
    }
}

impl ProgramBitstreamToBoard {
    /// The handle of the user who sends the bitstream.
    pub open spec fn user_stat(self) -> UserStat {
        UserStat { addr: self.user, user_name: self.user_name }
    }
}

/// The names of the users of `snapshot`, in its order.
spec fn names_of(snapshot: Seq<(&UserStat, &BoardStat)>) -> Seq<Seq<char>> {
    Seq::new(snapshot.len(), |i: int| snapshot[i].0.user_name@)
}

impl RegisterBoard {
    /// The handle of the board that registers.
    pub open spec fn board_stat(self) -> BoardStat {
        BoardStat { addr: self.addr, info: self.info }
    }
}

impl Default for BoardManagerActor {
    /// A broker without boards and without bindings.
    fn default() -> (r: Self)
        ensures
            r@ == BrokerState::empty(),
            r@.wf(),
            r@.handles_distinct(),
    {
        BoardManagerActor::new()
    }
}

impl BoardManagerActor {
    /// A broker without boards and without bindings.
    pub fn new() -> (r: Self)
        ensures
            r@ == BrokerState::empty(),
            r@.wf(),
            r@.handles_distinct(),
    {
        BoardManagerActor { idle_boards: Vec::new(), connections: empty_map() }
    }

    /// Puts the board on top of the stack of idle boards.
    pub fn register_board(&mut self, board: RegisterBoard)
        requires
            old(self)@.wf(),
        ensures
            final(self)@ == old(self)@.register(board.board_stat()),
            final(self)@.wf(),
            old(self)@.handles_distinct() && !old(self)@.is_idle(board.addr) && !old(self)@.is_bound(
                board.addr,
            ) ==> final(self)@.handles_distinct(),
    {
        proof {
            lemma_register_invariant(self@, board.board_stat());
        }
        self.idle_boards.push(BoardStat { addr: board.addr, info: board.info });
    }

    /// Binds the board on top of the stack to the user who asks, after
    /// releasing the board that the user's name was bound to before. Returns
    /// the messages to deliver: a notice for the connection that the name
    /// was bound on, where that is another one, and the answer.
    pub fn request_for_board(&mut self, req: RequestForBoard) -> (out: Vec<Delivery>)
        requires
            old(self)@.wf(),
        ensures
            final(self)@ == old(self)@.request(req.user_stat()),
            out@ == old(self)@.request_deliveries(req.user_stat()),
            final(self)@.wf(),
            old(self)@.handles_distinct() ==> final(self)@.handles_distinct(),
    {
        proof {
            lemma_request_invariant(self@, req.user_stat());
        }
        let addr = req.user;
        let user_stat = UserStat { addr: req.user, user_name: req.user_name };
        let mut out: Vec<Delivery> = Vec::new();
        let held = match board_of(&self.connections, &user_stat) {
            Some(board) => Some(board.clone()),
            None => None,
        };
        if let Some(board) = held {
            let old_pair = remove_board(&mut self.connections, &board);
            self.idle_boards.push(board);
            if let Some((old_user, _old_board)) = old_pair {
                if old_user.addr != addr {
                    out.push(Delivery::BoardDisconnected(old_user.addr, BoardDisconnected));
                }
            }
        }
        assert(self@ == old(self)@.release(user_stat.user_name@));
        let res = match self.idle_boards.pop() {
            Some(board) => {
                let remote = board.info.remote.clone();
                bind(&mut self.connections, user_stat, board);
                Some(remote)
            },
            None => None,
        };
        out.push(Delivery::RequestForBoardResult(addr, RequestForBoardResult(res)));
        out
    }

    /// Passes a command of a user on to the board that the user's name is
    /// bound to. Without a binding nothing is sent.
    pub fn route_to_board(&self, req: RouteToBoard) -> (r: Option<Delivery>)
        ensures
            r == self@.route_to_board(req.user_name@, req.action),
    {
        let user_stat = UserStat { addr: req.user, user_name: req.user_name };
        match board_of(&self.connections, &user_stat) {
            Some(board) => Some(Delivery::SendToBoard(board.addr, SendToBoard { action: req.action })),
            None => None,
        }
    }

    /// Passes a bitstream of a user on to the board that the user's name is
    /// bound to. Without a binding the user is told that programming did not
    /// succeed.
    pub fn program_bitstream_to_board(&self, req: ProgramBitstreamToBoard) -> (r: Delivery)
        ensures
            r == self@.program_bitstream(req.user_stat(), req.data),
    {
        let user_stat = UserStat { addr: req.user, user_name: req.user_name };
        match board_of(&self.connections, &user_stat) {
            Some(board) => Delivery::ProgramBitstream(board.addr, ProgramBitstream { data: req.data }),
            None => Delivery::SendToUser(
                user_stat.addr,
                SendToUser { action: WSBoardMessageB2S::ProgramBitstreamFinish(false) },
            ),
        }
    }

    /// Passes a message of a board on to the user that the board is bound
    /// to. Without a binding nothing is sent.
    pub fn route_to_user(&self, req: RouteToUser) -> (r: Option<Delivery>)
        requires
            self@.wf(),
        ensures
            r == self@.route_to_user(req.addr, req.action),
    {
        let board = BoardStat { addr: req.addr, info: req.info };
        match user_of(&self.connections, &board) {
            Some(user) => {
                assert(self@.is_bound(req.addr)) by {
                    assert(self@.bindings[user.user_name@].1.addr == req.addr);
                }
                assert(self@.name_on(req.addr) == user.user_name@);
                Some(Delivery::SendToUser(user.addr, SendToUser { action: req.action }))
            },
            None => None,
        }
    }

    /// Sends a command to a board that reports the remote address
    /// `req.remote`: to a bound one if there is any, else to the idle one
    /// that is lowest on the stack. Returns `None` where no board reports
    /// that address.
    pub fn send_to_board_by_remote(&self, req: SendToBoardByRemote) -> (r: Option<Delivery>)
        ensures
            match r {
                Some(d) => exists|addr: u64| #[trigger]
                    self@.picked_at(req.remote@, addr) && d == Delivery::SendToBoard(
                        addr,
                        SendToBoard { action: req.action },
                    ),
                None => !self@.bound_at(req.remote@) && !self@.idle_at(req.remote@),
            },
    {
        let snapshot = pairs(&self.connections);
        let mut i: usize = 0;
        while i < snapshot.len()
            invariant
                i <= snapshot@.len(),
                walks(self@.bindings, snapshot@),
                forall|j: int| 0 <= j < i ==> (#[trigger] snapshot@[j]).1.info.remote@ != req.remote@,
            decreases snapshot@.len() - i,
        {
            let (_user, board) = snapshot[i];
            if board.info.remote == req.remote {
                proof {
                    let name = snapshot@[i as int].0.user_name@;
                    assert(self@.bindings[name].1.info.remote@ == req.remote@);
                    assert(self@.picked_at(req.remote@, board.addr));
                }
                return Some(Delivery::SendToBoard(board.addr, SendToBoard { action: req.action }));
            }
            i = i + 1;
        }
        assert(!self@.bound_at(req.remote@)) by {
            if self@.bound_at(req.remote@) {
                let name = choose|name: Seq<char>|
                    self@.bindings.dom().contains(name) && (#[trigger] self@.bindings[name]).1.info.remote@
                        == req.remote@;
                let j = choose|j: int| 0 <= j < snapshot@.len() && (#[trigger] snapshot@[j]).0.user_name@ == name;
                assert(snapshot@[j].1.info.remote@ != req.remote@);
            }
        }
        let mut k: usize = 0;
        while k < self.idle_boards.len()
            invariant
                k <= self.idle_boards@.len(),
                !self@.bound_at(req.remote@),
                forall|j: int| 0 <= j < k ==> (#[trigger] self.idle_boards@[j]).info.remote@ != req.remote@,
            decreases self.idle_boards@.len() - k,
        {
            if self.idle_boards[k].info.remote == req.remote {
                let addr = self.idle_boards[k].addr;
                proof {
                    assert(self@.idle[k as int].info.remote@ == req.remote@);
                    assert(self@.picked_at(req.remote@, addr));
                }
                return Some(Delivery::SendToBoard(addr, SendToBoard { action: req.action }));
            }
            k = k + 1;
        }
        None
    }

    /// Repairs the state after connections were lost. `dead_boards` and
    /// `dead_users` list the connections that are gone. Idle boards that are
    /// gone leave the stack. A binding with a side that is gone is taken
    /// down: where only the user is gone the board goes back on the stack,
    /// and where only the board is gone the user is sent a notice. The
    /// bindings are walked in an order that the map of bindings chooses.
    pub fn reconcile(&mut self, dead_boards: &Vec<u64>, dead_users: &Vec<u64>) -> (out: Vec<Delivery>)
        requires
            old(self)@.wf(),
        ensures
            exists|order: Seq<Seq<char>>| #[trigger]
                old(self)@.lists(order) && final(self)@ == old(self)@.reconcile(
                    order,
                    dead_boards@,
                    dead_users@,
                ) && out@ == old(self)@.disconnect_notices(order, dead_boards@, dead_users@),
            final(self)@.wf(),
            old(self)@.handles_distinct() ==> final(self)@.handles_distinct(),
    {
        let ghost before = self@;
        let ghost mut seen: int = 0;
        let mut i: usize = 0;
        while i < self.idle_boards.len()
            invariant
                0 <= seen <= before.idle.len(),
                self@.bindings == before.bindings,
                i == live_boards(before.idle.take(seen), dead_boards@).len(),
                self.idle_boards@ == live_boards(before.idle.take(seen), dead_boards@) + before.idle.skip(seen),
            decreases before.idle.len() - seen,
        {
            assert(self.idle_boards@[i as int] == before.idle[seen]);
            assert(before.idle.take(seen + 1).drop_last() == before.idle.take(seen));
            assert(before.idle.take(seen + 1).last() == before.idle[seen]);
            if listed(dead_boards, self.idle_boards[i].addr) {
                self.idle_boards.remove(i);
            } else {
                i = i + 1;
            }
            proof {
                seen = seen + 1;
                assert(self.idle_boards@ == live_boards(before.idle.take(seen), dead_boards@)
                    + before.idle.skip(seen));
            }
        }
        assert(seen == before.idle.len());
        assert(before.idle.take(seen) == before.idle);
        assert(self.idle_boards@ == live_boards(before.idle, dead_boards@));
        let mut out: Vec<Delivery> = Vec::new();
        let snapshot = pairs(&self.connections);
        let ghost order = names_of(snapshot@);
        proof {
            lemma_snapshot_lists(before, snapshot@);
            lemma_reconcile_invariant(before, order, dead_boards@, dead_users@);
        }
        let mut k: usize = 0;
        while k < snapshot.len()
            invariant
                k <= snapshot@.len(),
                order == names_of(snapshot@),
                walks(before.bindings, snapshot@),
                self@.bindings == before.bindings,
                self.idle_boards@ == live_boards(before.idle, dead_boards@) + before.released(
                    order.take(k as int),
                    dead_boards@,
                    dead_users@,
                ),
                out@ == before.disconnect_notices(order.take(k as int), dead_boards@, dead_users@),
            decreases snapshot@.len() - k,
        {
            let (user, board) = snapshot[k];
            proof {
                assert(order.take(k + 1).drop_last() == order.take(k as int));
                assert(order.take(k + 1).last() == user.user_name@);
                assert(before.bindings[user.user_name@] == (*user, *board));
            }
            let user_gone = listed(dead_users, user.addr);
            let board_gone = listed(dead_boards, board.addr);
            if user_gone && !board_gone {
                self.idle_boards.push(board.clone());
            } else if !user_gone && board_gone {
                out.push(Delivery::BoardDisconnected(user.addr, BoardDisconnected));
            }
            k = k + 1;
        }
        assert(order.take(k as int) == order);
        retain_alive(&mut self.connections, dead_boards, dead_users);
        assert(self@ == before.reconcile(order, dead_boards@, dead_users@));
        out
    }

    /// Lists all boards: the bound ones, each with the name of its user, in
    /// an order that the map of bindings chooses, and then the idle ones
    /// from the bottom of the stack.
    pub fn get_board_list(&self, _req: GetBoardList) -> (r: BoardInfoList)
        ensures
            exists|order: Seq<Seq<char>>| #[trigger]
                self@.lists(order) && r.0@ == self@.board_list(order),
    {
        let snapshot = pairs(&self.connections);
        let ghost order = names_of(snapshot@);
        let mut res: Vec<BoardInfo2> = Vec::new();
        let mut i: usize = 0;
        while i < snapshot.len()
            invariant
                i <= snapshot@.len(),
                order == names_of(snapshot@),
                walks(self@.bindings, snapshot@),
                res@ == self@.bound_entries(order).take(i as int),
            decreases snapshot@.len() - i,
        {
            let (user, board) = snapshot[i];
            res.push(BoardInfo2 { board: board.info.clone(), connected_user: Some(user.user_name.clone()) });
            i = i + 1;
            assert(res@ =~= self@.bound_entries(order).take(i as int));
        }
        assert(res@ =~= self@.bound_entries(order));
        let mut k: usize = 0;
        while k < self.idle_boards.len()
            invariant
                k <= self.idle_boards@.len(),
                walks(self@.bindings, snapshot@),
                res@ == self@.bound_entries(order) + self@.idle_entries().take(k as int),
            decreases self.idle_boards@.len() - k,
        {
            res.push(BoardInfo2 { board: self.idle_boards[k].info.clone(), connected_user: None });
            k = k + 1;
            assert(res@ =~= self@.bound_entries(order) + self@.idle_entries().take(k as int));
        }
        assert(res@ =~= self@.board_list(order));
        proof {
            lemma_snapshot_lists(self@, snapshot@);
        }
        BoardInfoList(res)
    }
}

/// A snapshot that holds every binding once gives an order that names every
/// binding once.
proof fn lemma_snapshot_lists(s: BrokerState, snapshot: Seq<(&UserStat, &BoardStat)>)
    requires
        walks(s.bindings, snapshot),
    ensures
        s.lists(names_of(snapshot)),
{
    let order = names_of(snapshot);
    assert forall|i: int, j: int| 0 <= i < order.len() && 0 <= j < order.len() && i != j implies order[i]
        != order[j] by {
        if i < j {
            assert(snapshot[i].0.user_name@ != snapshot[j].0.user_name@);
        } else {
            assert(snapshot[j].0.user_name@ != snapshot[i].0.user_name@);
        }
    }
    assert forall|name: Seq<char>| order.contains(name) <==> s.bindings.dom().contains(name) by {
        if order.contains(name) {
            let i = choose|i: int| 0 <= i < order.len() && order[i] == name;
            assert(snapshot[i].0.user_name@ == name);
        }
        if s.bindings.dom().contains(name) {
            let i = choose|i: int| 0 <= i < snapshot.len() && (#[trigger] snapshot[i]).0.user_name@ == name;
            assert(order[i] == name);
        }
    }
}

} // verus!
