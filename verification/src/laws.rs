//! What holds of the broker's steps, proved over the state of
//! `broker_state`.

use crate::broker_state::BrokerState;
use crate::broker_state::Delivery;
use crate::broker_state::lemma_live_boards;
use crate::broker_state::lemma_reconcile_invariant;
use crate::broker_state::lemma_register_invariant;
use crate::broker_state::lemma_release_invariant;
use crate::broker_state::lemma_released;
use crate::broker_state::lemma_request_invariant;
use crate::broker_state::live_boards;
use crate::connections::without_board;
use crate::handles::BoardStat;
use crate::handles::UserStat;
use crate::ws_board::WSBoardMessageB2S;
use crate::ws_board::WSBoardMessageS2B;
use crate::ws_user::BoardDisconnected;
use crate::ws_user::RequestForBoardResult;
use crate::ws_user::SendToUser;
use vstd::prelude::*;

verus! {

/// How often `notice` occurs in `notices`.
pub open spec fn times(notices: Seq<Delivery>, notice: Delivery) -> nat
    decreases notices.len(),
{
    if notices.len() == 0 {
        0
    } else if notices.last() == notice {
        times(notices.drop_last(), notice) + 1
    } else {
        times(notices.drop_last(), notice)
    }
}

/// A step that changes the state of the broker.
pub enum Step {
    /// A board registers.
    Register(BoardStat),
    /// A user asks for a board.
    Request(UserStat),
    /// A sweep that walks the bindings in the given order, with the boards
    /// and the users that are gone.
    Sweep(Seq<Seq<char>>, Seq<u64>, Seq<u64>),
}

/// The state after `step`.
pub open spec fn state_after(s: BrokerState, step: Step) -> BrokerState {
    match step {
        Step::Register(board) => s.register(board),
        Step::Request(user) => s.request(user),
        Step::Sweep(order, dead_boards, dead_users) => s.reconcile(order, dead_boards, dead_users),
    }
}

/// `step` can be taken in the state `s`: a board that registers is not
/// known to the broker yet, and a sweep walks every binding once.
pub open spec fn admits(s: BrokerState, step: Step) -> bool {
    match step {
        Step::Register(board) => !s.is_idle(board.addr) && !s.is_bound(board.addr),
        Step::Request(_) => true,
        Step::Sweep(order, _, _) => s.lists(order),
    }
}

/// The state that `steps` lead to from the empty state.
pub open spec fn state_reached(steps: Seq<Step>) -> BrokerState
    decreases steps.len(),
{
    if steps.len() == 0 {
        BrokerState::empty()
    } else {
        state_after(state_reached(steps.drop_last()), steps.last())
    }
}

/// Each of `steps` can be taken in the state that the steps before it lead
/// to.
pub open spec fn can_run(steps: Seq<Step>) -> bool
    decreases steps.len(),
{
    steps.len() == 0 || (can_run(steps.drop_last()) && admits(
        state_reached(steps.drop_last()),
        steps.last(),
    ))
}

/// In every state that the broker reaches the bindings are a bijection
/// between user names and boards, no board is on the stack twice, and no
/// board is on the stack and bound at once.
pub proof fn lemma_reached_states_are_bijective(steps: Seq<Step>)
    requires
        can_run(steps),
    ensures
        state_reached(steps).wf(),
        state_reached(steps).handles_distinct(),
    decreases steps.len(),
{
    if steps.len() > 0 {
        let before = state_reached(steps.drop_last());
        lemma_reached_states_are_bijective(steps.drop_last());
        match steps.last() {
            Step::Register(board) => {
                lemma_register_invariant(before, board);
            },
            Step::Request(user) => {
                lemma_request_invariant(before, user);
            },
            Step::Sweep(order, dead_boards, dead_users) => {
                lemma_reconcile_invariant(before, order, dead_boards, dead_users);
            },
        }
    }
}

/// The board that registered last is served first: a user without a board
/// who asks right after a board has registered is bound to that board, and
/// the stack is as it was before the board registered.
pub proof fn lemma_last_registered_served_first(s: BrokerState, board: BoardStat, user: UserStat)
    requires
        s.wf(),
        !s.bindings.dom().contains(user.user_name@),
    ensures
        s.register(board).request_result(user) == RequestForBoardResult(Some(board.info.remote)),
        s.register(board).request(user).bindings.dom().contains(user.user_name@),
        s.register(board).request(user).bindings[user.user_name@] == (user, board),
        s.register(board).request(user).idle == s.idle,
{
    let r = s.register(board);
    assert(r.release(user.user_name@) == r);
    assert(r.idle.last() == board);
    assert(r.idle.drop_last() == s.idle);
}

/// A user who asks again while bound gets the same board back: the board
/// goes on top of the stack and is taken from there at once, so the stack
/// stays as it was and only the connection of the binding changes. The
/// connection that held the name before is sent one notice where it is
/// another connection; the connection that asks is sent the answer alone.
pub proof fn lemma_takeover(s: BrokerState, user: UserStat)
    requires
        s.wf(),
        s.bindings.dom().contains(user.user_name@),
    ensures
        s.request(user).idle == s.idle,
        s.request(user).bindings == s.bindings.insert(
            user.user_name@,
            (user, s.bindings[user.user_name@].1),
        ),
        s.request_result(user) == RequestForBoardResult(Some(s.bindings[user.user_name@].1.info.remote)),
        s.request_deliveries(user) == if s.bindings[user.user_name@].0.addr != user.addr {
            seq![
                Delivery::BoardDisconnected(s.bindings[user.user_name@].0.addr, BoardDisconnected),
                Delivery::RequestForBoardResult(user.addr, s.request_result(user)),
            ]
        } else {
            seq![Delivery::RequestForBoardResult(user.addr, s.request_result(user))]
        },
{
    let name = user.user_name@;
    let board = s.bindings[name].1;
    let r = s.release(name);
    assert(r.idle.last() == board);
    assert(r.idle.drop_last() == s.idle);
    let kept = without_board(r.bindings.remove(name), board.addr);
    assert(kept =~= s.bindings.remove(name)) by {
        assert forall|a: Seq<char>| s.bindings.remove(name).dom().contains(a) implies kept.dom().contains(
            a,
        ) by {
            assert(s.bindings[a].1.addr != s.bindings[name].1.addr);
        }
    }
    assert(s.request(user).bindings =~= s.bindings.insert(name, (user, board)));
}

/// A request changes no binding but that of the name that asks, as long as
/// the boards are distinct.
pub proof fn lemma_request_keeps_other_bindings(s: BrokerState, user: UserStat, other: Seq<char>)
    requires
        s.wf(),
        s.handles_distinct(),
        other != user.user_name@,
    ensures
        s.request(user).bindings.dom().contains(other) == s.bindings.dom().contains(other),
        s.bindings.dom().contains(other) ==> s.request(user).bindings[other] == s.bindings[other],
{
    let name = user.user_name@;
    let r = s.release(name);
    lemma_release_invariant(s, name);
    if r.idle.len() > 0 {
        let top = r.idle.last();
        assert(r.idle[r.idle.len() - 1] == top);
        if s.bindings.dom().contains(other) {
            assert(r.bindings.dom().contains(other));
            assert(r.bindings[other].1.addr != top.addr);
            assert(without_board(r.bindings.remove(name), top.addr).dom().contains(other));
        }
    }
}

/// A user without a board reaches no board: a command is sent nowhere, and
/// a bitstream is answered with the one notice, to the user's own
/// connection, that programming did not succeed.
pub proof fn lemma_unbound_user_reaches_no_board(
    s: BrokerState,
    user: UserStat,
    action: WSBoardMessageS2B,
    data: Vec<u8>,
)
    requires
        !s.bindings.dom().contains(user.user_name@),
    ensures
        s.route_to_board(user.user_name@, action).is_none(),
        s.program_bitstream(user, data) == Delivery::SendToUser(
            user.addr,
            SendToUser { action: WSBoardMessageB2S::ProgramBitstreamFinish(false) },
        ),
{
}

/// After a sweep no binding has a side that is gone, and no board on the
/// stack is gone.
pub proof fn lemma_sweep_leaves_the_living(
    s: BrokerState,
    order: Seq<Seq<char>>,
    dead_boards: Seq<u64>,
    dead_users: Seq<u64>,
)
    ensures
        forall|name: Seq<char>|
            s.reconcile(order, dead_boards, dead_users).bindings.dom().contains(name)
                ==> !dead_users.contains(
                (#[trigger] s.reconcile(order, dead_boards, dead_users).bindings[name]).0.addr,
            ) && !dead_boards.contains(s.reconcile(order, dead_boards, dead_users).bindings[name].1.addr),
        forall|i: int|
            0 <= i < s.reconcile(order, dead_boards, dead_users).idle.len() ==> !dead_boards.contains(
                (#[trigger] s.reconcile(order, dead_boards, dead_users).idle[i]).addr,
            ),
{
    let t = s.reconcile(order, dead_boards, dead_users);
    let live = live_boards(s.idle, dead_boards);
    let back = s.released(order, dead_boards, dead_users);
    lemma_live_boards(s.idle, dead_boards);
    lemma_released(s, order, dead_boards, dead_users);
    assert forall|i: int| 0 <= i < t.idle.len() implies !dead_boards.contains((#[trigger] t.idle[i]).addr) by {
        if i < live.len() {
            assert(t.idle[i] == live[i]);
        } else {
            assert(t.idle[i] == back[i - live.len()]);
        }
    }
}

/// Where a user is gone and the board is alive, a sweep takes the binding
/// down and the board is on the stack again.
pub proof fn lemma_dead_user_frees_board(
    s: BrokerState,
    order: Seq<Seq<char>>,
    dead_boards: Seq<u64>,
    dead_users: Seq<u64>,
    name: Seq<char>,
)
    requires
        s.lists(order),
        s.bindings.dom().contains(name),
        dead_users.contains(s.bindings[name].0.addr),
        !dead_boards.contains(s.bindings[name].1.addr),
    ensures
        !s.reconcile(order, dead_boards, dead_users).bindings.dom().contains(name),
        s.reconcile(order, dead_boards, dead_users).idle.contains(s.bindings[name].1),
        s.reconcile(order, dead_boards, dead_users).is_idle(s.bindings[name].1.addr),
{
    let t = s.reconcile(order, dead_boards, dead_users);
    let live = live_boards(s.idle, dead_boards);
    let back = s.released(order, dead_boards, dead_users);
    lemma_released(s, order, dead_boards, dead_users);
    assert(order.contains(name));
    let k = choose|k: int| 0 <= k < order.len() && order[k] == name;
    assert(back.contains(s.bindings[order[k]].1));
    let i = choose|i: int| 0 <= i < back.len() && back[i] == s.bindings[name].1;
    assert(t.idle[live.len() + i] == back[i]);
}

/// Where a board is gone and the user is alive, a sweep takes the binding
/// down, the board is not on the stack afterwards, and the user is sent the
/// notice once, provided that no other binding is on the user's connection.
pub proof fn lemma_dead_board_notifies_user(
    s: BrokerState,
    order: Seq<Seq<char>>,
    dead_boards: Seq<u64>,
    dead_users: Seq<u64>,
    name: Seq<char>,
)
    requires
        s.lists(order),
        s.bindings.dom().contains(name),
        !dead_users.contains(s.bindings[name].0.addr),
        dead_boards.contains(s.bindings[name].1.addr),
        forall|other: Seq<char>|
            s.bindings.dom().contains(other) && other != name ==> (#[trigger] s.bindings[other]).0.addr
                != s.bindings[name].0.addr,
    ensures
        !s.reconcile(order, dead_boards, dead_users).bindings.dom().contains(name),
        !s.reconcile(order, dead_boards, dead_users).is_idle(s.bindings[name].1.addr),
        times(
            s.disconnect_notices(order, dead_boards, dead_users),
            Delivery::BoardDisconnected(s.bindings[name].0.addr, BoardDisconnected),
        ) == 1,
{
    let t = s.reconcile(order, dead_boards, dead_users);
    lemma_sweep_leaves_the_living(s, order, dead_boards, dead_users);
    assert(order.contains(name));
    assert forall|k: int| 0 <= k < order.len() implies s.bindings.dom().contains(#[trigger] order[k]) by {
        assert(order.contains(order[k]));
    }
    lemma_notice_count(s, order, dead_boards, dead_users, name);
}

/// Where no other binding is on the connection of the user `name`, a walk
/// sends that connection one notice if it comes by the name while the user
/// is alive and the board is gone, and none otherwise.
pub proof fn lemma_notice_count(
    s: BrokerState,
    order: Seq<Seq<char>>,
    dead_boards: Seq<u64>,
    dead_users: Seq<u64>,
    name: Seq<char>,
)
    requires
        order.no_duplicates(),
        forall|k: int| 0 <= k < order.len() ==> s.bindings.dom().contains(#[trigger] order[k]),
        s.bindings.dom().contains(name),
        forall|other: Seq<char>|
            s.bindings.dom().contains(other) && other != name ==> (#[trigger] s.bindings[other]).0.addr
                != s.bindings[name].0.addr,
    ensures
        times(
            s.disconnect_notices(order, dead_boards, dead_users),
            Delivery::BoardDisconnected(s.bindings[name].0.addr, BoardDisconnected),
        ) == if order.contains(name) && !dead_users.contains(s.bindings[name].0.addr)
            && dead_boards.contains(s.bindings[name].1.addr) {
            1nat
        } else {
            0nat
        },
    decreases order.len(),
{
    let notice = Delivery::BoardDisconnected(s.bindings[name].0.addr, BoardDisconnected);
    let notices = s.disconnect_notices(order, dead_boards, dead_users);
    if order.len() > 0 {
        let front = order.drop_last();
        let rest = s.disconnect_notices(front, dead_boards, dead_users);
        let last = order.last();
        let pair = s.bindings[last];
        assert(order[order.len() - 1] == last);
        assert forall|k: int| 0 <= k < front.len() implies s.bindings.dom().contains(#[trigger] front[k]) by {
            assert(front[k] == order[k]);
        }
        assert(front.no_duplicates()) by {
            assert forall|i: int, j: int| 0 <= i < front.len() && 0 <= j < front.len() && i != j implies front[i]
                != front[j] by {
                assert(front[i] == order[i]);
                assert(front[j] == order[j]);
            }
        }
        lemma_notice_count(s, front, dead_boards, dead_users, name);
        if front.contains(name) {
            let k = choose|k: int| 0 <= k < front.len() && front[k] == name;
            assert(order[k] == name);
            assert(last != name);
        }
        if order.contains(name) && last != name {
            let k = choose|k: int| 0 <= k < order.len() && order[k] == name;
            assert(front[k] == name);
        }
        if !dead_users.contains(pair.0.addr) && dead_boards.contains(pair.1.addr) {
            let sent = Delivery::BoardDisconnected(pair.0.addr, BoardDisconnected);
            assert(notices == rest.push(sent));
            assert(notices.drop_last() == rest);
            assert(notices.last() == sent);
            if last != name {
                assert(pair.0.addr != s.bindings[name].0.addr);
            }
        } else {
            assert(notices == rest);
        }
    } else {
        assert(!order.contains(name));
    }
}

} // verus!
