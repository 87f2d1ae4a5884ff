use board_broker::board_list::BoardInfo2;
use board_broker::board_manager::BoardManagerActor;
use board_broker::board_manager::GetBoardList;
use board_broker::board_manager::ProgramBitstreamToBoard;
use board_broker::board_manager::RegisterBoard;
use board_broker::board_manager::RequestForBoard;
use board_broker::board_manager::RouteToBoard;
use board_broker::board_manager::RouteToUser;
use board_broker::board_manager::SendToBoardByRemote;
use board_broker::board_manager::SWEEP_INTERVAL;
use board_broker::broker_state::Delivery;
use board_broker::common::IOSetting;
use board_broker::handles::BoardInfo;
use board_broker::ws_board::ProgramBitstream;
use board_broker::ws_board::SendToBoard;
use board_broker::ws_board::WSBoardMessageB2S;
use board_broker::ws_board::WSBoardMessageS2B;
use board_broker::ws_user::BoardDisconnected;
use board_broker::ws_user::RequestForBoardResult;
use board_broker::ws_user::SendToUser;

fn info(remote: &str) -> BoardInfo {
    BoardInfo {
        remote: remote.to_string(),
        software_version: "1.0".to_string(),
        hardware_version: "0.1".to_string(),
    }
}

fn register(broker: &mut BoardManagerActor, addr: u64, remote: &str) {
    broker.register_board(RegisterBoard { addr, info: info(remote) });
}

fn request(broker: &mut BoardManagerActor, user: u64, name: &str) -> Vec<Delivery> {
    broker.request_for_board(RequestForBoard { user, user_name: name.to_string() })
}

fn answer(user: u64, remote: Option<&str>) -> Delivery {
    Delivery::RequestForBoardResult(user, RequestForBoardResult(remote.map(|r| r.to_string())))
}

fn kicked(user: u64) -> Delivery {
    Delivery::BoardDisconnected(user, BoardDisconnected)
}

fn bound(remote: &str, user: &str) -> BoardInfo2 {
    BoardInfo2 { board: info(remote), connected_user: Some(user.to_string()) }
}

fn idle(remote: &str) -> BoardInfo2 {
    BoardInfo2 { board: info(remote), connected_user: None }
}

fn sorted_list(broker: &BoardManagerActor) -> Vec<BoardInfo2> {
    let mut list = broker.get_board_list(GetBoardList).0;
    list.sort_by(|a, b| a.board.remote.cmp(&b.board.remote));
    list
}

fn ident(on: bool) -> WSBoardMessageS2B {
    WSBoardMessageS2B::Ident(on)
}

fn route(broker: &BoardManagerActor, user: u64, name: &str) -> Option<Delivery> {
    broker.route_to_board(RouteToBoard { user, user_name: name.to_string(), action: ident(true) })
}

#[test]
fn broker_sweeps_every_five_seconds() {
    assert_eq!(SWEEP_INTERVAL, 5000);
}

#[test]
fn new_broker_knows_no_board() {
    let broker = BoardManagerActor::new();
    assert_eq!(broker.get_board_list(GetBoardList).0, vec![]);
    let other = BoardManagerActor::default();
    assert_eq!(other.get_board_list(GetBoardList).0, vec![]);
}

#[test]
fn registered_boards_are_listed_from_the_bottom_of_the_stack() {
    let mut broker = BoardManagerActor::new();
    register(&mut broker, 1, "b1");
    register(&mut broker, 2, "b2");
    register(&mut broker, 3, "b3");
    assert_eq!(broker.get_board_list(GetBoardList).0, vec![idle("b1"), idle("b2"), idle("b3")]);
}

#[test]
fn last_registered_board_is_assigned_first() {
    let mut broker = BoardManagerActor::new();
    register(&mut broker, 1, "b1");
    register(&mut broker, 2, "b2");
    register(&mut broker, 3, "b3");
    assert_eq!(request(&mut broker, 10, "alice"), vec![answer(10, Some("b3"))]);
    assert_eq!(broker.get_board_list(GetBoardList).0, vec![bound("b3", "alice"), idle("b1"), idle("b2")]);
    assert_eq!(request(&mut broker, 11, "bob"), vec![answer(11, Some("b2"))]);
    assert_eq!(request(&mut broker, 12, "carol"), vec![answer(12, Some("b1"))]);
}

#[test]
fn two_boards_three_users() {
    let mut broker = BoardManagerActor::new();
    register(&mut broker, 1, "b1");
    register(&mut broker, 2, "b2");
    assert_eq!(request(&mut broker, 10, "alice"), vec![answer(10, Some("b2"))]);
    assert_eq!(request(&mut broker, 11, "bob"), vec![answer(11, Some("b1"))]);
    assert_eq!(request(&mut broker, 12, "carol"), vec![answer(12, None)]);
    assert_eq!(sorted_list(&broker), vec![bound("b1", "bob"), bound("b2", "alice")]);
}

#[test]
fn request_without_boards_is_refused_and_binds_nothing() {
    let mut broker = BoardManagerActor::new();
    assert_eq!(request(&mut broker, 10, "alice"), vec![answer(10, None)]);
    assert_eq!(broker.get_board_list(GetBoardList).0, vec![]);
    assert_eq!(route(&broker, 10, "alice"), None);
}

#[test]
fn takeover_from_another_connection_keeps_the_board_and_notifies_the_old_one() {
    let mut broker = BoardManagerActor::new();
    register(&mut broker, 1, "b1");
    register(&mut broker, 2, "b2");
    assert_eq!(request(&mut broker, 10, "alice"), vec![answer(10, Some("b2"))]);
    assert_eq!(request(&mut broker, 20, "alice"), vec![kicked(10), answer(20, Some("b2"))]);
    assert_eq!(broker.get_board_list(GetBoardList).0, vec![bound("b2", "alice"), idle("b1")]);
    let report = WSBoardMessageB2S::ProgramBitstreamFinish(true);
    let sent = broker.route_to_user(RouteToUser { addr: 2, info: info("b2"), action: report.clone() });
    assert_eq!(sent, Some(Delivery::SendToUser(20, SendToUser { action: report })));
}

#[test]
fn takeover_on_the_same_connection_sends_the_answer_alone() {
    let mut broker = BoardManagerActor::new();
    register(&mut broker, 1, "b1");
    assert_eq!(request(&mut broker, 10, "alice"), vec![answer(10, Some("b1"))]);
    assert_eq!(request(&mut broker, 10, "alice"), vec![answer(10, Some("b1"))]);
    assert_eq!(broker.get_board_list(GetBoardList).0, vec![bound("b1", "alice")]);
}

#[test]
fn takeover_of_the_only_board_gives_it_back() {
    let mut broker = BoardManagerActor::new();
    register(&mut broker, 1, "b1");
    assert_eq!(request(&mut broker, 10, "alice"), vec![answer(10, Some("b1"))]);
    assert_eq!(request(&mut broker, 11, "alice"), vec![kicked(10), answer(11, Some("b1"))]);
    assert_eq!(request(&mut broker, 12, "bob"), vec![answer(12, None)]);
}

#[test]
fn route_to_board_reaches_the_bound_board_only() {
    let mut broker = BoardManagerActor::new();
    register(&mut broker, 1, "b1");
    register(&mut broker, 2, "b2");
    assert_eq!(route(&broker, 10, "alice"), None);
    request(&mut broker, 10, "alice");
    request(&mut broker, 11, "bob");
    assert_eq!(
        route(&broker, 10, "alice"),
        Some(Delivery::SendToBoard(2, SendToBoard { action: ident(true) }))
    );
    assert_eq!(
        route(&broker, 11, "bob"),
        Some(Delivery::SendToBoard(1, SendToBoard { action: ident(true) }))
    );
    assert_eq!(route(&broker, 12, "carol"), None);
    assert_eq!(sorted_list(&broker), vec![bound("b1", "bob"), bound("b2", "alice")]);
}

#[test]
fn route_to_board_goes_by_the_name_and_not_by_the_connection() {
    let mut broker = BoardManagerActor::new();
    register(&mut broker, 1, "b1");
    request(&mut broker, 10, "alice");
    assert_eq!(
        route(&broker, 99, "alice"),
        Some(Delivery::SendToBoard(1, SendToBoard { action: ident(true) }))
    );
}

#[test]
fn route_to_board_passes_the_command_on_unchanged() {
    let mut broker = BoardManagerActor::new();
    register(&mut broker, 7, "b7");
    request(&mut broker, 10, "alice");
    let action = WSBoardMessageS2B::SetIOOutput(IOSetting {
        mask: Some("ff00".to_string()),
        data: Some("1200".to_string()),
    });
    let sent = broker.route_to_board(RouteToBoard {
        user: 10,
        user_name: "alice".to_string(),
        action: action.clone(),
    });
    assert_eq!(sent, Some(Delivery::SendToBoard(7, SendToBoard { action })));
}

#[test]
fn bitstream_of_a_bound_user_goes_to_the_board() {
    let mut broker = BoardManagerActor::new();
    register(&mut broker, 1, "b1");
    request(&mut broker, 10, "alice");
    let sent = broker.program_bitstream_to_board(ProgramBitstreamToBoard {
        user: 10,
        user_name: "alice".to_string(),
        data: vec![1, 2, 3],
    });
    assert_eq!(sent, Delivery::ProgramBitstream(1, ProgramBitstream { data: vec![1, 2, 3] }));
}

#[test]
fn bitstream_of_an_unbound_user_is_answered_with_a_failure() {
    let mut broker = BoardManagerActor::new();
    register(&mut broker, 1, "b1");
    let sent = broker.program_bitstream_to_board(ProgramBitstreamToBoard {
        user: 10,
        user_name: "alice".to_string(),
        data: vec![1, 2, 3],
    });
    assert_eq!(
        sent,
        Delivery::SendToUser(10, SendToUser { action: WSBoardMessageB2S::ProgramBitstreamFinish(false) })
    );
    assert_eq!(broker.get_board_list(GetBoardList).0, vec![idle("b1")]);
}

#[test]
fn route_to_user_reaches_the_user_of_the_board() {
    let mut broker = BoardManagerActor::new();
    register(&mut broker, 1, "b1");
    register(&mut broker, 2, "b2");
    request(&mut broker, 10, "alice");
    let report = WSBoardMessageB2S::ReportIOChange(IOSetting { mask: None, data: Some("1111".to_string()) });
    let sent = broker.route_to_user(RouteToUser { addr: 2, info: info("b2"), action: report.clone() });
    assert_eq!(sent, Some(Delivery::SendToUser(10, SendToUser { action: report.clone() })));
    let idle_board = broker.route_to_user(RouteToUser { addr: 1, info: info("b1"), action: report.clone() });
    assert_eq!(idle_board, None);
    let unknown = broker.route_to_user(RouteToUser { addr: 3, info: info("b3"), action: report });
    assert_eq!(unknown, None);
}

#[test]
fn send_by_remote_reaches_bound_board() {
    let mut broker = BoardManagerActor::new();
    register(&mut broker, 1, "b1");
    assert_eq!(request(&mut broker, 10, "alice"), vec![answer(10, Some("b1"))]);
    let sent = broker.send_to_board_by_remote(SendToBoardByRemote {
        remote: "b1".to_string(),
        action: ident(true),
    });
    assert_eq!(sent, Some(Delivery::SendToBoard(1, SendToBoard { action: ident(true) })));
    let missed = broker.send_to_board_by_remote(SendToBoardByRemote {
        remote: "nope".to_string(),
        action: ident(true),
    });
    assert_eq!(missed, None);
}

#[test]
fn send_by_remote_reaches_idle_board() {
    let mut broker = BoardManagerActor::new();
    register(&mut broker, 1, "b1");
    register(&mut broker, 2, "b2");
    let sent = broker.send_to_board_by_remote(SendToBoardByRemote {
        remote: "b2".to_string(),
        action: ident(false),
    });
    assert_eq!(sent, Some(Delivery::SendToBoard(2, SendToBoard { action: ident(false) })));
}

#[test]
fn send_by_remote_prefers_a_bound_board_and_then_the_lowest_idle_one() {
    let mut broker = BoardManagerActor::new();
    register(&mut broker, 1, "same");
    register(&mut broker, 2, "same");
    register(&mut broker, 3, "same");
    let lowest = broker.send_to_board_by_remote(SendToBoardByRemote {
        remote: "same".to_string(),
        action: ident(true),
    });
    assert_eq!(lowest, Some(Delivery::SendToBoard(1, SendToBoard { action: ident(true) })));
    request(&mut broker, 10, "alice");
    let bound_one = broker.send_to_board_by_remote(SendToBoardByRemote {
        remote: "same".to_string(),
        action: ident(true),
    });
    assert_eq!(bound_one, Some(Delivery::SendToBoard(3, SendToBoard { action: ident(true) })));
}

#[test]
fn boards_with_the_same_description_are_distinct_handles() {
    let mut broker = BoardManagerActor::new();
    register(&mut broker, 1, "twin");
    register(&mut broker, 2, "twin");
    assert_eq!(request(&mut broker, 10, "alice"), vec![answer(10, Some("twin"))]);
    assert_eq!(request(&mut broker, 11, "bob"), vec![answer(11, Some("twin"))]);
    assert_eq!(route(&broker, 10, "alice"), Some(Delivery::SendToBoard(2, SendToBoard { action: ident(true) })));
    assert_eq!(route(&broker, 11, "bob"), Some(Delivery::SendToBoard(1, SendToBoard { action: ident(true) })));
}

#[test]
fn sweep_with_everyone_alive_changes_nothing() {
    let mut broker = BoardManagerActor::new();
    register(&mut broker, 1, "b1");
    register(&mut broker, 2, "b2");
    request(&mut broker, 10, "alice");
    assert_eq!(broker.reconcile(&vec![], &vec![]), vec![]);
    assert_eq!(broker.get_board_list(GetBoardList).0, vec![bound("b2", "alice"), idle("b1")]);
}

#[test]
fn sweep_drops_dead_idle_boards_and_keeps_the_order_of_the_others() {
    let mut broker = BoardManagerActor::new();
    register(&mut broker, 1, "b1");
    register(&mut broker, 2, "b2");
    register(&mut broker, 3, "b3");
    register(&mut broker, 4, "b4");
    assert_eq!(broker.reconcile(&vec![2, 4], &vec![]), vec![]);
    assert_eq!(broker.get_board_list(GetBoardList).0, vec![idle("b1"), idle("b3")]);
    assert_eq!(request(&mut broker, 10, "alice"), vec![answer(10, Some("b3"))]);
}

#[test]
fn sweep_after_a_dead_user_puts_the_board_back_on_top() {
    let mut broker = BoardManagerActor::new();
    register(&mut broker, 1, "b1");
    register(&mut broker, 2, "b2");
    request(&mut broker, 10, "alice");
    assert_eq!(broker.reconcile(&vec![], &vec![10]), vec![]);
    assert_eq!(broker.get_board_list(GetBoardList).0, vec![idle("b1"), idle("b2")]);
    assert_eq!(route(&broker, 10, "alice"), None);
    assert_eq!(request(&mut broker, 11, "bob"), vec![answer(11, Some("b2"))]);
}

#[test]
fn sweep_after_a_dead_board_notifies_the_user_once() {
    let mut broker = BoardManagerActor::new();
    register(&mut broker, 1, "b1");
    register(&mut broker, 2, "b2");
    request(&mut broker, 10, "alice");
    assert_eq!(broker.reconcile(&vec![2], &vec![]), vec![kicked(10)]);
    assert_eq!(broker.get_board_list(GetBoardList).0, vec![idle("b1")]);
    assert_eq!(route(&broker, 10, "alice"), None);
    assert_eq!(broker.reconcile(&vec![2], &vec![]), vec![]);
}

#[test]
fn sweep_after_both_sides_died_drops_the_binding_silently() {
    let mut broker = BoardManagerActor::new();
    register(&mut broker, 1, "b1");
    request(&mut broker, 10, "alice");
    assert_eq!(broker.reconcile(&vec![1], &vec![10]), vec![]);
    assert_eq!(broker.get_board_list(GetBoardList).0, vec![]);
}

#[test]
fn sweep_treats_each_binding_by_its_own_sides() {
    let mut broker = BoardManagerActor::new();
    register(&mut broker, 1, "b1");
    register(&mut broker, 2, "b2");
    register(&mut broker, 3, "b3");
    register(&mut broker, 4, "b4");
    request(&mut broker, 10, "alice");
    request(&mut broker, 11, "bob");
    request(&mut broker, 12, "carol");
    assert_eq!(broker.reconcile(&vec![3], &vec![10, 12]), vec![kicked(11)]);
    let mut list = broker.get_board_list(GetBoardList).0;
    assert_eq!(list.remove(0), idle("b1"));
    list.sort_by(|a, b| a.board.remote.cmp(&b.board.remote));
    assert_eq!(list, vec![idle("b2"), idle("b4")]);
    assert_eq!(route(&broker, 11, "bob"), None);
}

#[test]
fn board_and_user_connections_are_told_apart() {
    let mut broker = BoardManagerActor::new();
    register(&mut broker, 5, "b5");
    request(&mut broker, 5, "alice");
    assert_eq!(broker.reconcile(&vec![], &vec![5]), vec![]);
    assert_eq!(broker.get_board_list(GetBoardList).0, vec![idle("b5")]);
    request(&mut broker, 5, "alice");
    assert_eq!(broker.reconcile(&vec![5], &vec![]), vec![kicked(5)]);
    assert_eq!(broker.get_board_list(GetBoardList).0, vec![]);
}

#[test]
fn a_board_that_registers_twice_loses_its_first_user() {
    let mut broker = BoardManagerActor::new();
    register(&mut broker, 1, "b1");
    register(&mut broker, 1, "b1");
    assert_eq!(request(&mut broker, 10, "alice"), vec![answer(10, Some("b1"))]);
    assert_eq!(request(&mut broker, 11, "bob"), vec![answer(11, Some("b1"))]);
    assert_eq!(broker.get_board_list(GetBoardList).0, vec![bound("b1", "bob")]);
    assert_eq!(route(&broker, 10, "alice"), None);
}

fn assert_bijection(broker: &BoardManagerActor) {
    let list = broker.get_board_list(GetBoardList).0;
    for (i, a) in list.iter().enumerate() {
        for b in list.iter().skip(i + 1) {
            assert_ne!(a.board.remote, b.board.remote);
            if a.connected_user.is_some() {
                assert_ne!(a.connected_user, b.connected_user);
            }
        }
    }
}

#[test]
fn no_board_is_listed_twice_and_no_user_is_bound_twice() {
    let mut broker = BoardManagerActor::new();
    let names = ["alice", "bob", "carol", "dave"];
    for round in 0..40u64 {
        register(&mut broker, 100 + round, &format!("b{}", round));
        assert_bijection(&broker);
        let name = names[(round % 4) as usize];
        request(&mut broker, round, name);
        assert_bijection(&broker);
        if round % 3 == 0 {
            request(&mut broker, 1000 + round, names[((round + 1) % 4) as usize]);
            assert_bijection(&broker);
        }
        if round % 5 == 0 {
            broker.reconcile(&vec![100 + round, 99 + round], &vec![round.saturating_sub(2)]);
            assert_bijection(&broker);
        }
    }
    let list = broker.get_board_list(GetBoardList).0;
    let bound_count = list.iter().filter(|entry| entry.connected_user.is_some()).count();
    assert!(bound_count <= 4);
}
