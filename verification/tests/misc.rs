use board_broker::board_list::BoardInfo2;
use board_broker::board_list::BoardInfoList;
use board_broker::common::get_timestamp;
use board_broker::common::timestamp_from;
use board_broker::common::ClockSetting;
use board_broker::connections::both_alive;
use board_broker::connections::listed;
use board_broker::handles::BoardInfo;
use board_broker::handles::BoardStat;
use board_broker::handles::UserStat;
use board_broker::online_users::OnlineUsers;
use board_broker::task_manager::monitor_step;
use board_broker::task_manager::MonitorStep;
use board_broker::task_manager::SubmitBuildTask;
use board_broker::task_manager::WorkingTask;
use board_broker::task_manager::TASK_TIMEOUT;

fn info(remote: &str) -> BoardInfo {
    BoardInfo {
        remote: remote.to_string(),
        software_version: "1.0".to_string(),
        hardware_version: "0.1".to_string(),
    }
}

#[test]
fn timestamp_is_of_this_century() {
    let now = get_timestamp();
    assert!(now > 1_500_000_000);
    assert!(now < 4_102_444_800);
    assert!(get_timestamp() >= now);
}

#[test]
fn timestamp_is_the_reading_or_zero() {
    assert_eq!(timestamp_from(Some(1_600_000_000)), 1_600_000_000);
    assert_eq!(timestamp_from(Some(0)), 0);
    assert_eq!(timestamp_from(Some(u64::MAX)), u64::MAX);
    assert_eq!(timestamp_from(None), 0);
}

#[test]
fn board_handles_are_equal_by_connection() {
    let a = BoardStat { addr: 1, info: info("b1") };
    let same_connection = BoardStat { addr: 1, info: info("other") };
    let same_description = BoardStat { addr: 2, info: info("b1") };
    assert!(a == same_connection);
    assert!(a != same_description);
    let copy = a.clone();
    assert_eq!(copy.addr, 1);
    assert_eq!(copy.info, info("b1"));
}

#[test]
fn user_handles_are_equal_by_name() {
    let a = UserStat { addr: 1, user_name: "alice".to_string() };
    let same_name = UserStat { addr: 2, user_name: "alice".to_string() };
    let same_connection = UserStat { addr: 1, user_name: "bob".to_string() };
    assert!(a == same_name);
    assert!(a != same_connection);
}

#[test]
fn listed_finds_an_address() {
    assert!(!listed(&vec![], 1));
    assert!(listed(&vec![3, 1, 2], 1));
    assert!(listed(&vec![3, 1, 2], 2));
    assert!(!listed(&vec![3, 1, 2], 4));
}

#[test]
fn a_pair_is_alive_while_both_sides_are() {
    let user = UserStat { addr: 1, user_name: "alice".to_string() };
    let board = BoardStat { addr: 1, info: info("b1") };
    assert!(both_alive(&user, &board, &vec![], &vec![]));
    assert!(both_alive(&user, &board, &vec![2], &vec![3]));
    assert!(!both_alive(&user, &board, &vec![1], &vec![]));
    assert!(!both_alive(&user, &board, &vec![], &vec![1]));
    assert!(!both_alive(&user, &board, &vec![1], &vec![1]));
}

#[test]
fn board_list_counts_boards_and_assigned_boards() {
    let empty = BoardInfoList(vec![]);
    assert_eq!(empty.board_count(), 0);
    assert_eq!(empty.assigned_board_count(), 0);
    let list = BoardInfoList(vec![
        BoardInfo2 { board: info("b1"), connected_user: Some("alice".to_string()) },
        BoardInfo2 { board: info("b2"), connected_user: None },
        BoardInfo2 { board: info("b3"), connected_user: Some("bob".to_string()) },
    ]);
    assert_eq!(list.board_count(), 3);
    assert_eq!(list.assigned_board_count(), 2);
}

#[test]
fn online_users_count_sessions_by_name() {
    let mut users = OnlineUsers::new();
    assert_eq!(users.session_count(&"alice".to_string()), 0);
    users.join("alice".to_string());
    users.join("bob".to_string());
    users.join("alice".to_string());
    assert_eq!(users.names, vec!["alice".to_string(), "bob".to_string(), "alice".to_string()]);
    assert_eq!(users.session_count(&"alice".to_string()), 2);
    assert_eq!(users.session_count(&"bob".to_string()), 1);
    assert_eq!(users.session_count(&"carol".to_string()), 0);
}

#[test]
fn leaving_takes_out_the_first_session_of_the_name() {
    let mut users = OnlineUsers::new();
    users.join("bob".to_string());
    users.join("alice".to_string());
    users.join("carol".to_string());
    users.join("alice".to_string());
    users.leave(&"alice".to_string());
    assert_eq!(users.names, vec!["bob".to_string(), "carol".to_string(), "alice".to_string()]);
    users.leave(&"dave".to_string());
    assert_eq!(users.names, vec!["bob".to_string(), "carol".to_string(), "alice".to_string()]);
    users.leave(&"alice".to_string());
    users.leave(&"bob".to_string());
    assert_eq!(users.names, vec!["carol".to_string()]);
}

#[test]
fn monitor_removes_what_is_done_or_lost() {
    assert_eq!(monitor_step(WorkingTask::Unreadable, 1000), MonitorStep::Remove);
    assert_eq!(monitor_step(WorkingTask::Orphan, 1000), MonitorStep::Remove);
    assert_eq!(monitor_step(WorkingTask::Finished, 1000), MonitorStep::Remove);
}

#[test]
fn monitor_restarts_a_task_after_five_minutes() {
    assert_eq!(TASK_TIMEOUT, 300);
    assert_eq!(monitor_step(WorkingTask::Running(1000), 1000), MonitorStep::Wait);
    assert_eq!(monitor_step(WorkingTask::Running(1000), 1300), MonitorStep::Wait);
    assert_eq!(monitor_step(WorkingTask::Running(1000), 1301), MonitorStep::Restart);
    assert_eq!(monitor_step(WorkingTask::Running(2000), 1000), MonitorStep::Wait);
}

#[test]
fn build_task_and_clock_setting_hold_their_fields() {
    let task = SubmitBuildTask {
        id: "id".to_string(),
        src: "src".to_string(),
        dst: "dst".to_string(),
        timestamp: 7,
    };
    assert_eq!(task.clone(), task);
    assert_eq!(ClockSetting { frequency: 50 }.frequency, 50);
}
