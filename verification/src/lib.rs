//! A broker that matches remote users to lab boards.
//!
//! Boards and users reach the broker over persistent connections, each of
//! which is known here by an integer handle. The broker keeps the boards that
//! wait for a user on a stack, keeps the bindings between users and boards in
//! a bijective map, and answers every request with the messages that are to
//! be delivered to the connections concerned.

pub mod board_list;
pub mod board_manager;
pub mod broker_state;
pub mod common;
pub mod connections;
pub mod handles;
pub mod laws;
pub mod online_users;
pub mod task_manager;
pub mod ws_board;
pub mod ws_user;
