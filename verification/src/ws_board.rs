//! The board-facing protocol and the session of one board.

use crate::board_manager::RegisterBoard;
use crate::board_manager::RouteToUser;
use crate::common::elapsed;
use crate::common::heartbeat;
use crate::common::Heartbeat;
use crate::common::IOSetting;
use crate::handles::BoardInfo;
use vstd::prelude::*;

verus! {

/// What a board sends to authenticate.
#[derive(Debug, Clone, PartialEq, Eq)]
pub struct AuthenticateArgs {
    pub password: String,
    pub software_version: String,
    pub hardware_version: String,
}

/// A message from a board to the server.
#[derive(Debug, Clone, PartialEq, Eq)]
pub enum WSBoardMessageB2S {
    Authenticate(AuthenticateArgs),
    ProgramBitstreamFinish(bool),
    ReportIOChange(IOSetting),
}

/// A command from the server to a board.
#[derive(Debug, Clone, PartialEq, Eq)]
pub enum WSBoardMessageS2B {
    SetIOOutput(IOSetting),
    SetIODirection(IOSetting),
    SubscribeIOChange(String),
    UnsubscribeIOChange(String),
    EnableUserClock(u64),
    DisableUserClock(String),
    Ident(bool),
}

/// Asks a board session to pass a command on to its board.
#[derive(Debug, Clone, PartialEq, Eq)]
pub struct SendToBoard {
    pub action: WSBoardMessageS2B,
}

/// Asks a board session to pass a bitstream on to its board.
#[derive(Debug, Clone, PartialEq, Eq)]
pub struct ProgramBitstream {
    pub data: Vec<u8>,
}

/// A board session pings its board at this interval, in milliseconds.
pub const BOARD_PING_INTERVAL: u64 = 20000;

/// A board session gives its board up after this many milliseconds without
/// an answer.
pub const BOARD_TIMEOUT: u64 = 60000;

/// What arrives on the connection of a board.
#[derive(Debug, Clone, PartialEq, Eq)]
pub enum BoardFrame {
    /// A ping with its payload.
    Ping(Vec<u8>),
    /// The answer to a ping.
    Pong,
    /// A text frame: the message that it holds, or `None` where it holds
    /// none.
    Text(Option<WSBoardMessageB2S>),
    /// A binary frame.
    Binary,
    /// The peer closes the connection.
    Close,
    /// Any other frame, and a fault of the transport.
    Other,
}

/// What a board session does about a frame.
#[derive(Debug, Clone, PartialEq, Eq)]
pub enum BoardReaction {
    /// Nothing.
    Nothing,
    /// Answer the ping with this payload.
    Pong(Vec<u8>),
    /// Register the board with the broker.
    Register(RegisterBoard),
    /// Hand the message to the broker for the user of the board.
    Route(RouteToUser),
    /// Close the connection.
    Stop,
}

/// The session of one board: what is known of the board and when it was
/// last heard.
#[derive(Debug, Clone, PartialEq, Eq)]
pub struct WSBoard {
    pub addr: u64,
    pub remote: String,
    pub authenticated: bool,
    pub software_version: String,
    pub hardware_version: String,
    pub last_heartbeat: u64,
}

impl WSBoard {
    /// The description of the board as the session knows it.
    pub open spec fn info(self) -> BoardInfo {
        BoardInfo {
            remote: self.remote,
            software_version: self.software_version,
            hardware_version: self.hardware_version,
        }
    }

    /// The session after the frame. A pong renews the heartbeat of an
    /// authenticated board, and the right password authenticates a board
    /// and sets its versions; nothing else changes the session.
    pub open spec fn after(self, frame: BoardFrame, expected: Seq<char>, now: u64) -> WSBoard {
        match frame {
            BoardFrame::Pong => if self.authenticated {
                WSBoard { last_heartbeat: now, ..self }
            } else {
                self
            },
            BoardFrame::Text(Some(WSBoardMessageB2S::Authenticate(auth))) => if !self.authenticated
                && auth.password@ == expected {
                WSBoard {
                    authenticated: true,
                    software_version: auth.software_version,
                    hardware_version: auth.hardware_version,
                    ..self
                }
            } else {
                self
            },
            _ => self,
        }
    }

    /// What the session does about the frame. Before authentication only
    /// the right password is accepted, and the board is then registered;
    /// afterwards every other message goes to the user of the board.
    pub open spec fn reaction(self, frame: BoardFrame, expected: Seq<char>) -> BoardReaction {
        match frame {
            BoardFrame::Ping(payload) => BoardReaction::Pong(payload),
            BoardFrame::Pong => BoardReaction::Nothing,
            BoardFrame::Text(Some(WSBoardMessageB2S::Authenticate(auth))) => if self.authenticated {
                BoardReaction::Nothing
            } else if auth.password@ == expected {
                BoardReaction::Register(
                    RegisterBoard {
                        addr: self.addr,
                        info: BoardInfo {
                            remote: self.remote,
                            software_version: auth.software_version,
                            hardware_version: auth.hardware_version,
                        },
                    },
                )
            } else {
                BoardReaction::Stop
            },
            BoardFrame::Text(Some(message)) => if self.authenticated {
                BoardReaction::Route(RouteToUser { addr: self.addr, info: self.info(), action: message })
            } else {
                BoardReaction::Stop
            },
            BoardFrame::Text(None) => BoardReaction::Stop,
            BoardFrame::Binary => BoardReaction::Nothing,
            BoardFrame::Close => BoardReaction::Stop,
            BoardFrame::Other => BoardReaction::Stop,
        }
    }

    /// The session of a board that has just connected on `addr` from
    /// `remote`.
    pub fn new(addr: u64, remote: &str, now: u64) -> (r: Self)
        ensures
            r.addr == addr,
            r.remote@ == remote@,
            !r.authenticated,
            r.software_version@ == "Unknown"@,
            r.hardware_version@ == "Unknown"@,
            r.last_heartbeat == now,
    {
        WSBoard {
            addr,
            remote: remote.to_owned(),
            authenticated: false,
            software_version: "Unknown".to_owned(),
            hardware_version: "Unknown".to_owned(),
            last_heartbeat: now,
        }
    }

    /// Takes a frame at the time `now`, with `expected` the password that
    /// boards must present.
    pub fn handle(&mut self, frame: BoardFrame, expected: &String, now: u64) -> (r: BoardReaction)
        ensures
            *final(self) == old(self).after(frame, expected@, now),
            r == old(self).reaction(frame, expected@),
    {
        match frame {
            BoardFrame::Ping(payload) => BoardReaction::Pong(payload),
            BoardFrame::Pong => {
                if self.authenticated {
                    self.last_heartbeat = now;
                }
                BoardReaction::Nothing
            },
            BoardFrame::Text(Some(WSBoardMessageB2S::Authenticate(auth))) => {
                if self.authenticated {
                    BoardReaction::Nothing
                } else if auth.password == *expected {
                    self.authenticated = true;
                    self.software_version = auth.software_version;
                    self.hardware_version = auth.hardware_version;
                    BoardReaction::Register(RegisterBoard { addr: self.addr, info: self.board_info() })
                } else {
                    BoardReaction::Stop
                }
            },
            BoardFrame::Text(Some(message)) => {
                if self.authenticated {
                    BoardReaction::Route(
                        RouteToUser { addr: self.addr, info: self.board_info(), action: message },
                    )
                } else {
                    BoardReaction::Stop
                }
            },
            BoardFrame::Text(None) => BoardReaction::Stop,
            BoardFrame::Binary => BoardReaction::Nothing,
            BoardFrame::Close => BoardReaction::Stop,
            BoardFrame::Other => BoardReaction::Stop,
        }
    }

    /// The description of the board as the session knows it.
    pub fn board_info(&self) -> (r: BoardInfo)
        ensures
            r == self.info(),
    {
        BoardInfo {
            remote: self.remote.clone(),
            software_version: self.software_version.clone(),
            hardware_version: self.hardware_version.clone(),
        }
    }

    /// The heartbeat timer fires at the time `now`.
    pub fn on_interval(&self, now: u64) -> (r: Heartbeat)
        ensures
            r == if elapsed(now, self.last_heartbeat) > BOARD_TIMEOUT {
                Heartbeat::Stop
            } else {
                Heartbeat::Ping
            },
    {
        heartbeat(now, self.last_heartbeat, BOARD_TIMEOUT)
    }
}

} // verus!
