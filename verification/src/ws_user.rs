//! The user-facing protocol and the session of one user.

use crate::board_manager::ProgramBitstreamToBoard;
use crate::board_manager::RequestForBoard;
use crate::board_manager::RouteToBoard;
use crate::common::elapsed;
use crate::common::heartbeat;
use crate::common::Heartbeat;
use crate::common::IOSetting;
use crate::ws_board::WSBoardMessageB2S;
use crate::ws_board::WSBoardMessageS2B;
use vstd::prelude::*;
use vstd::utf8::decode_utf8;
use vstd::utf8::valid_utf8;

verus! {

/// A message from a user to the server.
#[derive(Debug, Clone, PartialEq, Eq)]
pub enum WSUserMessageU2S {
    RequestForBoard(String),
    ToBoard(WSBoardMessageS2B),
    ProgramBitstream(i32),
}

/// A message from the server to a user.
#[derive(Debug, Clone, PartialEq, Eq)]
pub enum WSUserMessageS2U {
    ReportIOChange(IOSetting),
    BoardAllocateResult(Option<String>),
    BoardDisconnected(String),
    ProgramBitstreamFinish(bool),
}

/// Tells a user session how its request for a board ended: the remote
/// address of the board that it was given, or `None`.
#[derive(Debug, Clone, PartialEq, Eq)]
pub struct RequestForBoardResult(pub Option<String>);

/// Asks a user session to pass a message of its board on to the user.
#[derive(Debug, Clone, PartialEq, Eq)]
pub struct SendToUser {
    pub action: WSBoardMessageB2S,
}

/// Tells a user session that it has lost its board.
#[derive(Debug, Clone, Copy, PartialEq, Eq)]
pub struct BoardDisconnected;

/// A user session pings its user at this interval, in milliseconds.
pub const USER_PING_INTERVAL: u64 = 5000;

/// A user session gives its user up after this many milliseconds without an
/// answer.
pub const USER_TIMEOUT: u64 = 30000;

/// One part of a message that arrives in several frames.
#[derive(Debug, Clone, PartialEq, Eq)]
pub enum Item {
    FirstText(Vec<u8>),
    FirstBinary(Vec<u8>),
    Continue(Vec<u8>),
    Last(Vec<u8>),
}

/// What arrives on the connection of a user.
#[derive(Debug, Clone, PartialEq, Eq)]
pub enum UserFrame {
    /// A ping with its payload.
    Ping(Vec<u8>),
    /// The answer to a ping.
    Pong,
    /// A text frame.
    Text(String),
    /// A binary frame.
    Binary,
    /// One part of a message in several frames.
    Continuation(Item),
    /// The peer closes the connection.
    Close,
    /// Any other frame, and a fault of the transport.
    Other,
}

/// What a user session does about a frame.
#[derive(Debug, Clone, PartialEq, Eq)]
pub enum UserReaction {
    /// Nothing.
    Nothing,
    /// Answer the ping with this payload.
    Pong(Vec<u8>),
    /// A text is complete: decode it and hand the message to
    /// `handle_message`.
    Message(String),
    /// Close the connection.
    Stop,
}

/// A reaction with its payload as a sequence.
pub enum UserReactionView {
    Nothing,
    Pong(Seq<u8>),
    Message(Seq<char>),
    Stop,
}

impl View for UserReaction {
    type V = UserReactionView;

    open spec fn view(&self) -> UserReactionView {
        match *self {
            UserReaction::Nothing => UserReactionView::Nothing,
            UserReaction::Pong(payload) => UserReactionView::Pong(payload@),
            UserReaction::Message(text) => UserReactionView::Message(text@),
            UserReaction::Stop => UserReactionView::Stop,
        }
    }
}

/// What a user session asks for after a message of its user.
#[derive(Debug, Clone, PartialEq, Eq)]
pub enum UserRequest {
    /// Nothing.
    Nothing,
    /// Ask the broker for a board.
    Request(RequestForBoard),
    /// Hand the command to the broker for the board of the user.
    Route(RouteToBoard),
    /// Look the job up and hand what is found to `on_job`.
    FindJob(i32),
    /// Close the connection.
    Stop,
}

/// What a user session reads of a build job.
#[derive(Debug, Clone, PartialEq, Eq)]
pub struct JobRecord {
    pub submitter: String,
    pub status: Option<String>,
    pub destination: Option<String>,
}

/// What a user session does once a job has been looked up.
#[derive(Debug, Clone, PartialEq, Eq)]
pub enum BitstreamStep {
    /// Fetch the bitstream from this place and hand it to `on_download`.
    Download(String),
    /// Tell the user that programming did not succeed.
    Refuse(WSUserMessageS2U),
}

/// The session of one user.
#[derive(Debug, Clone, PartialEq, Eq)]
pub struct WSUser {
    pub addr: u64,
    pub user_name: String,
    pub remote: String,
    pub last_heartbeat: u64,
    pub has_board: bool,
    pub text_buffer: Option<Vec<u8>>,
}

/// `String::from_utf8`: the text that the bytes encode in UTF-8, or `None`
/// where they encode none.
#[verifier::external_body]
fn text_of(bytes: Vec<u8>) -> (r: Option<String>)
    ensures
        match r {
            Some(text) => valid_utf8(bytes@) && text@ == decode_utf8(bytes@),
            None => !valid_utf8(bytes@),
        },
{
    String::from_utf8(bytes).ok()
}

impl WSUser {
    /// The bytes of a message in several frames that have arrived so far.
    pub open spec fn pending(self) -> Option<Seq<u8>> {
        match self.text_buffer {
            Some(bytes) => Some(bytes@),
            None => None,
        }
    }

    /// The bytes that are held back after the frame: a first part opens the
    /// buffer, a further part is added to an open buffer, and the last part
    /// empties it.
    pub open spec fn pending_after(self, frame: UserFrame) -> Option<Seq<u8>> {
        match frame {
            UserFrame::Continuation(Item::FirstText(bytes)) => Some(bytes@),
            UserFrame::Continuation(Item::Continue(bytes)) => match self.pending() {
                Some(held) => Some(held + bytes@),
                None => None,
            },
            UserFrame::Continuation(Item::Last(_)) => None,
            _ => self.pending(),
        }
    }

    /// What the session does about the frame. A text frame is a complete
    /// text, and so are the parts of an open buffer together with the last
    /// part, where they are UTF-8.
    pub open spec fn reaction(self, frame: UserFrame) -> UserReactionView {
        match frame {
            UserFrame::Ping(payload) => UserReactionView::Pong(payload@),
            UserFrame::Pong => UserReactionView::Nothing,
            UserFrame::Text(text) => UserReactionView::Message(text@),
            UserFrame::Binary => UserReactionView::Nothing,
            UserFrame::Continuation(Item::Last(bytes)) => match self.pending() {
                Some(held) => if valid_utf8(held + bytes@) {
                    UserReactionView::Message(decode_utf8(held + bytes@))
                } else {
                    UserReactionView::Nothing
                },
                None => UserReactionView::Nothing,
            },
            UserFrame::Continuation(_) => UserReactionView::Nothing,
            UserFrame::Close => UserReactionView::Stop,
            UserFrame::Other => UserReactionView::Stop,
        }
    }

    /// What the session asks for after a message: a board only while it has
    /// none, a command for the board only while it has one, and the job of
    /// a bitstream at any time. Where the text held no message, the
    /// session closes.
    pub open spec fn request(self, message: Option<WSUserMessageU2S>) -> UserRequest {
        match message {
            Some(WSUserMessageU2S::RequestForBoard(_)) => if self.has_board {
                UserRequest::Nothing
            } else {
                UserRequest::Request(RequestForBoard { user: self.addr, user_name: self.user_name })
            },
            Some(WSUserMessageU2S::ToBoard(action)) => if self.has_board {
                UserRequest::Route(RouteToBoard { user: self.addr, user_name: self.user_name, action })
            } else {
                UserRequest::Nothing
            },
            Some(WSUserMessageU2S::ProgramBitstream(job_id)) => UserRequest::FindJob(job_id),
            None => UserRequest::Stop,
        }
    }

    /// The job is finished, has a bitstream, and belongs to the user of the
    /// session.
    pub open spec fn may_program(self, job: JobRecord) -> bool {
        job.status.is_some() && job.destination.is_some() && job.submitter@ == self.user_name@
    }

    /// The session of the user `user_name`, who has just connected on `addr`
    /// from `remote`.
    pub fn new(addr: u64, remote: &str, user_name: &str, now: u64) -> (r: Self)
        ensures
            r.addr == addr,
            r.remote@ == remote@,
            r.user_name@ == user_name@,
            r.last_heartbeat == now,
            !r.has_board,
            r.text_buffer.is_none(),
    {
        WSUser {
            addr,
            user_name: user_name.to_owned(),
            remote: remote.to_owned(),
            last_heartbeat: now,
            has_board: false,
            text_buffer: None,
        }
    }

    /// Takes a frame at the time `now`. A pong renews the heartbeat; the
    /// parts of a message in several frames are held back until the last
    /// one.
    pub fn handle(&mut self, frame: UserFrame, now: u64) -> (r: UserReaction)
        ensures
            r@ == old(self).reaction(frame),
            final(self).pending() == old(self).pending_after(frame),
            final(self).last_heartbeat == if frame == UserFrame::Pong {
                now
            } else {
                old(self).last_heartbeat
            },
            final(self).addr == old(self).addr,
            final(self).user_name == old(self).user_name,
            final(self).remote == old(self).remote,
            final(self).has_board == old(self).has_board,
    {
        match frame {
            UserFrame::Ping(payload) => UserReaction::Pong(payload),
            UserFrame::Pong => {
                self.last_heartbeat = now;
                UserReaction::Nothing
            },
            UserFrame::Text(text) => UserReaction::Message(text),
            UserFrame::Binary => UserReaction::Nothing,
            UserFrame::Continuation(Item::FirstText(bytes)) => {
                self.text_buffer = Some(bytes);
                UserReaction::Nothing
            },
            UserFrame::Continuation(Item::FirstBinary(_)) => UserReaction::Nothing,
            UserFrame::Continuation(Item::Continue(bytes)) => {
                let mut bytes = bytes;
                match self.text_buffer.take() {
                    Some(held) => {
                        let mut held = held;
                        held.append(&mut bytes);
                        self.text_buffer = Some(held);
                    },
                    None => {},
                }
                UserReaction::Nothing
            },
            UserFrame::Continuation(Item::Last(bytes)) => {
                let mut bytes = bytes;
                match self.text_buffer.take() {
                    Some(held) => {
                        let mut held = held;
                        held.append(&mut bytes);
                        match text_of(held) {
                            Some(text) => UserReaction::Message(text),
                            None => UserReaction::Nothing,
                        }
                    },
                    None => UserReaction::Nothing,
                }
            },
            UserFrame::Close => UserReaction::Stop,
            UserFrame::Other => UserReaction::Stop,
        }
    }

    /// Takes the message that a complete text held, or `None` where it held
    /// none.
    pub fn handle_message(&self, message: Option<WSUserMessageU2S>) -> (r: UserRequest)
        ensures
            r == self.request(message),
    {
        match message {
            Some(WSUserMessageU2S::RequestForBoard(_)) => {
                if self.has_board {
                    UserRequest::Nothing
                } else {
                    UserRequest::Request(
                        RequestForBoard { user: self.addr, user_name: self.user_name.clone() },
                    )
                }
            },
            Some(WSUserMessageU2S::ToBoard(action)) => {
                if self.has_board {
                    UserRequest::Route(
                        RouteToBoard { user: self.addr, user_name: self.user_name.clone(), action },
                    )
                } else {
                    UserRequest::Nothing
                }
            },
            Some(WSUserMessageU2S::ProgramBitstream(job_id)) => UserRequest::FindJob(job_id),
            None => UserRequest::Stop,
        }
    }

    /// Takes the job that a bitstream was asked for, or `None` where it was
    /// not found. The bitstream is fetched only for a finished job of this
    /// user that has one; else the user is told that programming did not
    /// succeed.
    pub fn on_job(&self, job: Option<JobRecord>) -> (r: BitstreamStep)
        ensures
            r == match job {
                Some(found) => if self.may_program(found) {
                    BitstreamStep::Download(found.destination.unwrap())
                } else {
                    BitstreamStep::Refuse(WSUserMessageS2U::ProgramBitstreamFinish(false))
                },
                None => BitstreamStep::Refuse(WSUserMessageS2U::ProgramBitstreamFinish(false)),
            },
    {
        match job {
            Some(found) => {
                let finished = found.status.is_some();
                let mine = found.submitter == self.user_name;
                match found.destination {
                    Some(place) => {
                        if finished && mine {
                            BitstreamStep::Download(place)
                        } else {
                            BitstreamStep::Refuse(WSUserMessageS2U::ProgramBitstreamFinish(false))
                        }
                    },
                    None => BitstreamStep::Refuse(WSUserMessageS2U::ProgramBitstreamFinish(false)),
                }
            },
            None => BitstreamStep::Refuse(WSUserMessageS2U::ProgramBitstreamFinish(false)),
        }
    }

    /// Takes the bitstream that was fetched, or `None` where fetching
    /// failed: the bitstream goes to the broker for the board of the user.
    pub fn on_download(&self, data: Option<Vec<u8>>) -> (r: Option<ProgramBitstreamToBoard>)
        ensures
            r == match data {
                Some(bytes) => Some(
                    ProgramBitstreamToBoard { user: self.addr, user_name: self.user_name, data: bytes },
                ),
                None => None,
            },
    {
        match data {
            Some(bytes) => Some(
                ProgramBitstreamToBoard { user: self.addr, user_name: self.user_name.clone(), data: bytes },
            ),
            None => None,
        }
    }

    /// Takes the answer of the broker to a request for a board, and returns
    /// what to tell the user.
    pub fn on_request_result(&mut self, result: RequestForBoardResult) -> (r: WSUserMessageS2U)
        ensures
            r == WSUserMessageS2U::BoardAllocateResult(result.0),
            final(self).has_board == result.0.is_some(),
            final(self).addr == old(self).addr,
            final(self).user_name == old(self).user_name,
            final(self).remote == old(self).remote,
            final(self).last_heartbeat == old(self).last_heartbeat,
            final(self).text_buffer == old(self).text_buffer,
    {
        self.has_board = result.0.is_some();
        WSUserMessageS2U::BoardAllocateResult(result.0)
    }

    /// Takes the notice that the board is lost, and returns what to tell
    /// the user.
    pub fn on_board_disconnected(&mut self, _notice: BoardDisconnected) -> (r: WSUserMessageS2U)
        ensures
            r matches WSUserMessageS2U::BoardDisconnected(text) && text@.len() == 0,
            !final(self).has_board,
            final(self).addr == old(self).addr,
            final(self).user_name == old(self).user_name,
            final(self).remote == old(self).remote,
            final(self).last_heartbeat == old(self).last_heartbeat,
            final(self).text_buffer == old(self).text_buffer,
    {
        self.has_board = false;
        WSUserMessageS2U::BoardDisconnected(String::new())
    }

    /// The heartbeat timer fires at the time `now`.
    pub fn on_interval(&self, now: u64) -> (r: Heartbeat)
        ensures
            r == if elapsed(now, self.last_heartbeat) > USER_TIMEOUT {
                Heartbeat::Stop
            } else {
                Heartbeat::Ping
            },
    {
        heartbeat(now, self.last_heartbeat, USER_TIMEOUT)
    }
}

} // verus!
