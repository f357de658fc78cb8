//! The broker's side of a connection: where it listens, how it reads a
//! message, and what it does between reading one and answering it.

use crate::client::connector::{gathered, read_step, ReadStep};
use crate::client::error::Error;
use crate::client::message::StaticReplies;
use crate::manager::{error_reply, Reply, ReplyView, WorkItem};
use crate::message::{ipc_of, IpcMessage, Message, Session};
use crate::{CHUNK_SIZE, SERVER_ADDRESS};
use vstd::prelude::*;

verus! {

/// The state of a connection.
#[derive(Debug, PartialEq, Eq, Clone, Copy)]
pub enum ConnectionState {
    /// The connection waits for a message from its peer, or for the end of
    /// a write to it.
    Reading,
    /// A message is with the task manager; the connection waits for the
    /// answer.
    AwaitingReply,
    /// The peer is gone.
    Closed,
}

/// How the reading of one message from a peer ended.
#[derive(Debug)]
pub enum ReadOutcome {
    /// The bytes of the message.
    Frame(Vec<u8>),
    /// The stream was at its end.
    Eof,
    /// Nothing was there to read yet.
    WouldBlock,
    /// The socket could not be read.
    Failed,
}

/// The model of how the reading of one message from a peer ended.
pub ghost enum ReadOutcomeView {
    Frame(Seq<u8>),
    Eof,
    WouldBlock,
    Failed,
}

impl ReadOutcome {
    pub open spec fn view(&self) -> ReadOutcomeView {
        match self {
            ReadOutcome::Frame(bytes) => ReadOutcomeView::Frame(bytes@),
            ReadOutcome::Eof => ReadOutcomeView::Eof,
            ReadOutcome::WouldBlock => ReadOutcomeView::WouldBlock,
            ReadOutcome::Failed => ReadOutcomeView::Failed,
        }
    }
}

/// What a connection has to do next.
#[derive(Debug)]
pub enum ConnectionAction {
    /// Read the next message.
    Read,
    /// Wait a moment, then read again.
    Sleep,
    /// Hand the work item to the task manager, with a fresh reply channel,
    /// and wait for the answer.
    Submit(Message),
    /// Write the answer to the peer.
    Write(Reply),
    /// Hand the work item to the task manager and end.
    Close(Message),
}

/// The model of what a connection has to do next.
pub ghost enum ConnectionActionView {
    Read,
    Sleep,
    Submit(WorkItem),
    Write(ReplyView),
    Close(WorkItem),
}

impl ConnectionAction {
    pub open spec fn view(&self) -> ConnectionActionView {
        match self {
            ConnectionAction::Read => ConnectionActionView::Read,
            ConnectionAction::Sleep => ConnectionActionView::Sleep,
            ConnectionAction::Submit(message) => ConnectionActionView::Submit(message@),
            ConnectionAction::Write(reply) => ConnectionActionView::Write(reply@),
            ConnectionAction::Close(message) => ConnectionActionView::Close(message@),
        }
    }
}

/// The state of a reading connection after a read.
pub open spec fn state_after_read(outcome: ReadOutcomeView) -> ConnectionState {
    match outcome {
        ReadOutcomeView::Frame(bytes) => if bytes.len() == 0 {
            ConnectionState::Closed
        } else if ipc_of(bytes) is Ok {
            ConnectionState::AwaitingReply
        } else {
            ConnectionState::Reading
        },
        ReadOutcomeView::Eof => ConnectionState::Closed,
        ReadOutcomeView::WouldBlock => ConnectionState::Reading,
        ReadOutcomeView::Failed => ConnectionState::Closed,
    }
}

/// What a reading connection with the peer `peer` does after a read: a
/// message goes to the task manager; bytes that are no message are answered
/// with the error of `StaticReplies::SerdeParseError`; where nothing was
/// there yet the connection waits and reads again; and where the stream
/// ended or failed the task manager is told that the peer is gone.
pub open spec fn action_after_read(peer: Seq<char>, outcome: ReadOutcomeView) -> ConnectionActionView {
    match outcome {
        ReadOutcomeView::Frame(bytes) => if bytes.len() == 0 {
            ConnectionActionView::Close(WorkItem::RemoveRegistered { peer })
        } else {
            match ipc_of(bytes) {
                Ok(message) => ConnectionActionView::Submit(WorkItem::ProcessInput { peer, message }),
                Err(_) => ConnectionActionView::Write(
                    error_reply(StaticReplies::SerdeParseError.text()),
                ),
            }
        },
        ReadOutcomeView::Eof => ConnectionActionView::Close(WorkItem::RemoveRegistered { peer }),
        ReadOutcomeView::WouldBlock => ConnectionActionView::Sleep,
        ReadOutcomeView::Failed => ConnectionActionView::Close(WorkItem::RemoveRegistered { peer }),
    }
}

/// The bytes that a connection writes for an answer from the task manager:
/// the answer as it came, or nothing where the reply channel was dropped.
pub open spec fn reply_bytes(reply: Option<Vec<u8>>) -> Seq<u8> {
    match reply {
        Some(bytes) => bytes@,
        None => Seq::empty(),
    }
}

/// One accepted connection: its peer and its state.
#[derive(Debug)]
pub struct PeerConnection {
    ip: String,
    state: ConnectionState,
}

impl PeerConnection {
    /// The peer's address.
    pub closed spec fn peer(&self) -> Seq<char> {
        self.ip@
    }

    /// The state of the connection.
    pub closed spec fn state(&self) -> ConnectionState {
        self.state
    }

    /// The peer's address.
    pub fn ip(&self) -> (r: &str)
        ensures
            r@ == self.peer(),
    {
        self.ip.as_str()
    }

    /// The state of the connection.
    pub fn current(&self) -> (r: ConnectionState)
        ensures
            r == self.state(),
    {
        self.state
    }

    fn gone(&mut self) -> (action: ConnectionAction)
        ensures
            final(self).peer() == old(self).peer(),
            final(self).state() == ConnectionState::Closed,
            action@ == ConnectionActionView::Close(
                WorkItem::RemoveRegistered { peer: old(self).peer() },
            ),
    {
        self.state = ConnectionState::Closed;
        ConnectionAction::Close(
            Message::RemoveRegistered(Session::new(IpcMessage::Empty, self.ip.clone())),
        )
    }

    /// Takes in the answer from the task manager, or the news that the reply
    /// channel was dropped: the answer, or nothing, is to be written to the
    /// peer, and the connection reads again.
    pub fn on_reply(&mut self, reply: Option<Vec<u8>>) -> (action: ConnectionAction)
        requires
            old(self).state() == ConnectionState::AwaitingReply,
        ensures
            final(self).peer() == old(self).peer(),
            final(self).state() == ConnectionState::Reading,
            action@ == ConnectionActionView::Write(ReplyView::Bytes(reply_bytes(reply))),
    {
        self.state = ConnectionState::Reading;
        match reply {
            Some(bytes) => ConnectionAction::Write(Reply::Bytes(bytes)),
            None => ConnectionAction::Write(Reply::Bytes(Vec::new())),
        }
    }

    /// Takes in how a write to the peer ended: the connection reads on
    /// after a write that went through, and ends after one that did not.
    pub fn on_write(&mut self, written: bool) -> (action: ConnectionAction)
        requires
            old(self).state() == ConnectionState::Reading,
        ensures
            final(self).peer() == old(self).peer(),
            final(self).state() == if written {
                ConnectionState::Reading
            } else {
                ConnectionState::Closed
            },
            action@ == if written {
                ConnectionActionView::Read
            } else {
                ConnectionActionView::Close(WorkItem::RemoveRegistered { peer: old(self).peer() })
            },
    {
        if written {
            ConnectionAction::Read
        } else {
            self.gone()
        }
    }
}

/// The broker's listener.
pub struct Server;

impl Server {
    /// The address to listen on: the configured one if there is one, else
    /// `SERVER_ADDRESS`.
    pub fn address(configured: Option<String>) -> (address: String)
        ensures
            address@ == match configured {
                Some(a) => a@,
                None => SERVER_ADDRESS@,
            },
    {
        match configured {
            Some(a) => a,
            None => SERVER_ADDRESS.to_owned(),
        }
    }

    /// The connection of a peer that was accepted: the peer is known by the
    /// address of its socket, and the connection reads.
    pub fn accept(ip: String) -> (connection: PeerConnection)
        ensures
            connection.peer() == ip@,
            connection.state() == ConnectionState::Reading,
    {
        PeerConnection { ip, state: ConnectionState::Reading }
    }

    /// Takes in what one read into a buffer of `CHUNK_SIZE` bytes gave. A
    /// read of no byte is the end of the stream; any other read adds its
    /// bytes to the message, and a read of less than `CHUNK_SIZE` bytes ends
    /// the message.
    pub fn read(data: &mut Vec<u8>, chunk: &[u8]) -> (step: ReadStep)
        ensures
            final(data)@ == gathered(old(data)@, chunk@),
            step == read_step(old(data)@, chunk@, CHUNK_SIZE as nat),
    {
        crate::client::connector::read(data, chunk)
    }

    /// Takes in what the bytes of a message were read as. A message goes to
    /// the task manager, and the connection waits for the answer; bytes that
    /// were no message are answered with the error of
    /// `StaticReplies::SerdeParseError`, and the connection reads on.
    pub fn handle_message(connection: &mut PeerConnection, message: Result<IpcMessage, Error>) -> (action:
        ConnectionAction)
        requires
            old(connection).state() == ConnectionState::Reading,
        ensures
            final(connection).peer() == old(connection).peer(),
            final(connection).state() == if message is Ok {
                ConnectionState::AwaitingReply
            } else {
                ConnectionState::Reading
            },
            action@ == match message {
                Ok(m) => ConnectionActionView::Submit(
                    WorkItem::ProcessInput { peer: old(connection).peer(), message: m@ },
                ),
                Err(_) => ConnectionActionView::Write(
                    error_reply(StaticReplies::SerdeParseError.text()),
                ),
            },
    {
        match message {
            Ok(ipc_message) => {
                connection.state = ConnectionState::AwaitingReply;
                ConnectionAction::Submit(
                    Message::ProcessInput(Session::new(ipc_message, connection.ip.clone())),
                )
            },
            Err(_) => ConnectionAction::Write(Reply::Error(StaticReplies::SerdeParseError.error())),
        }
    }

    /// Takes in how the reading of one message from the peer ended, and says
    /// what the connection does next.
    pub fn handle_client(connection: &mut PeerConnection, outcome: ReadOutcome) -> (action:
        ConnectionAction)
        requires
            old(connection).state() == ConnectionState::Reading,
        ensures
            final(connection).peer() == old(connection).peer(),
            final(connection).state() == state_after_read(outcome@),
            action@ == action_after_read(old(connection).peer(), outcome@),
    {
        match outcome {
            ReadOutcome::Frame(bytes) => {
                if bytes.len() == 0 {
                    return connection.gone();
                }
                Server::handle_message(connection, IpcMessage::parse(bytes.as_slice()))
            },
            ReadOutcome::Eof => connection.gone(),
            ReadOutcome::WouldBlock => ConnectionAction::Sleep,
            ReadOutcome::Failed => connection.gone(),
        }
    }
}

} // verus!
