//! The live push session: what a session does with each frame of its peer
//! and at each turn of its timer.

use crate::ml::Anomaly;
use vstd::prelude::*;
use vstd::string::StringExecFns;

verus! {

/// The seconds between two pushes of the anomaly snapshot.
pub const PUSH_INTERVAL_SECONDS: u64 = 5;

/// The tag of a pushed snapshot of the anomalies.
pub const ANOMALIES_TAG: &'static str = "anomalies";

/// A frame that the peer sent.
#[derive(Debug, PartialEq, Eq)]
pub enum Frame {
    /// A protocol-level ping with its payload.
    Ping(Vec<u8>),
    /// A text frame.
    Text(String),
    /// The peer closes the connection.
    Close,
    /// Any other frame, or a protocol error.
    Other,
}

/// What the session does.
#[derive(Debug, PartialEq, Eq)]
pub enum SessionAction {
    /// Answer a ping with a pong that carries the same payload.
    Pong(Vec<u8>),
    /// Send a text frame.
    SendText(String),
    /// Close the connection and stop the session.
    CloseAndStop,
    /// Do nothing.
    Nothing,
}

/// A snapshot of the anomaly store, as it is pushed.
#[derive(Debug, PartialEq, Eq)]
pub struct PushMessage {
    pub tag: String,
    pub data: Vec<Anomaly>,
}

/// What a running session does with a frame of its peer.
pub open spec fn reaction(frame: Frame) -> SessionAction {
    match frame {
        Frame::Ping(payload) => SessionAction::Pong(payload),
        Frame::Text(text) => SessionAction::SendText(text),
        Frame::Close => SessionAction::CloseAndStop,
        Frame::Other => SessionAction::Nothing,
    }
}

/// What a session holds: whether it has stopped.
pub struct WebSocketSession {
    stopped: bool,
}

impl WebSocketSession {
    /// The session has stopped.
    pub closed spec fn is_stopped(self) -> bool {
        self.stopped
    }

    /// A session that runs.
    pub fn new() -> (r: Self)
        ensures
            !r.is_stopped(),
    {
        WebSocketSession { stopped: false }
    }

    /// Whether the session has stopped.
    pub fn stopped(&self) -> (r: bool)
        ensures
            r == self.is_stopped(),
    {
        self.stopped
    }

    /// What the session does with a frame of its peer: a ping is answered
    /// with its payload, a text comes back as it is, a close frame ends the
    /// session, and anything else is passed over. A session that has stopped
    /// does nothing.
    pub fn handle(&mut self, frame: Frame) -> (r: SessionAction)
        ensures
            old(self).is_stopped() ==> r == SessionAction::Nothing && final(self).is_stopped(),
            !old(self).is_stopped() ==> r == reaction(frame),
            !old(self).is_stopped() ==> final(self).is_stopped() == (frame is Close),
    {
        if self.stopped {
            return SessionAction::Nothing;
        }
        match frame {
            Frame::Ping(payload) => SessionAction::Pong(payload),
            Frame::Text(text) => SessionAction::SendText(text),
            Frame::Close => {
                self.stopped = true;
                SessionAction::CloseAndStop
            },
            Frame::Other => SessionAction::Nothing,
        }
    }

    /// What the session pushes at a turn of its timer: the snapshot
    /// `anomalies` of the anomaly store under the tag `anomalies`, whatever
    /// the peer sent and whether or not the snapshot is empty; nothing once
    /// the session has stopped.
    pub fn on_interval(&self, anomalies: Vec<Anomaly>) -> (r: Option<PushMessage>)
        ensures
            match r {
                Some(m) => !self.is_stopped() && m.tag@ == ANOMALIES_TAG@ && m.data == anomalies,
                None => self.is_stopped(),
            },
    {
        if self.stopped {
            None
        } else {
            Some(PushMessage { tag: String::from_str(ANOMALIES_TAG), data: anomalies })
        }
    }
}

} // verus!
