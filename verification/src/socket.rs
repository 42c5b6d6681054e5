//! Keep-alive for one live socket: the heartbeat that goes out and the
//! reaction to each frame that comes in.
//!
//! The two activities of a connection decide nothing themselves. The one
//! that emits asks for the next heartbeat and reports whether it went out;
//! the one that reads reports each event and does what it is told.

use vstd::prelude::*;

verus! {

/// Where a connection stands. `Closed` is final.
#[derive(Clone, Copy, Debug, PartialEq, Eq, Structural)]
pub enum Phase {
    Open,
    Closing,
    Closed,
}

/// One frame on the socket.
#[derive(Debug, PartialEq, Eq)]
pub enum Frame {
    /// A heartbeat request.
    Ping(Vec<u8>),
    /// A heartbeat acknowledgement.
    Pong(Vec<u8>),
    /// An application frame; its first byte is its tag.
    Binary(Vec<u8>),
    Text(String),
    /// The peer ends the connection.
    Close,
}

/// What the reader has to report.
#[derive(Debug, PartialEq, Eq)]
pub enum Event {
    /// A frame came in.
    Received(Frame),
    /// Reading failed.
    ReadFailed,
    /// The peer went away without a close frame.
    Ended,
    /// The reply to the last frame could not be sent.
    ReplyFailed,
}

/// What the reader is told to do.
#[derive(Clone, Copy, Debug, PartialEq, Eq, Structural)]
pub enum Action {
    /// Read the next frame.
    Continue,
    /// Acknowledge the heartbeat, then read on.
    SendPong,
    /// Acknowledge the auth probe, then read on.
    SendAuthAck,
    /// Read no further.
    Stop,
}

/// The state of one connection: its phase and the number that the next
/// heartbeat carries.
#[derive(Clone, Copy, Debug, PartialEq, Eq, Structural)]
pub struct ConnectionState {
    pub phase: Phase,
    pub heartbeat_seq: u32,
}

/// The tag of an auth probe, and the one byte that acknowledges it.
pub const AUTH_TAG: u8 = 0;

/// Seconds from one heartbeat to the next.
pub const HEARTBEAT_INTERVAL_SECS: u64 = 2;

/// The four bytes of `n`, most significant first.
pub open spec fn be_bytes(n: u32) -> Seq<u8> {
    seq![
        (n / 0x100_0000) as u8,
        (n / 0x1_0000 % 0x100) as u8,
        (n / 0x100 % 0x100) as u8,
        (n % 0x100) as u8,
    ]
}

/// The number that four bytes stand for, most significant first.
pub open spec fn be_value(bytes: Seq<u8>) -> int {
    bytes[0] * 0x100_0000 + bytes[1] * 0x1_0000 + bytes[2] * 0x100 + bytes[3]
}

/// A binary frame whose first byte is the auth tag.
pub open spec fn is_auth_probe(frame: Frame) -> bool {
    frame matches Frame::Binary(data) && data@.len() > 0 && data@[0] == AUTH_TAG
}

/// What an open connection does about a frame. Frames that ask for nothing,
/// an empty binary frame among them, are passed over.
pub open spec fn reaction(frame: Frame) -> Action {
    if frame is Ping {
        Action::SendPong
    } else if is_auth_probe(frame) {
        Action::SendAuthAck
    } else if frame is Close {
        Action::Stop
    } else {
        Action::Continue
    }
}

/// The phase after an event: a close frame starts the closing, a failure or
/// the end of the stream closes at once, and nothing reopens a connection.
pub open spec fn next_phase(phase: Phase, event: Event) -> Phase {
    match phase {
        Phase::Open => match event {
            Event::Received(frame) => if frame is Close {
                Phase::Closing
            } else {
                Phase::Open
            },
            _ => Phase::Closed,
        },
        _ => phase,
    }
}

/// The order of the phases.
pub open spec fn phase_rank(phase: Phase) -> int {
    match phase {
        Phase::Open => 0,
        Phase::Closing => 1,
        Phase::Closed => 2,
    }
}

/// One step of the reader: the state after `event`, and what to do.
pub open spec fn step(state: ConnectionState, event: Event) -> (ConnectionState, Action) {
    let after = ConnectionState {
        phase: next_phase(state.phase, event),
        heartbeat_seq: state.heartbeat_seq,
    };
    let action = match (state.phase, event) {
        (Phase::Open, Event::Received(frame)) => reaction(frame),
        _ => Action::Stop,
    };
    (after, action)
}

/// The state of a connection that has been released.
pub open spec fn released(state: ConnectionState) -> ConnectionState {
    ConnectionState { phase: Phase::Closed, heartbeat_seq: state.heartbeat_seq }
}

/// The state once `count` more heartbeats have gone out.
pub open spec fn after_heartbeats(state: ConnectionState, count: nat) -> ConnectionState
    recommends
        state.heartbeat_seq + count <= u32::MAX,
{
    ConnectionState { phase: state.phase, heartbeat_seq: (state.heartbeat_seq + count) as u32 }
}

impl Action {
    /// The frame that the action sends: an empty acknowledgement for a
    /// heartbeat, the single auth byte for an auth probe, none otherwise.
    pub fn frame(&self) -> (reply: Option<Frame>)
        ensures
            match *self {
                Action::SendPong => reply matches Some(Frame::Pong(payload)) && payload@
                    == Seq::<u8>::empty(),
                Action::SendAuthAck => reply matches Some(Frame::Binary(payload)) && payload@
                    == seq![AUTH_TAG],
                _ => reply is None,
            },
    {
        match self {
            Action::SendPong => Some(Frame::Pong(Vec::new())),
            Action::SendAuthAck => {
                let mut payload: Vec<u8> = Vec::new();
                payload.push(AUTH_TAG);
                Some(Frame::Binary(payload))
            },
            _ => None,
        }
    }
}

/// Writes `n` as four bytes, most significant first.
pub fn counter_bytes(n: u32) -> (bytes: Vec<u8>)
    ensures
        bytes@ == be_bytes(n),
{
    let mut bytes: Vec<u8> = Vec::new();
    bytes.push((n / 0x100_0000) as u8);
    bytes.push((n / 0x1_0000 % 0x100) as u8);
    bytes.push((n / 0x100 % 0x100) as u8);
    bytes.push((n % 0x100) as u8);
    bytes
}

impl ConnectionState {
    /// The state of a socket that was just accepted.
    pub fn new() -> (state: Self)
        ensures
            state == (ConnectionState { phase: Phase::Open, heartbeat_seq: 0 }),
    {
        ConnectionState { phase: Phase::Open, heartbeat_seq: 0 }
    }

    /// The heartbeat to send at the next tick: a heartbeat request that
    /// carries the counter as four big-endian bytes.
    pub fn heartbeat(&self) -> (frame: Frame)
        ensures
            frame matches Frame::Ping(payload) && payload@ == be_bytes(self.heartbeat_seq),
    {
        Frame::Ping(counter_bytes(self.heartbeat_seq))
    }

    /// Takes note of how sending the heartbeat went, and says whether to go
    /// on emitting. A heartbeat that went out moves the counter on by one;
    /// after one that did not, the emitter stops, and the connection stays
    /// as it is. The counter has four bytes, so no heartbeat follows the
    /// last number they can hold.
    pub fn heartbeat_outcome(&mut self, delivered: bool) -> (go_on: bool)
        requires
            delivered ==> old(self).heartbeat_seq < u32::MAX,
        ensures
            go_on == delivered,
            delivered ==> *final(self) == after_heartbeats(*old(self), 1),
            !delivered ==> *final(self) == *old(self),
    {
        if delivered {
            self.heartbeat_seq = self.heartbeat_seq + 1;
        }
        delivered
    }

    /// Takes one event from the reader and says what to do about it.
    ///
    /// While the connection is open, a heartbeat request is acknowledged, an
    /// auth probe is acknowledged with the auth byte, a close frame starts
    /// the closing, and a failure or the end of the stream closes the
    /// connection; every other frame is passed over. Once the connection is
    /// no longer open, nothing is read any more.
    pub fn dispatch(&mut self, event: &Event) -> (action: Action)
        ensures
            (*final(self), action) == step(*old(self), *event),
    {
        match self.phase {
            Phase::Open => match event {
                Event::Received(frame) => match frame {
                    Frame::Ping(_) => Action::SendPong,
                    Frame::Binary(data) => {
                        if data.len() > 0 && data[0] == AUTH_TAG {
                            Action::SendAuthAck
                        } else {
                            Action::Continue
                        }
                    },
                    Frame::Close => {
                        self.phase = Phase::Closing;
                        Action::Stop
                    },
                    _ => Action::Continue,
                },
                _ => {
                    self.phase = Phase::Closed;
                    Action::Stop
                },
            },
            _ => Action::Stop,
        }
    }

    /// Releases the connection once the reader has stopped: whatever the
    /// phase was, it is `Closed` now.
    pub fn close(&mut self)
        ensures
            *final(self) == released(*old(self)),
    {
        self.phase = Phase::Closed;
    }
}

/// The four bytes of a heartbeat say which number it is: reading them back
/// gives the counter.
pub proof fn lemma_counter_round_trip(n: u32)
    ensures
        be_bytes(n).len() == 4,
        be_value(be_bytes(n)) == n,
{
}

/// Heartbeats count up from zero, one by one: the heartbeat that follows
/// `count` others on a new connection carries `count`, and of two
/// heartbeats of one connection the later carries the greater number.
pub proof fn lemma_heartbeats_count_up(state: ConnectionState, earlier: nat, later: nat)
    requires
        earlier < later,
        state.heartbeat_seq + later <= u32::MAX,
    ensures
        state.heartbeat_seq == 0 ==> be_value(
            be_bytes(after_heartbeats(state, earlier).heartbeat_seq),
        ) == earlier,
        be_value(be_bytes(after_heartbeats(state, earlier).heartbeat_seq)) < be_value(
            be_bytes(after_heartbeats(state, later).heartbeat_seq),
        ),
        after_heartbeats(after_heartbeats(state, earlier), 1) == after_heartbeats(
            state,
            earlier + 1,
        ),
{
    lemma_counter_round_trip(after_heartbeats(state, earlier).heartbeat_seq);
    lemma_counter_round_trip(after_heartbeats(state, later).heartbeat_seq);
}

/// A close frame on an open connection stops the reader at that very
/// frame, and once the connection is released it is closed.
pub proof fn lemma_close_frame_closes(state: ConnectionState)
    requires
        state.phase == Phase::Open,
    ensures
        step(state, Event::Received(Frame::Close)).1 == Action::Stop,
        step(state, Event::Received(Frame::Close)).0.phase == Phase::Closing,
        released(step(state, Event::Received(Frame::Close)).0).phase == Phase::Closed,
{
}

/// The reader is told to stop exactly when the connection is no longer
/// open; a phase never goes back, and a closed connection stays closed.
pub proof fn lemma_reader_follows_phase(state: ConnectionState, event: Event)
    ensures
        step(state, event).1 == Action::Stop <==> step(state, event).0.phase != Phase::Open,
        phase_rank(step(state, event).0.phase) >= phase_rank(state.phase),
        state.phase == Phase::Closed ==> step(state, event).0 == state,
        step(state, event).0.heartbeat_seq == state.heartbeat_seq,
{
}

} // verus!
