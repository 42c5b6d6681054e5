use avatar_backend::{counter_bytes, Action, ConnectionState, Event, Frame, Phase, AUTH_TAG};

fn open() -> ConnectionState {
    ConnectionState::new()
}

#[test]
fn new_connection_is_open_at_zero() {
    assert_eq!(open(), ConnectionState { phase: Phase::Open, heartbeat_seq: 0 });
}

#[test]
fn counter_bytes_are_big_endian() {
    assert_eq!(counter_bytes(0), vec![0, 0, 0, 0]);
    assert_eq!(counter_bytes(1), vec![0, 0, 0, 1]);
    assert_eq!(counter_bytes(258), vec![0, 0, 1, 2]);
    assert_eq!(counter_bytes(0x01020304), vec![1, 2, 3, 4]);
    assert_eq!(counter_bytes(u32::MAX), vec![255, 255, 255, 255]);
    for n in [0u32, 255, 256, 65535, 65536, 0x7fffffff, 0x80000000] {
        assert_eq!(counter_bytes(n), n.to_be_bytes().to_vec());
    }
}

#[test]
fn heartbeats_count_up_from_zero() {
    let mut state = open();
    for expected in 0u32..1000 {
        assert_eq!(state.heartbeat(), Frame::Ping(expected.to_be_bytes().to_vec()));
        assert!(state.heartbeat_outcome(true));
    }
    assert_eq!(state.heartbeat_seq, 1000);
    assert_eq!(state.phase, Phase::Open);
}

#[test]
fn first_heartbeats_carry_0_1_2() {
    let mut state = open();
    assert_eq!(state.heartbeat(), Frame::Ping(vec![0, 0, 0, 0]));
    state.heartbeat_outcome(true);
    assert_eq!(state.heartbeat(), Frame::Ping(vec![0, 0, 0, 1]));
    state.heartbeat_outcome(true);
    assert_eq!(state.heartbeat(), Frame::Ping(vec![0, 0, 0, 2]));
}

#[test]
fn failed_heartbeat_stops_the_emitter_and_nothing_else() {
    let mut state = ConnectionState { phase: Phase::Open, heartbeat_seq: 41 };
    assert!(!state.heartbeat_outcome(false));
    assert_eq!(state, ConnectionState { phase: Phase::Open, heartbeat_seq: 41 });
}

#[test]
fn last_counter_can_still_be_sent() {
    let state = ConnectionState { phase: Phase::Open, heartbeat_seq: u32::MAX };
    assert_eq!(state.heartbeat(), Frame::Ping(vec![255, 255, 255, 255]));
    let mut state = ConnectionState { phase: Phase::Open, heartbeat_seq: u32::MAX - 1 };
    assert!(state.heartbeat_outcome(true));
    assert_eq!(state.heartbeat_seq, u32::MAX);
    assert!(!state.heartbeat_outcome(false));
    assert_eq!(state.heartbeat_seq, u32::MAX);
}

#[test]
fn ping_is_answered_with_an_empty_pong() {
    let mut state = open();
    let action = state.dispatch(&Event::Received(Frame::Ping(vec![1, 2, 3])));
    assert_eq!(action, Action::SendPong);
    assert_eq!(action.frame(), Some(Frame::Pong(vec![])));
    assert_eq!(state, open());
}

#[test]
fn auth_probe_is_answered_with_the_auth_byte() {
    assert_eq!(AUTH_TAG, 0);
    let mut state = open();
    for probe in [vec![0], vec![0, 1, 2, 3]] {
        let action = state.dispatch(&Event::Received(Frame::Binary(probe)));
        assert_eq!(action, Action::SendAuthAck);
        assert_eq!(action.frame(), Some(Frame::Binary(vec![0])));
        assert_eq!(state, open());
    }
}

#[test]
fn other_frames_are_passed_over() {
    let mut state = open();
    let frames = [
        Frame::Binary(vec![]),
        Frame::Binary(vec![1]),
        Frame::Binary(vec![4, 0]),
        Frame::Binary(vec![255, 0, 0]),
        Frame::Pong(vec![]),
        Frame::Pong(vec![0]),
        Frame::Text("".to_string()),
        Frame::Text("\0".to_string()),
    ];
    for frame in frames {
        let action = state.dispatch(&Event::Received(frame));
        assert_eq!(action, Action::Continue);
        assert_eq!(action.frame(), None);
        assert_eq!(state, open());
    }
}

#[test]
fn close_frame_stops_the_reader_and_closes() {
    let mut state = ConnectionState { phase: Phase::Open, heartbeat_seq: 5 };
    let action = state.dispatch(&Event::Received(Frame::Close));
    assert_eq!(action, Action::Stop);
    assert_eq!(action.frame(), None);
    assert_eq!(state, ConnectionState { phase: Phase::Closing, heartbeat_seq: 5 });
    state.close();
    assert_eq!(state, ConnectionState { phase: Phase::Closed, heartbeat_seq: 5 });
}

#[test]
fn failures_close_at_once() {
    for event in [Event::ReadFailed, Event::Ended, Event::ReplyFailed] {
        let mut state = open();
        assert_eq!(state.dispatch(&event), Action::Stop);
        assert_eq!(state.phase, Phase::Closed);
    }
}

#[test]
fn nothing_is_read_once_the_connection_is_not_open() {
    let events = [
        Event::Received(Frame::Ping(vec![])),
        Event::Received(Frame::Binary(vec![0])),
        Event::Received(Frame::Close),
        Event::Received(Frame::Text("x".to_string())),
        Event::ReadFailed,
        Event::Ended,
        Event::ReplyFailed,
    ];
    for phase in [Phase::Closing, Phase::Closed] {
        for event in &events {
            let mut state = ConnectionState { phase, heartbeat_seq: 9 };
            assert_eq!(state.dispatch(event), Action::Stop);
            assert_eq!(state, ConnectionState { phase, heartbeat_seq: 9 });
        }
    }
}

#[test]
fn close_is_final() {
    let mut state = open();
    state.close();
    assert_eq!(state.phase, Phase::Closed);
    state.close();
    assert_eq!(state.phase, Phase::Closed);
    assert_eq!(state.dispatch(&Event::Received(Frame::Ping(vec![]))), Action::Stop);
    assert_eq!(state.phase, Phase::Closed);
}

#[test]
fn dispatch_leaves_the_counter_alone() {
    let mut state = ConnectionState { phase: Phase::Open, heartbeat_seq: 77 };
    state.dispatch(&Event::Received(Frame::Ping(vec![])));
    state.dispatch(&Event::Received(Frame::Binary(vec![0])));
    state.dispatch(&Event::Received(Frame::Close));
    state.dispatch(&Event::ReadFailed);
    assert_eq!(state.heartbeat_seq, 77);
}
