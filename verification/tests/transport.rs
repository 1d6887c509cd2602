//! Tests for the tag framing, the latest-wins poll summary, and the
//! session state kept between polls.

use rlviser_py::bytes::{BallState, GameMode, GameState, ToBytes, WireError, F32_ONE_BITS};
use rlviser_py::socket::{
    connection_handshake, get_return_messages, quit, report_game_paused, report_game_speed,
    send_game_state, ReturnMessage, Session, UdpPacketTypes,
};

fn empty_snapshot(tick_count: u64) -> GameState {
    GameState {
        tick_count,
        tick_rate: (1.0f32 / 120.0).to_bits(),
        game_mode: GameMode::Soccar,
        ball: BallState::default(),
        pads: Vec::new(),
        cars: Vec::new(),
    }
}

fn speed_burst(v: f32) -> [Vec<u8>; 2] {
    [vec![4], v.to_bits().to_le_bytes().to_vec()]
}

fn paused_burst(p: bool) -> [Vec<u8>; 2] {
    [vec![3], vec![if p { 1 } else { 0 }]]
}

#[test]
fn tags_are_stable() {
    assert_eq!(UdpPacketTypes::Quit.tag(), 0);
    assert_eq!(UdpPacketTypes::GameState.tag(), 1);
    assert_eq!(UdpPacketTypes::Connection.tag(), 2);
    assert_eq!(UdpPacketTypes::Paused.tag(), 3);
    assert_eq!(UdpPacketTypes::Speed.tag(), 4);
    assert_eq!(UdpPacketTypes::Render.tag(), 5);
}

#[test]
fn classifying_a_tag_byte_inverts_tag() {
    let kinds = [
        UdpPacketTypes::Quit,
        UdpPacketTypes::GameState,
        UdpPacketTypes::Connection,
        UdpPacketTypes::Paused,
        UdpPacketTypes::Speed,
        UdpPacketTypes::Render,
    ];
    for kind in kinds {
        assert_eq!(UdpPacketTypes::new(kind.tag()), Some(kind));
    }
    assert_eq!(UdpPacketTypes::new(6), None);
    assert_eq!(UdpPacketTypes::new(255), None);
}

#[test]
fn senders_emit_tag_then_payload() {
    let state = empty_snapshot(1);
    let (tag, payload) = send_game_state(&state);
    assert_eq!(tag, vec![1]);
    assert_eq!(payload, state.to_bytes());

    let (tag, payload) = report_game_speed(1.5f32.to_bits());
    assert_eq!(tag, vec![4]);
    assert_eq!(payload, 1.5f32.to_le_bytes().to_vec());

    let (tag, payload) = report_game_paused(true);
    assert_eq!(tag, vec![3]);
    assert_eq!(payload, vec![1]);

    let (tag, payload) = report_game_paused(false);
    assert_eq!(tag, vec![3]);
    assert_eq!(payload, vec![0]);

    assert_eq!(quit(), vec![0]);
    assert_eq!(connection_handshake(), vec![2]);
}

#[test]
fn polling_nothing_returns_an_empty_message() {
    let r = get_return_messages(&Vec::new()).unwrap();
    assert_eq!(r, ReturnMessage::none());
    assert_eq!(r.game_state, None);
    assert_eq!(r.speed, None);
    assert_eq!(r.paused, None);
}

#[test]
fn one_burst_of_speed_paused_speed_keeps_the_last_speed() {
    // Speed(1.5), Paused(true), Speed(0.75) queued before one poll.
    let mut datagrams: Vec<Vec<u8>> = Vec::new();
    datagrams.extend(speed_burst(1.5));
    datagrams.extend(paused_burst(true));
    datagrams.extend(speed_burst(0.75));
    let r = get_return_messages(&datagrams).unwrap();
    assert_eq!(r.speed, Some(0.75f32.to_bits()));
    assert_eq!(r.paused, Some(true));
    assert_eq!(r.game_state, None);
}

#[test]
fn last_of_two_speed_datagrams_wins() {
    let mut datagrams: Vec<Vec<u8>> = Vec::new();
    datagrams.extend(speed_burst(0.5));
    datagrams.extend(speed_burst(2.0));
    let r = get_return_messages(&datagrams).unwrap();
    assert_eq!(r.speed, Some(2.0f32.to_bits()));
}

#[test]
fn polling_decodes_a_game_state_override() {
    let state = empty_snapshot(1234);
    let datagrams = vec![vec![1], state.to_bytes()];
    let r = get_return_messages(&datagrams).unwrap();
    let decoded = r.game_state.expect("the snapshot override should be returned");
    assert_eq!(decoded.tick_count, 1234);
    assert_eq!(decoded, state);
}

#[test]
fn later_game_state_override_wins() {
    let first = empty_snapshot(1);
    let second = empty_snapshot(2);
    let datagrams = vec![vec![1], first.to_bytes(), vec![1], second.to_bytes()];
    let r = get_return_messages(&datagrams).unwrap();
    assert_eq!(r.game_state.unwrap().tick_count, 2);
}

#[test]
fn connection_datagrams_are_skipped() {
    let mut datagrams: Vec<Vec<u8>> = vec![vec![2]];
    datagrams.extend(speed_burst(3.0));
    datagrams.push(vec![2]);
    let r = get_return_messages(&datagrams).unwrap();
    assert_eq!(r.speed, Some(3.0f32.to_bits()));
}

#[test]
fn unknown_tag_stops_draining_and_keeps_what_was_gathered() {
    let mut datagrams: Vec<Vec<u8>> = Vec::new();
    datagrams.extend(speed_burst(1.25));
    datagrams.push(vec![9]);
    datagrams.extend(paused_burst(true));
    let r = get_return_messages(&datagrams).unwrap();
    assert_eq!(r.speed, Some(1.25f32.to_bits()));
    assert_eq!(r.paused, None);
}

#[test]
fn inbound_quit_or_render_is_a_protocol_error() {
    assert_eq!(get_return_messages(&vec![vec![0]]), Err(WireError::ProtocolError));
    assert_eq!(get_return_messages(&vec![vec![5]]), Err(WireError::ProtocolError));
}

#[test]
fn malformed_inbound_bursts_are_format_errors() {
    // An empty datagram.
    assert_eq!(get_return_messages(&vec![Vec::new()]), Err(WireError::FormatError));
    // A tag with its payload datagram missing.
    assert_eq!(get_return_messages(&vec![vec![4]]), Err(WireError::FormatError));
    assert_eq!(get_return_messages(&vec![vec![3]]), Err(WireError::FormatError));
    assert_eq!(get_return_messages(&vec![vec![1]]), Err(WireError::FormatError));
    // A speed payload shorter than four bytes.
    assert_eq!(
        get_return_messages(&vec![vec![4], vec![1, 2, 3]]),
        Err(WireError::FormatError)
    );
    // An empty paused payload.
    assert_eq!(get_return_messages(&vec![vec![3], Vec::new()]), Err(WireError::FormatError));
    // A snapshot payload truncated by one byte.
    let state = empty_snapshot(7);
    let mut payload = state.to_bytes();
    payload.pop();
    assert_eq!(get_return_messages(&vec![vec![1], payload]), Err(WireError::FormatError));
}

#[test]
fn session_starts_at_full_speed_unpaused() {
    let session = Session::new();
    assert_eq!(session.game_speed, F32_ONE_BITS);
    assert_eq!(session.game_speed, 1.0f32.to_bits());
    assert!(!session.game_paused);
    assert!(session.game_state.is_none());
}

#[test]
fn session_absorbs_reported_fields_and_keeps_the_rest() {
    let mut session = Session::new();
    session.absorb(ReturnMessage {
        game_state: None,
        speed: Some(0.5f32.to_bits()),
        paused: None,
    });
    assert_eq!(session.game_speed, 0.5f32.to_bits());
    assert!(!session.game_paused);

    session.absorb(ReturnMessage { game_state: None, speed: None, paused: Some(true) });
    assert_eq!(session.game_speed, 0.5f32.to_bits());
    assert!(session.game_paused);

    let state = empty_snapshot(9);
    session.absorb(ReturnMessage {
        game_state: Some(state.clone()),
        speed: None,
        paused: None,
    });
    assert_eq!(session.game_speed, 0.5f32.to_bits());
    assert!(session.game_paused);
    assert_eq!(session.game_state, Some(state));
}

#[test]
fn taking_the_pending_snapshot_clears_it() {
    let mut session = Session::new();
    let state = empty_snapshot(3);
    session.absorb(ReturnMessage {
        game_state: Some(state.clone()),
        speed: None,
        paused: None,
    });
    assert_eq!(session.take_game_state(), Some(state));
    assert_eq!(session.take_game_state(), None);
    assert!(session.game_state.is_none());
}
