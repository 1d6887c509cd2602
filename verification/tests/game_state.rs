//! Tests for the variable-length snapshot: two-phase length computation,
//! round trips with 0, 1 and many records, and truncation rejection.

use rlviser_py::bytes::{
    BallState, BoostPad, BoostPadState, CarConfig, CarInfo, CarState, FromBytes, GameMode,
    GameState, Team, ToBytes, Vec3, WireError,
};

fn bits(v: f32) -> u32 {
    v.to_bits()
}

fn pad_at(y: f32, active: bool) -> BoostPad {
    BoostPad {
        is_big: y < 0.0,
        position: Vec3 { x: bits(100.0), y: bits(y), z: bits(73.0) },
        state: BoostPadState {
            is_active: active,
            cooldown: bits(2.5),
            cur_locked_car_id: 1,
            prev_locked_car_id: 0,
        },
    }
}

fn car_with_id(id: u32, team: Team) -> CarInfo {
    let mut state = CarState::default();
    state.pos = Vec3 { x: bits(-1000.0), y: bits(500.0), z: bits(17.0) };
    state.boost = bits(48.0);
    state.update_counter = 5;
    CarInfo { id, team, state, config: CarConfig::default() }
}

fn snapshot(num_pads: usize, car_ids: &[u32]) -> GameState {
    GameState {
        tick_count: 42,
        tick_rate: bits(1.0 / 120.0),
        game_mode: GameMode::Soccar,
        ball: BallState::default(),
        pads: (0..num_pads).map(|i| pad_at(i as f32 * 10.0 - 5.0, i % 2 == 0)).collect(),
        cars: car_ids.iter().map(|&id| car_with_id(id, Team::Blue)).collect(),
    }
}

#[test]
fn empty_snapshot_round_trips_with_default_ball() {
    let state = snapshot(0, &[]);
    let encoded = state.to_bytes();
    assert_eq!(encoded.len(), 113);
    let decoded = GameState::from_bytes(&encoded).unwrap();
    assert_eq!(decoded.tick_count, 42);
    assert_eq!(decoded.tick_rate, (1.0f32 / 120.0).to_bits());
    assert_eq!(decoded.game_mode, GameMode::Soccar);
    assert_eq!(decoded.ball.pos.z, 93.15f32.to_bits());
    assert_eq!(decoded.pads.len(), 0);
    assert_eq!(decoded.cars.len(), 0);
}

#[test]
fn snapshot_with_three_pads_and_two_cars_round_trips_in_order() {
    let state = snapshot(3, &[7, 9]);
    let encoded = state.to_bytes();
    assert_eq!(GameState::read_num_pads(&encoded), 3);
    assert_eq!(GameState::read_num_cars(&encoded), 2);
    let decoded = GameState::from_bytes(&encoded).unwrap();
    assert_eq!(decoded.cars.len(), 2);
    assert_eq!(decoded.cars[0].id, 7);
    assert_eq!(decoded.cars[1].id, 9);
    assert_eq!(decoded.pads.len(), 3);
    assert_eq!(decoded, state);
}

#[test]
fn snapshot_with_one_and_with_many_records_round_trips() {
    for (pads, cars) in [(1usize, vec![3u32]), (34, (0..8).collect::<Vec<u32>>())] {
        let state = snapshot(pads, &cars);
        let encoded = state.to_bytes();
        let decoded = GameState::from_bytes(&encoded).unwrap();
        assert_eq!(decoded, state);
    }
}

#[test]
fn round_trip_preserves_every_field_of_a_car() {
    let mut state = snapshot(0, &[11]);
    state.cars[0].team = Team::Orange;
    state.cars[0].state.wheels_with_contact.front_right = true;
    state.cars[0].state.ball_hit_info.is_valid = true;
    state.cars[0].state.ball_hit_info.tick_count_when_hit = 99;
    state.cars[0].state.last_controls.boost = true;
    let decoded = GameState::from_bytes(&state.to_bytes()).unwrap();
    assert_eq!(decoded.cars[0], state.cars[0]);
}

#[test]
fn header_length_matches_actual_encoded_length() {
    for (pads, cars) in [(0usize, vec![]), (1, vec![1u32]), (3, vec![7, 9]), (34, vec![1, 2, 3, 4])] {
        let state = snapshot(pads, &cars);
        let encoded = state.to_bytes();
        assert_eq!(GameState::get_num_bytes(&encoded), encoded.len() as u64);
        assert_eq!(encoded.len(), 113 + 26 * pads + 319 * cars.len());
    }
}

#[test]
fn header_readers_report_the_header_fields() {
    let state = snapshot(2, &[5]);
    let encoded = state.to_bytes();
    assert_eq!(GameState::read_tick_count(&encoded), 42);
    assert_eq!(GameState::read_tick_rate(&encoded), (1.0f32 / 120.0).to_bits());
    assert_eq!(GameState::read_game_mode(&encoded), Ok(GameMode::Soccar));
    assert_eq!(GameState::read_num_pads(&encoded), 2);
    assert_eq!(GameState::read_num_cars(&encoded), 1);
    assert_eq!(GameState::MIN_NUM_BYTES, 21);
}

#[test]
fn truncated_snapshot_yields_format_error() {
    let state = snapshot(3, &[7, 9]);
    let encoded = state.to_bytes();
    let short = &encoded[..encoded.len() - 1];
    assert_eq!(GameState::from_bytes(short), Err(WireError::FormatError));
}

#[test]
fn snapshot_shorter_than_header_yields_format_error() {
    assert_eq!(GameState::from_bytes(&[]), Err(WireError::FormatError));
    assert_eq!(GameState::from_bytes(&[0u8; 20]), Err(WireError::FormatError));
}

#[test]
fn snapshot_with_mode_byte_out_of_range_yields_format_error() {
    let state = snapshot(0, &[]);
    let mut encoded = state.to_bytes();
    encoded[12] = 9;
    assert_eq!(GameState::from_bytes(&encoded), Err(WireError::FormatError));
    assert_eq!(GameState::read_game_mode(&encoded), Err(WireError::FormatError));
}

#[test]
fn snapshot_with_bad_team_byte_in_a_car_yields_format_error() {
    let state = snapshot(1, &[7]);
    let mut encoded = state.to_bytes();
    // The car record starts after the 21-byte header, 92-byte ball and
    // one 26-byte pad; its team byte is 4 bytes further in.
    encoded[113 + 26 + 4] = 7;
    assert_eq!(GameState::from_bytes(&encoded), Err(WireError::FormatError));
}

#[test]
fn decoder_ignores_bytes_past_the_promised_length() {
    let state = snapshot(1, &[7]);
    let mut encoded = state.to_bytes();
    encoded.extend_from_slice(&[0xAA, 0xBB, 0xCC]);
    let decoded = GameState::from_bytes(&encoded).unwrap();
    assert_eq!(decoded, state);
}

#[test]
fn default_snapshot_is_empty_with_default_ball() {
    let state = GameState::default();
    assert_eq!(state.tick_count, 0);
    assert_eq!(state.game_mode, GameMode::TheVoid);
    assert_eq!(state.pads.len(), 0);
    assert_eq!(state.cars.len(), 0);
    assert_eq!(state.ball, BallState::default());
}
