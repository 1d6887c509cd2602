//! Round-trip, width, byte-order and rejection tests for the fixed-size
//! codec types.

use rlviser_py::bytes::{
    BallHitInfo, BallState, BoostPad, BoostPadState, CarConfig, CarControls, CarInfo, CarState,
    FromBytes, FromBytesExact, GameMode, RotMat, Team, ToBytesExact, Vec3, WheelPairConfig,
    WheelsWithContact, WireError, BALL_SPAWN_Z_BITS, F32_ONE_BITS, HEATSEEKER_TARGET_SPEED_BITS,
};

fn bits(v: f32) -> u32 {
    v.to_bits()
}

fn sample_vec3() -> Vec3 {
    Vec3 { x: bits(1.5), y: bits(-2.25), z: bits(93.15) }
}

fn sample_rot_mat() -> RotMat {
    RotMat {
        forward: Vec3 { x: bits(1.0), y: bits(0.0), z: bits(0.0) },
        right: Vec3 { x: bits(0.0), y: bits(0.5), z: bits(-0.5) },
        up: Vec3 { x: bits(0.25), y: bits(0.0), z: bits(1.0) },
    }
}

fn sample_ball_hit_info() -> BallHitInfo {
    BallHitInfo {
        is_valid: true,
        relative_pos_on_ball: sample_vec3(),
        ball_pos: Vec3 { x: bits(10.0), y: bits(20.0), z: bits(30.0) },
        extra_hit_vel: Vec3 { x: bits(-1.0), y: bits(2.0), z: bits(-3.0) },
        tick_count_when_hit: 0x0102_0304_0506_0708,
        tick_count_when_extra_impulse_applied: 42,
    }
}

fn sample_ball_state() -> BallState {
    BallState {
        pos: sample_vec3(),
        rot_mat: sample_rot_mat(),
        vel: Vec3 { x: bits(100.0), y: bits(-200.0), z: bits(300.0) },
        ang_vel: Vec3 { x: bits(0.1), y: bits(0.2), z: bits(0.3) },
        update_counter: 987_654_321,
        heatseeker_target_dir: bits(-1.0),
        heatseeker_target_speed: bits(2900.0),
        heatseeker_time_since_hit: bits(0.5),
    }
}

fn sample_controls() -> CarControls {
    CarControls {
        throttle: bits(1.0),
        steer: bits(-0.5),
        pitch: bits(0.25),
        yaw: bits(-0.125),
        roll: bits(0.0625),
        boost: true,
        jump: false,
        handbrake: true,
    }
}

fn sample_wheel_pair() -> WheelPairConfig {
    WheelPairConfig {
        wheel_radius: bits(12.5),
        suspension_rest_length: bits(37.0),
        connection_point_offset: sample_vec3(),
    }
}

fn sample_car_config() -> CarConfig {
    CarConfig {
        hitbox_size: Vec3 { x: bits(118.0), y: bits(84.2), z: bits(36.2) },
        hitbox_pos_offset: Vec3 { x: bits(13.9), y: bits(0.0), z: bits(20.8) },
        front_wheels: sample_wheel_pair(),
        back_wheels: WheelPairConfig {
            wheel_radius: bits(15.0),
            suspension_rest_length: bits(33.0),
            connection_point_offset: Vec3 { x: bits(-10.0), y: bits(5.0), z: bits(1.0) },
        },
        dodge_deadzone: bits(0.5),
    }
}

fn sample_car_state() -> CarState {
    CarState {
        pos: sample_vec3(),
        rot_mat: sample_rot_mat(),
        vel: Vec3 { x: bits(1400.0), y: bits(-5.0), z: bits(0.0) },
        ang_vel: Vec3 { x: bits(0.0), y: bits(1.0), z: bits(-1.0) },
        update_counter: 77,
        is_on_ground: true,
        wheels_with_contact: WheelsWithContact {
            front_left: true,
            front_right: false,
            back_left: true,
            back_right: true,
        },
        has_jumped: true,
        has_double_jumped: false,
        has_flipped: true,
        flip_rel_torque: Vec3 { x: bits(0.5), y: bits(-0.5), z: bits(0.0) },
        jump_time: bits(0.2),
        flip_time: bits(0.1),
        is_flipping: false,
        is_jumping: true,
        air_time: bits(1.5),
        air_time_since_jump: bits(0.75),
        boost: bits(33.0),
        time_spent_boosting: bits(2.0),
        is_supersonic: true,
        supersonic_time: bits(3.0),
        handbrake_val: bits(0.9),
        is_auto_flipping: false,
        auto_flip_timer: bits(0.0),
        auto_flip_torque_scale: bits(1.0),
        has_world_contact: true,
        world_contact_normal: Vec3 { x: bits(0.0), y: bits(0.0), z: bits(1.0) },
        car_contact_id: 9,
        car_contact_cooldown_timer: bits(0.25),
        is_demoed: false,
        demo_respawn_timer: bits(0.0),
        ball_hit_info: sample_ball_hit_info(),
        last_controls: sample_controls(),
    }
}

fn sample_car_info(id: u32, team: Team) -> CarInfo {
    CarInfo { id, team, state: sample_car_state(), config: sample_car_config() }
}

fn sample_pad_state() -> BoostPadState {
    BoostPadState { is_active: true, cooldown: bits(4.0), cur_locked_car_id: 7, prev_locked_car_id: 9 }
}

fn sample_pad() -> BoostPad {
    BoostPad { is_big: true, position: Vec3 { x: bits(0.0), y: bits(-4240.0), z: bits(70.0) }, state: sample_pad_state() }
}

#[test]
fn float_bit_constants_match_ieee_values() {
    assert_eq!(F32_ONE_BITS, 1.0f32.to_bits());
    assert_eq!(BALL_SPAWN_Z_BITS, 93.15f32.to_bits());
    assert_eq!(HEATSEEKER_TARGET_SPEED_BITS, 2900.0f32.to_bits());
}

#[test]
fn widths_are_the_wire_contract() {
    assert_eq!(<u8 as FromBytesExact>::num_bytes(), 1);
    assert_eq!(<bool as FromBytesExact>::num_bytes(), 1);
    assert_eq!(<u32 as FromBytesExact>::num_bytes(), 4);
    assert_eq!(<u64 as FromBytesExact>::num_bytes(), 8);
    assert_eq!(Team::num_bytes(), 1);
    assert_eq!(GameMode::num_bytes(), 1);
    assert_eq!(Vec3::num_bytes(), 12);
    assert_eq!(RotMat::num_bytes(), 36);
    assert_eq!(BallHitInfo::num_bytes(), 53);
    assert_eq!(BallState::num_bytes(), 92);
    assert_eq!(WheelPairConfig::num_bytes(), 20);
    assert_eq!(CarConfig::num_bytes(), 68);
    assert_eq!(CarControls::num_bytes(), 23);
    assert_eq!(WheelsWithContact::num_bytes(), 4);
    assert_eq!(CarState::num_bytes(), 246);
    assert_eq!(CarInfo::num_bytes(), 319);
    assert_eq!(BoostPadState::num_bytes(), 13);
    assert_eq!(BoostPad::num_bytes(), 26);
}

#[test]
fn u32_encodes_little_endian() {
    let v: u32 = 0x0102_0304;
    assert_eq!(v.to_bytes(), vec![0x04, 0x03, 0x02, 0x01]);
    assert_eq!(u32::from_bytes(&[0x04, 0x03, 0x02, 0x01]), Ok(v));
}

#[test]
fn u64_encodes_little_endian() {
    let v: u64 = 0x0102_0304_0506_0708;
    assert_eq!(v.to_bytes(), vec![0x08, 0x07, 0x06, 0x05, 0x04, 0x03, 0x02, 0x01]);
    assert_eq!(u64::from_bytes(&v.to_bytes()), Ok(v));
}

#[test]
fn vec3_encodes_its_lanes_in_order() {
    let v = Vec3 { x: 1.0f32.to_bits(), y: 2.0f32.to_bits(), z: 3.0f32.to_bits() };
    let mut expected = Vec::new();
    expected.extend_from_slice(&1.0f32.to_le_bytes());
    expected.extend_from_slice(&2.0f32.to_le_bytes());
    expected.extend_from_slice(&3.0f32.to_le_bytes());
    assert_eq!(v.to_bytes(), expected);
}

#[test]
fn bool_round_trips_and_nonzero_decodes_true() {
    assert_eq!(true.to_bytes(), vec![1]);
    assert_eq!(false.to_bytes(), vec![0]);
    assert_eq!(bool::from_bytes(&[0]), Ok(false));
    assert_eq!(bool::from_bytes(&[1]), Ok(true));
    assert_eq!(bool::from_bytes(&[2]), Ok(true));
}

#[test]
fn team_round_trips_and_rejects_unknown_ordinal() {
    assert_eq!(Team::Blue.to_bytes(), vec![0]);
    assert_eq!(Team::Orange.to_bytes(), vec![1]);
    assert_eq!(Team::from_bytes(&[0]), Ok(Team::Blue));
    assert_eq!(Team::from_bytes(&[1]), Ok(Team::Orange));
    assert_eq!(Team::from_bytes(&[2]), Err(WireError::FormatError));
    assert_eq!(Team::from_u8(0), Team::Blue);
    assert_eq!(Team::from_u8(1), Team::Orange);
}

#[test]
fn game_mode_round_trips_all_variants() {
    let modes = [
        GameMode::Soccar,
        GameMode::Hoops,
        GameMode::HeatSeeker,
        GameMode::Snowday,
        GameMode::TheVoid,
    ];
    for (i, mode) in modes.iter().enumerate() {
        assert_eq!(mode.to_bytes(), vec![i as u8]);
        assert_eq!(GameMode::from_bytes(&[i as u8]), Ok(*mode));
    }
}

#[test]
fn game_mode_rejects_out_of_range_ordinal() {
    assert_eq!(GameMode::from_bytes(&[5]), Err(WireError::FormatError));
    assert_eq!(GameMode::from_bytes(&[9]), Err(WireError::FormatError));
    assert_eq!(GameMode::from_bytes(&[255]), Err(WireError::FormatError));
}

#[test]
fn vec3_round_trips() {
    let v = sample_vec3();
    assert_eq!(Vec3::from_bytes(&v.to_bytes()), Ok(v));
}

#[test]
fn rot_mat_round_trips() {
    let v = sample_rot_mat();
    assert_eq!(RotMat::from_bytes(&v.to_bytes()), Ok(v));
}

#[test]
fn ball_hit_info_round_trips() {
    let v = sample_ball_hit_info();
    assert_eq!(BallHitInfo::from_bytes(&v.to_bytes()), Ok(v));
}

#[test]
fn ball_state_round_trips() {
    let v = sample_ball_state();
    assert_eq!(BallState::from_bytes(&v.to_bytes()), Ok(v));
}

#[test]
fn wheel_pair_config_round_trips() {
    let v = sample_wheel_pair();
    assert_eq!(WheelPairConfig::from_bytes(&v.to_bytes()), Ok(v));
}

#[test]
fn car_config_round_trips() {
    let v = sample_car_config();
    assert_eq!(CarConfig::from_bytes(&v.to_bytes()), Ok(v));
}

#[test]
fn car_controls_round_trips() {
    let v = sample_controls();
    assert_eq!(CarControls::from_bytes(&v.to_bytes()), Ok(v));
}

#[test]
fn car_state_round_trips() {
    let v = sample_car_state();
    assert_eq!(CarState::from_bytes(&v.to_bytes()), Ok(v));
}

#[test]
fn car_info_round_trips() {
    let v = sample_car_info(7, Team::Orange);
    assert_eq!(CarInfo::from_bytes(&v.to_bytes()), Ok(v));
}

#[test]
fn boost_pad_state_round_trips() {
    let v = sample_pad_state();
    assert_eq!(BoostPadState::from_bytes(&v.to_bytes()), Ok(v));
}

#[test]
fn boost_pad_round_trips() {
    let v = sample_pad();
    assert_eq!(BoostPad::from_bytes(&v.to_bytes()), Ok(v));
}

#[test]
fn fixed_types_reject_truncated_buffers() {
    let v3 = sample_vec3().to_bytes();
    assert_eq!(Vec3::from_bytes(&v3[..11]), Err(WireError::FormatError));
    assert_eq!(Vec3::from_bytes(&[]), Err(WireError::FormatError));
    let rm = sample_rot_mat().to_bytes();
    assert_eq!(RotMat::from_bytes(&rm[..35]), Err(WireError::FormatError));
    let bs = sample_ball_state().to_bytes();
    assert_eq!(BallState::from_bytes(&bs[..91]), Err(WireError::FormatError));
    let cs = sample_car_state().to_bytes();
    assert_eq!(CarState::from_bytes(&cs[..245]), Err(WireError::FormatError));
    let ci = sample_car_info(1, Team::Blue).to_bytes();
    assert_eq!(CarInfo::from_bytes(&ci[..318]), Err(WireError::FormatError));
    let bp = sample_pad().to_bytes();
    assert_eq!(BoostPad::from_bytes(&bp[..25]), Err(WireError::FormatError));
    assert_eq!(u32::from_bytes(&[1, 2, 3]), Err(WireError::FormatError));
    assert_eq!(u64::from_bytes(&[1, 2, 3, 4, 5, 6, 7]), Err(WireError::FormatError));
    assert_eq!(bool::from_bytes(&[]), Err(WireError::FormatError));
    assert_eq!(Team::from_bytes(&[]), Err(WireError::FormatError));
    assert_eq!(GameMode::from_bytes(&[]), Err(WireError::FormatError));
}

#[test]
fn fixed_types_reject_oversized_buffers() {
    let mut v3 = sample_vec3().to_bytes();
    v3.push(0);
    assert_eq!(Vec3::from_bytes(&v3), Err(WireError::FormatError));
    assert_eq!(Team::from_bytes(&[0, 0]), Err(WireError::FormatError));
}

#[test]
fn car_info_rejects_invalid_team_byte() {
    let mut encoded = sample_car_info(3, Team::Blue).to_bytes();
    encoded[4] = 2;
    assert_eq!(CarInfo::from_bytes(&encoded), Err(WireError::FormatError));
}

#[test]
fn defaults_match_the_documented_spawn_values() {
    let ball = BallState::default();
    assert_eq!(ball.pos.z, 93.15f32.to_bits());
    assert_eq!(ball.pos.x, 0);
    assert_eq!(ball.pos.y, 0);
    assert_eq!(ball.heatseeker_target_speed, 2900.0f32.to_bits());
    assert_eq!(ball.update_counter, 0);
    let rot = RotMat::default();
    assert_eq!(rot.forward.x, 1.0f32.to_bits());
    assert_eq!(rot.right.y, 1.0f32.to_bits());
    assert_eq!(rot.up.z, 1.0f32.to_bits());
    assert_eq!(rot.forward.y, 0);
    assert_eq!(Team::default(), Team::Blue);
    assert_eq!(GameMode::default(), GameMode::TheVoid);
    assert_eq!(Vec3::default(), Vec3 { x: 0, y: 0, z: 0 });
}
