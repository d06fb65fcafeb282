use std::path::PathBuf;

use zenaudio::command::{after_command, DecoderMessage};
use zenaudio::decoder::{DecoderAction, DecoderEvent};
use zenaudio::engine::{settle, AudioEngine, AudioEngineConfig, EngineError, EngineSetup};
use zenaudio::status::{clamp_volume, PlaybackStatus, PlayerState};

/// Has the decoder take the next command; its own effect goes to a status of its own.
fn next_action(setup: &mut EngineSetup) -> DecoderAction {
    let mut status = PlaybackStatus::initial();
    setup.decoder.step(DecoderEvent::Woken, &mut status, &mut setup.ring)
}

#[test]
fn a_new_engine_is_idle() {
    let mut setup = AudioEngine::new(44_100, 2);
    assert_eq!(setup.engine.get_state(), PlayerState::Stopped);
    assert_eq!(setup.engine.get_position_ms(), 0);
    assert_eq!(setup.engine.get_duration_ms(), 0);
    assert!(!setup.engine.has_file());
    assert_eq!(setup.engine.status.volume, 1000);
    assert!(matches!(next_action(&mut setup), DecoderAction::Sleep));
}

#[test]
fn the_ring_holds_half_a_second() {
    let config = AudioEngineConfig::default();
    assert_eq!(config.buffer_duration_ms, 500);
    assert_eq!(config.resampling_quality_permille, 950);
    assert_eq!(config.buffer_capacity(44_100, 2), 44_100);
    assert_eq!(config.buffer_capacity(48_000, 6), 144_000);
    assert_eq!(config.buffer_capacity(11_025, 1), 5_512);
    assert_eq!(config.buffer_capacity(0, 2), 0);

    let mut setup = AudioEngine::new(4, 2);
    setup.ring.write_latest(&[1, 2, 3]);
    assert!(!setup.ring.is_full());
    setup.ring.write_latest(&[4]);
    assert!(setup.ring.is_full());
}

#[test]
fn playing_without_a_file_is_ignored() {
    let mut setup = AudioEngine::new(44_100, 2);
    assert_eq!(setup.engine.play(), Ok(()));
    assert_eq!(setup.engine.get_state(), PlayerState::Stopped);
    drop(setup.decoder);
    assert_eq!(setup.engine.play(), Ok(()));
    assert_eq!(setup.engine.seek(1_000), Ok(()));
}

#[test]
fn the_controls_set_the_state() {
    let mut setup = AudioEngine::new(44_100, 2);
    setup.engine.status.has_file = true;
    setup.engine.status.position_ms = 5_000;
    setup.engine.status.duration_ms = 9_000;
    assert_eq!(setup.engine.play(), Ok(()));
    assert_eq!(setup.engine.get_state(), PlayerState::Playing);
    assert_eq!(setup.engine.pause(), Ok(()));
    assert_eq!(setup.engine.get_state(), PlayerState::Paused);
    assert_eq!(setup.engine.get_position_ms(), 5_000);
    assert_eq!(setup.engine.stop(), Ok(()));
    assert_eq!(setup.engine.get_state(), PlayerState::Stopped);
    assert_eq!(setup.engine.get_position_ms(), 0);
    assert_eq!(setup.engine.get_duration_ms(), 9_000);
    assert!(setup.engine.has_file());
}

#[test]
fn commands_go_to_the_decoder_of_their_engine() {
    let mut first = AudioEngine::new(44_100, 2);
    let mut second = AudioEngine::new(44_100, 2);
    first.engine.load_file(PathBuf::from("a.mp3")).unwrap();
    assert!(matches!(next_action(&mut second), DecoderAction::Sleep));
    assert!(matches!(next_action(&mut first), DecoderAction::Open(_)));
    drop(second.decoder);
    assert_eq!(first.engine.pause(), Ok(()));
    assert_eq!(second.engine.pause(), Err(EngineError::DecoderGone));
}

#[test]
fn commands_reach_the_decoder_in_order() {
    let mut setup = AudioEngine::new(44_100, 2);
    setup.engine.load_file(PathBuf::from("a.mp3")).unwrap();
    setup.engine.load_file(PathBuf::from("b.mp3")).unwrap();
    match next_action(&mut setup) {
        DecoderAction::Open(path) => assert_eq!(path, PathBuf::from("a.mp3")),
        _ => panic!("the first file was not opened"),
    }
    match next_action(&mut setup) {
        DecoderAction::Open(path) => assert_eq!(path, PathBuf::from("b.mp3")),
        _ => panic!("the second file was not opened"),
    }
    assert!(matches!(next_action(&mut setup), DecoderAction::Sleep));
}

#[test]
fn the_decoder_catches_up_with_the_controls() {
    let mut setup = AudioEngine::new(44_100, 2);
    setup.engine.status.has_file = true;
    setup.engine.status.position_ms = 5_000;
    setup.engine.play().unwrap();
    setup.engine.stop().unwrap();
    setup.engine.play().unwrap();
    setup.engine.pause().unwrap();
    setup.engine.set_volume(300).unwrap();
    let made = setup.engine.status;
    for _ in 0..6 {
        setup.decoder.step(DecoderEvent::Woken, &mut setup.engine.status, &mut setup.ring);
    }
    assert_eq!(setup.engine.status, made);
    assert_eq!(made.state, PlayerState::Paused);
    assert_eq!(made.position_ms, 0);
}

#[test]
fn a_decoder_that_is_gone_refuses_commands() {
    let mut setup = AudioEngine::new(44_100, 2);
    setup.engine.status.has_file = true;
    setup.engine.status.position_ms = 5_000;
    drop(setup.decoder);
    let before = setup.engine.status;
    assert_eq!(setup.engine.play(), Err(EngineError::DecoderGone));
    assert_eq!(setup.engine.pause(), Err(EngineError::DecoderGone));
    assert_eq!(setup.engine.stop(), Err(EngineError::DecoderGone));
    assert_eq!(setup.engine.seek(7), Err(EngineError::DecoderGone));
    assert_eq!(setup.engine.load_file(PathBuf::from("a.mp3")), Err(EngineError::DecoderGone));
    assert_eq!(setup.engine.status, before);
    assert_eq!(setup.engine.set_volume(250), Err(EngineError::DecoderGone));
    assert_eq!(setup.engine.status.volume, 250);
}

#[test]
fn volumes_are_brought_into_range() {
    let mut setup = AudioEngine::new(44_100, 2);
    assert_eq!(setup.engine.set_volume(500), Ok(()));
    assert_eq!(setup.engine.status.volume, 500);
    assert_eq!(setup.engine.set_volume(-3), Ok(()));
    assert_eq!(setup.engine.status.volume, 0);
    assert_eq!(setup.engine.set_volume(1_001), Ok(()));
    assert_eq!(setup.engine.status.volume, 1_000);
    assert_eq!(clamp_volume(i64::MIN), 0);
    assert_eq!(clamp_volume(i64::MAX), 1_000);
    assert_eq!(clamp_volume(999), 999);
}

#[test]
fn scaling_before_clamping_is_clamping_before_scaling() {
    for volume in [0.0f32, 0.3, 0.33333, 0.5, 0.9999, 1.0, 1.0001, 7.5, -0.2, -9.0] {
        let scaled = (volume * 1000.0) as i64;
        assert_eq!(clamp_volume(scaled), (volume.clamp(0.0, 1.0) * 1000.0) as u64);
    }
    assert_eq!(clamp_volume((f32::NAN * 1000.0) as i64), (f32::NAN.clamp(0.0, 1.0) * 1000.0) as u64);
}

#[test]
fn states_survive_as_numbers() {
    assert_eq!(PlayerState::Stopped.code(), 0);
    assert_eq!(PlayerState::Playing.code(), 1);
    assert_eq!(PlayerState::Paused.code(), 2);
    for state in [PlayerState::Stopped, PlayerState::Playing, PlayerState::Paused] {
        assert_eq!(PlayerState::from_code(state.code()), state);
    }
    assert_eq!(PlayerState::from_code(3), PlayerState::Stopped);
    assert_eq!(PlayerState::from_code(u64::MAX), PlayerState::Stopped);
}

#[test]
fn commands_take_effect_once() {
    let mut status = PlaybackStatus::initial();
    status.position_ms = 8;
    for message in [
        DecoderMessage::Play,
        DecoderMessage::Pause,
        DecoderMessage::Stop,
        DecoderMessage::Seek(3),
        DecoderMessage::SetVolume(4),
        DecoderMessage::LoadFile(PathBuf::from("x")),
    ] {
        let once = after_command(&status, &message);
        assert_eq!(after_command(&once, &message), once);
        assert_eq!(once.volume, status.volume);
    }
    assert_eq!(after_command(&status, &DecoderMessage::Seek(3)), status);
    assert_eq!(after_command(&status, &DecoderMessage::SetVolume(4)), status);
}

#[test]
fn only_delivered_commands_settle() {
    let mut status = PlaybackStatus::initial();
    let next = after_command(&status, &DecoderMessage::Pause);
    assert_eq!(settle(&mut status, next, false), Err(EngineError::DecoderGone));
    assert_eq!(status, PlaybackStatus::initial());
    assert_eq!(settle(&mut status, next, true), Ok(()));
    assert_eq!(status.state, PlayerState::Paused);
}
