use std::path::PathBuf;

use zenaudio::command::DecoderMessage;
use zenaudio::decoder::{
    find_track, resampler_settings, select_track, CommandAction, DecoderAction, DecoderEvent,
    FilterWindow, Interpolation, LoadError, PacketAction, PacketEvent, SeekRequest, TrackInfo,
    TrackPlan,
};
use zenaudio::engine::{AudioEngine, EngineSetup};
use zenaudio::status::PlayerState;
use zenaudio::timebase::TimeBase;

fn track(id: u32, has_codec: bool) -> TrackInfo {
    TrackInfo { id, has_codec, sample_rate: None, time_base: None, n_frames: None }
}

fn song(id: u32) -> TrackInfo {
    TrackInfo {
        id,
        has_codec: true,
        sample_rate: Some(44_100),
        time_base: Some(TimeBase { numer: 1, denom: 44_100 }),
        n_frames: Some(44_100 * 185 + 5),
    }
}

fn step(setup: &mut EngineSetup, event: DecoderEvent) -> DecoderAction {
    setup.decoder.step(event, &mut setup.engine.status, &mut setup.ring)
}

/// An engine with a file of these tracks loaded.
fn loaded(rate: u32, tracks: Vec<TrackInfo>) -> (EngineSetup, TrackPlan) {
    let mut setup = AudioEngine::new(rate, 2);
    let plan = match step(&mut setup, DecoderEvent::Opened(Some(tracks))) {
        DecoderAction::Prepare(plan) => plan,
        _ => panic!("the file was not taken"),
    };
    let event = DecoderEvent::Prepared { plan, resampler_ready: true, decoder_ready: true };
    assert!(matches!(step(&mut setup, event), DecoderAction::Sleep));
    (setup, plan)
}

fn drain(setup: &mut EngineSetup, wanted: usize) -> Vec<u32> {
    let mut out = vec![3u32; wanted];
    setup.ring.render(PlayerState::Playing, &mut out);
    out
}

#[test]
fn the_first_audio_track_is_selected() {
    let tracks = vec![track(4, false), track(7, true), track(8, true)];
    assert_eq!(select_track(&tracks), Some(7));
    assert_eq!(find_track(&tracks, 8), Some(2));
    assert_eq!(find_track(&tracks, 4), Some(0));
    assert_eq!(find_track(&tracks, 9), None);
    assert_eq!(select_track(&vec![track(1, false)]), None);
    assert_eq!(select_track(&Vec::new()), None);
}

#[test]
fn a_loaded_file_sets_length_and_file() {
    let (setup, plan) = loaded(44_100, vec![track(1, false), song(2)]);
    assert_eq!(plan.track_index, 1);
    assert_eq!(plan.track_id, 2);
    assert_eq!(plan.resampler, None);
    assert_eq!(plan.duration_ms, Some(185_000));
    assert!(setup.engine.has_file());
    assert_eq!(setup.engine.get_duration_ms(), 185_000);
    assert!(!setup.decoder.is_resampling());
}

#[test]
fn a_number_used_twice_stands_for_the_first_track() {
    let mut second = song(5);
    second.sample_rate = Some(8_000);
    let (_, plan) = loaded(44_100, vec![track(5, false), second]);
    assert_eq!(plan.track_index, 0);
    assert_eq!(plan.resampler, None);
    assert_eq!(plan.duration_ms, None);
}

#[test]
fn an_unknown_length_keeps_the_old_one() {
    let (mut setup, _) = loaded(44_100, vec![song(1)]);
    let mut endless = song(1);
    endless.n_frames = None;
    let plan = match step(&mut setup, DecoderEvent::Opened(Some(vec![endless]))) {
        DecoderAction::Prepare(plan) => plan,
        _ => panic!("the file was not taken"),
    };
    assert_eq!(plan.duration_ms, None);
    step(
        &mut setup,
        DecoderEvent::Prepared { plan, resampler_ready: false, decoder_ready: true },
    );
    assert_eq!(setup.engine.get_duration_ms(), 185_000);
}

#[test]
fn other_rates_are_resampled() {
    let (setup, plan) = loaded(48_000, vec![song(1)]);
    assert_eq!(plan.resampler, Some(resampler_settings(44_100, 48_000, 2)));
    assert!(setup.decoder.is_resampling());

    let settings = resampler_settings(44_100, 48_000, 2);
    assert_eq!(settings.sinc_len, 256);
    assert_eq!(settings.oversampling_factor, 256);
    assert_eq!(settings.chunk_frames, 1024);
    assert_eq!(settings.cutoff_permille, 950);
    assert_eq!(settings.relative_ratio_permille, 1000);
    assert_eq!(settings.interpolation, Interpolation::Linear);
    assert_eq!(settings.window, FilterWindow::BlackmanHarrisSquared);
}

#[test]
fn a_track_without_a_rate_is_taken_for_44100() {
    let (_, plan) = loaded(44_100, vec![track(1, true)]);
    assert_eq!(plan.resampler, None);
    let (_, plan) = loaded(22_050, vec![track(1, true)]);
    assert_eq!(plan.resampler, Some(resampler_settings(44_100, 22_050, 2)));
}

#[test]
fn without_the_resampler_samples_go_as_they_are() {
    let mut setup = AudioEngine::new(48_000, 2);
    let plan = match step(&mut setup, DecoderEvent::Opened(Some(vec![song(1)]))) {
        DecoderAction::Prepare(plan) => plan,
        _ => panic!("the file was not taken"),
    };
    step(
        &mut setup,
        DecoderEvent::Prepared { plan, resampler_ready: false, decoder_ready: true },
    );
    assert!(!setup.decoder.is_resampling());
}

#[test]
fn a_file_that_cannot_be_read_is_reported() {
    let (mut setup, _) = loaded(44_100, vec![song(1)]);
    setup.engine.play().unwrap();
    let action = step(&mut setup, DecoderEvent::Opened(None));
    assert!(matches!(action, DecoderAction::Report(LoadError::Unreadable)));
    assert!(!setup.engine.has_file());
    let action = step(&mut setup, DecoderEvent::Reported);
    assert!(matches!(action, DecoderAction::ReadPacket));
}

#[test]
fn a_file_without_audio_is_reported() {
    let mut setup = AudioEngine::new(44_100, 2);
    let action = step(&mut setup, DecoderEvent::Opened(Some(vec![track(1, false)])));
    assert!(matches!(action, DecoderAction::Report(LoadError::NoAudioTrack)));
    assert!(!setup.engine.has_file());
    assert!(matches!(step(&mut setup, DecoderEvent::Reported), DecoderAction::Sleep));
}

#[test]
fn a_round_plays_one_packet() {
    let (mut setup, _) = loaded(44_100, vec![song(1)]);
    setup.engine.play().unwrap();
    assert!(matches!(step(&mut setup, DecoderEvent::Woken), DecoderAction::ReadPacket));
    let read = DecoderEvent::Packet(PacketEvent::Read { track_id: 1 });
    assert!(matches!(step(&mut setup, read), DecoderAction::Decode));
    let decoded = DecoderEvent::Packet(PacketEvent::Decoded { timestamp: 44_100 * 12 });
    assert!(matches!(step(&mut setup, decoded), DecoderAction::Process));
    assert_eq!(setup.engine.get_position_ms(), 12_000);
    assert!(matches!(step(&mut setup, DecoderEvent::Queued), DecoderAction::Sleep));
}

#[test]
fn packets_of_other_tracks_begin_a_new_round_at_once() {
    let (mut setup, _) = loaded(44_100, vec![song(1)]);
    setup.engine.play().unwrap();
    step(&mut setup, DecoderEvent::Woken);
    let before = setup.engine.status;
    let read = DecoderEvent::Packet(PacketEvent::Read { track_id: 2 });
    assert!(matches!(step(&mut setup, read), DecoderAction::Again));
    assert_eq!(setup.engine.status, before);
}

#[test]
fn nothing_is_read_unless_playing() {
    let (mut setup, _) = loaded(44_100, vec![song(1)]);
    assert!(matches!(step(&mut setup, DecoderEvent::Woken), DecoderAction::Sleep));
    setup.engine.play().unwrap();
    setup.engine.pause().unwrap();
    step(&mut setup, DecoderEvent::Woken);
    assert!(matches!(step(&mut setup, DecoderEvent::Woken), DecoderAction::Sleep));
    assert!(!setup.decoder.wants_packet(&setup.engine.status));
}

#[test]
fn nothing_is_read_without_a_decoder() {
    let (mut setup, plan) = loaded(44_100, vec![song(1)]);
    step(
        &mut setup,
        DecoderEvent::Prepared { plan, resampler_ready: true, decoder_ready: false },
    );
    assert!(setup.engine.has_file());
    setup.engine.play().unwrap();
    assert!(matches!(step(&mut setup, DecoderEvent::Woken), DecoderAction::Sleep));
}

#[test]
fn the_end_of_the_file_stops() {
    let (mut setup, _) = loaded(44_100, vec![song(1)]);
    setup.engine.play().unwrap();
    step(&mut setup, DecoderEvent::Woken);
    setup.engine.status.position_ms = 4_000;
    let end = DecoderEvent::Packet(PacketEvent::EndOfFile);
    assert!(matches!(step(&mut setup, end), DecoderAction::Sleep));
    assert_eq!(setup.engine.get_state(), PlayerState::Stopped);
    assert!(!setup.engine.has_file());
    assert_eq!(setup.engine.get_position_ms(), 4_000);
    setup.engine.play().unwrap();
    assert_eq!(setup.engine.get_state(), PlayerState::Stopped);
}

#[test]
fn failures_are_passed_over() {
    let (mut setup, _) = loaded(44_100, vec![song(1)]);
    setup.engine.play().unwrap();
    step(&mut setup, DecoderEvent::Woken);
    let before = setup.engine.status;
    for event in [PacketEvent::DecodeFailed, PacketEvent::ReadFailed] {
        let action = setup.decoder.packet_event(event, &mut setup.engine.status);
        assert_eq!(action, PacketAction::Rest);
        assert_eq!(setup.engine.status, before);
    }
}

#[test]
fn the_playing_track_times_the_position() {
    let mut video = track(9, false);
    video.time_base = Some(TimeBase { numer: 1, denom: 1_000 });
    let (mut setup, _) = loaded(44_100, vec![video, song(1)]);
    let decoded = DecoderEvent::Packet(PacketEvent::Decoded { timestamp: 44_100 * 7 });
    step(&mut setup, decoded);
    assert_eq!(setup.engine.get_position_ms(), 7_000);
}

#[test]
fn a_bad_time_base_of_another_track_does_not_matter() {
    let mut video = track(9, false);
    video.time_base = Some(TimeBase { numer: 0, denom: 0 });
    let (mut setup, plan) = loaded(44_100, vec![video, song(1)]);
    assert_eq!(plan.duration_ms, Some(185_000));
    let decoded = DecoderEvent::Packet(PacketEvent::Decoded { timestamp: 44_100 });
    step(&mut setup, decoded);
    assert_eq!(setup.engine.get_position_ms(), 1_000);
}

#[test]
fn a_bad_time_base_does_not_keep_a_file_of_unknown_length_from_loading() {
    let mut broken = song(1);
    broken.time_base = Some(TimeBase { numer: 0, denom: 0 });
    broken.n_frames = None;
    let (mut setup, plan) = loaded(44_100, vec![broken]);
    assert_eq!(plan.duration_ms, None);
    assert!(setup.engine.has_file());
    setup.engine.play().unwrap();
    assert!(matches!(step(&mut setup, DecoderEvent::Woken), DecoderAction::ReadPacket));
}

#[test]
fn frames_wait_until_the_resampler_can_take_them() {
    let (mut setup, _) = loaded(48_000, vec![song(1)]);
    let left: Vec<u32> = (0..1152).collect();
    let right: Vec<u32> = (5000..6152).collect();
    let input = setup.decoder.feed_resampler(&vec![left.clone(), right.clone()]).unwrap();
    assert!(input.restart);
    assert_eq!(input.blocks, vec![vec![left[..1024].to_vec(), right[..1024].to_vec()]]);
    let input = setup.decoder.feed_resampler(&vec![left.clone(), right.clone()]).unwrap();
    assert!(!input.restart);
    assert_eq!(input.blocks.len(), 1);
    let block = &input.blocks[0];
    assert_eq!(block[0].len(), 1024);
    assert_eq!(block[0][..128], left[1024..]);
    assert_eq!(block[1][128..], right[..896]);
    assert!(setup.decoder.feed_resampler(&vec![left.clone()]).is_none());

    let long = vec![vec![3u32; 2000], vec![4u32; 2000]];
    let input = setup.decoder.feed_resampler(&long).unwrap();
    assert_eq!(input.blocks.len(), 2);
    assert_eq!(input.blocks[0][0][..256], left[896..]);
    assert_eq!(input.blocks[1][1], vec![4u32; 1024]);
}

#[test]
fn nothing_old_waits_after_stopping_seeking_and_loading() {
    let (mut setup, plan) = loaded(48_000, vec![song(1)]);
    let frames = vec![vec![1u32; 1000], vec![2u32; 1000]];
    let base = TimeBase { numer: 1, denom: 44_100 };
    let request = SeekRequest { track_id: 1, seconds: 1, millis: 0, time_base: base };

    let feed = |setup: &mut EngineSetup| {
        let input = setup.decoder.feed_resampler(&frames).unwrap();
        (input.restart, input.blocks.len())
    };
    assert_eq!(feed(&mut setup), (true, 0));
    setup.engine.stop().unwrap();
    step(&mut setup, DecoderEvent::Woken);
    assert_eq!(feed(&mut setup), (true, 0));

    step(&mut setup, DecoderEvent::Sought { request, timestamp: Some(44_100) });
    assert_eq!(feed(&mut setup), (true, 0));

    step(
        &mut setup,
        DecoderEvent::Prepared { plan, resampler_ready: true, decoder_ready: true },
    );
    assert_eq!(feed(&mut setup), (true, 0));
    step(&mut setup, DecoderEvent::Sought { request, timestamp: None });
    assert_eq!(feed(&mut setup), (false, 1));
}

#[test]
fn a_position_without_a_time_base_stays() {
    let (mut setup, _) = loaded(44_100, vec![track(1, true)]);
    setup.engine.status.position_ms = 6;
    let decoded = DecoderEvent::Packet(PacketEvent::Decoded { timestamp: 44_100 });
    assert!(matches!(step(&mut setup, decoded), DecoderAction::Process));
    assert_eq!(setup.engine.get_position_ms(), 6);
}

#[test]
fn stopping_drops_what_is_queued() {
    let mut setup = AudioEngine::new(8, 1);
    setup.ring.write_latest(&[7, 8]);
    setup.engine.status.position_ms = 5_000;
    setup.engine.stop().unwrap();
    step(&mut setup, DecoderEvent::Woken);
    assert_eq!(drain(&mut setup, 4), vec![0, 0, 0, 0]);
    setup.ring.write_latest(&[9]);
    assert_eq!(drain(&mut setup, 2), vec![9, 0]);
    assert_eq!(setup.engine.get_position_ms(), 0);
}

#[test]
fn seeking_aims_at_the_position_and_reports_it() {
    let (mut setup, _) = loaded(44_100, vec![song(1)]);
    setup.engine.seek(12_345).unwrap();
    let request = match step(&mut setup, DecoderEvent::Woken) {
        DecoderAction::Seek(request) => request,
        _ => panic!("no jump was asked for"),
    };
    let base = TimeBase { numer: 1, denom: 44_100 };
    assert_eq!(request, SeekRequest { track_id: 1, seconds: 12, millis: 345, time_base: base });
    setup.ring.write_latest(&[7]);
    let sought = DecoderEvent::Sought { request, timestamp: Some(44_100 * 12 + 9) };
    assert!(matches!(step(&mut setup, sought), DecoderAction::Sleep));
    assert_eq!(setup.engine.get_position_ms(), 12_000);
    assert_eq!(drain(&mut setup, 3), vec![0, 0, 0]);
}

#[test]
fn a_jump_that_fails_changes_nothing() {
    let (mut setup, _) = loaded(44_100, vec![song(1)]);
    setup.engine.status.position_ms = 3;
    setup.ring.write_latest(&[7]);
    let base = TimeBase { numer: 1, denom: 44_100 };
    let request = SeekRequest { track_id: 1, seconds: 12, millis: 345, time_base: base };
    step(&mut setup, DecoderEvent::Sought { request, timestamp: None });
    assert_eq!(setup.engine.get_position_ms(), 3);
    assert_eq!(drain(&mut setup, 2), vec![7, 0]);
}

#[test]
fn seeking_needs_an_open_file_with_a_time_base() {
    let mut setup = AudioEngine::new(44_100, 2);
    let action = setup.decoder.handle_message(
        DecoderMessage::Seek(5),
        &mut setup.engine.status,
        &mut setup.ring,
    );
    assert!(matches!(action, CommandAction::Done));
    let (mut setup, _) = loaded(44_100, vec![track(1, true)]);
    let action = setup.decoder.handle_message(
        DecoderMessage::Seek(5),
        &mut setup.engine.status,
        &mut setup.ring,
    );
    assert!(matches!(action, CommandAction::Done));
}

#[test]
fn commands_are_carried_out() {
    let mut setup = AudioEngine::new(44_100, 2);
    for (message, state) in [
        (DecoderMessage::Play, PlayerState::Playing),
        (DecoderMessage::SetVolume(3), PlayerState::Playing),
        (DecoderMessage::Pause, PlayerState::Paused),
        (DecoderMessage::Stop, PlayerState::Stopped),
    ] {
        let action = setup.decoder.handle_message(
            message,
            &mut setup.engine.status,
            &mut setup.ring,
        );
        assert!(matches!(action, CommandAction::Done));
        assert_eq!(setup.engine.get_state(), state);
        assert_eq!(setup.engine.status.volume, 1_000);
    }
    let path = PathBuf::from("/music/a.flac");
    let action = setup.decoder.handle_message(
        DecoderMessage::LoadFile(path.clone()),
        &mut setup.engine.status,
        &mut setup.ring,
    );
    match action {
        CommandAction::Open(opened) => assert_eq!(opened, path),
        _ => panic!("the file was not opened"),
    }
}

#[test]
fn without_a_command_the_round_goes_on() {
    let mut setup = AudioEngine::new(44_100, 2);
    let action = setup.decoder.poll_command(&mut setup.engine.status, &mut setup.ring);
    assert!(matches!(action, CommandAction::Done));
    assert_eq!(setup.engine.get_state(), PlayerState::Stopped);
}
