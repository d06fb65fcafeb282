use std::path::PathBuf;

use zenaudio::decoder::{DecoderAction, DecoderEvent, TrackInfo};
use zenaudio::engine::{AudioEngine, EngineError};
use zenaudio::metadata::{parse_metadata, shown_info, MetadataError, RawTag, SongInfo};
use zenaudio::paths::{extract_filename, file_argument, title_from_stem};
use zenaudio::player::AppState;
use zenaudio::status::PlayerState;

fn tag(title: Option<&str>, artist: Option<&str>) -> RawTag {
    RawTag { title: title.map(|t| t.to_string()), artist: artist.map(|a| a.to_string()) }
}

fn info(title: &str, artist: &str, duration: &str) -> SongInfo {
    SongInfo {
        title: title.to_string(),
        artist: artist.to_string(),
        duration: duration.to_string(),
    }
}

#[test]
fn metadata_comes_from_the_primary_tag() {
    let primary = tag(Some("Title"), Some("Artist"));
    let first = tag(Some("Other"), None);
    assert_eq!(
        parse_metadata(Some(primary), Some(first), Some(245)),
        Ok(info("Title", "Artist", "4:05"))
    );
}

#[test]
fn metadata_falls_back_on_the_first_tag() {
    let first = tag(Some("Other"), Some("Someone"));
    assert_eq!(parse_metadata(None, Some(first), Some(59)), Ok(info("Other", "Someone", "0:59")));
}

#[test]
fn missing_parts_are_shown_as_unknown() {
    assert_eq!(
        parse_metadata(Some(tag(None, None)), None, None),
        Ok(info("未知歌曲", "未知艺术家", "0:00"))
    );
    assert_eq!(
        parse_metadata(Some(tag(None, Some("A"))), Some(tag(Some("B"), None)), Some(60)),
        Ok(info("未知歌曲", "A", "1:00"))
    );
}

#[test]
fn a_file_without_tags_has_no_metadata() {
    assert_eq!(parse_metadata(None, None, Some(10)), Err(MetadataError::NoTag));
    assert_eq!(shown_info(None), info("未知歌曲", "未知艺术家", "0:00"));
    assert_eq!(shown_info(Some(info("a", "b", "c"))), info("a", "b", "c"));
}

fn title(path: &str) -> String {
    extract_filename(&PathBuf::from(path))
}

#[test]
fn the_extension_does_not_change_the_title() {
    for path in [
        "/music/song.mp3", "song", ".hidden", "a.b.c", "music/", "..song", "...", "..", "",
        "a\\b.mp3", "x.w\\y", "a\\.b", "\\x", "\\.x", "C:song.mp3", "C:.x", "C:", "C:\\a\\b.c",
    ] {
        let path = PathBuf::from(path);
        let mut changed = path.clone();
        changed.set_extension("flac");
        assert_eq!(extract_filename(&changed), extract_filename(&path));
    }
}

#[test]
fn backslashes_and_drives_are_up_to_the_platform() {
    let one_of = |path: &str, slashes: &str, drives: &str| {
        let found = title(path);
        assert!(found == slashes || found == drives, "{path} gives {found}");
    };
    one_of("a\\b.mp3", "a\\b", "b");
    one_of("x.w\\y", "x", "y");
    one_of("\\x.mp3", "\\x", "x");
    one_of("C:song.mp3", "C:song", "song");
    one_of("C:", "C:", "未知歌曲");
    one_of("music/a\\..", "a\\.", "未知歌曲");
}

#[test]
fn colons_are_part_of_a_name() {
    assert_eq!(title("music/12:30 blues.mp3"), "12:30 blues");
    assert_eq!(title(":x.mp3"), ":x");
}

#[test]
fn the_first_argument_is_the_file() {
    let args = |list: &[&str]| list.iter().map(|a| a.to_string()).collect::<Vec<String>>();
    assert_eq!(file_argument(&args(&[])), None);
    assert_eq!(file_argument(&args(&["zenaudio"])), None);
    assert_eq!(
        file_argument(&args(&["zenaudio", "/music/歌.mp3", "other"])),
        Some(PathBuf::from("/music/歌.mp3"))
    );
}

#[test]
fn file_names_lose_their_extension() {
    assert_eq!(title("/music/song.mp3"), "song");
    assert_eq!(title("song.tar.gz"), "song.tar");
    assert_eq!(title("song"), "song");
    assert_eq!(title("歌曲.flac"), "歌曲");
    assert_eq!(title("a b/c d.ogg"), "c d");
    assert_eq!(title("song."), "song");
    assert_eq!(title("..song"), ".");
    assert_eq!(title("..."), "..");
}

#[test]
fn a_leading_dot_is_no_extension() {
    assert_eq!(title(".hidden"), ".hidden");
    assert_eq!(title("dir/.hidden.mp3"), ".hidden");
}

#[test]
fn trailing_separators_and_dots_are_ignored() {
    assert_eq!(title("music/album/"), "album");
    assert_eq!(title("music/song.mp3/."), "song");
    assert_eq!(title("music/song.mp3/.//"), "song");
    assert_eq!(title("music//song.mp3"), "song");
    assert_eq!(title("./song.mp3"), "song");
    assert_eq!(title("../song.mp3"), "song");
}

#[test]
fn paths_without_a_file_name_are_unknown() {
    for path in ["", "/", ".", "./", "./.", "..", "music/..", "music/../.", "/.", "/.."] {
        assert_eq!(title(path), "未知歌曲");
    }
    assert_eq!(title_from_stem(None), "未知歌曲");
    assert_eq!(title_from_stem(Some("x")), "x");
}

#[test]
fn without_an_engine_the_playlist_still_grows() {
    let mut app = AppState::new();
    assert!(app.audio_engine.is_none());
    assert_eq!(app.current_index, 0);
    assert!(!app.is_loaded);
    let report = app.load_and_play_file(&PathBuf::from("a.mp3"), None);
    assert_eq!(report.title, "未知歌曲");
    assert_eq!(report.artist, "未知艺术家");
    assert_eq!(report.load, Ok(()));
    assert_eq!(report.play, Ok(()));
    assert_eq!(app.playlist.len(), 1);
    assert_eq!(app.playlist[0].path, PathBuf::from("a.mp3"));
    assert_eq!(app.playlist[0].duration, "0:00");
}

#[test]
fn a_file_is_handed_over_played_and_listed() {
    let mut setup = AudioEngine::new(44_100, 2);
    let mut app = AppState::new();
    app.audio_engine = Some(setup.engine);
    let path = PathBuf::from("/music/a.mp3");
    let report = app.load_and_play_file(&path, Some(info("T", "A", "3:07")));
    assert_eq!(report.title, "T");
    assert_eq!(report.artist, "A");
    assert_eq!(report.load, Ok(()));
    assert_eq!(report.play, Ok(()));
    assert_eq!(app.playlist[0].title, "T");
    assert_eq!(app.playlist[0].artist, "A");
    assert_eq!(app.playlist[0].duration, "3:07");
    let mut engine = app.audio_engine.unwrap();
    assert_eq!(engine.get_state(), PlayerState::Playing);
    match setup.decoder.step(DecoderEvent::Woken, &mut engine.status, &mut setup.ring) {
        DecoderAction::Open(opened) => assert_eq!(opened, path),
        _ => panic!("the file was not opened"),
    }
    let tracks = vec![TrackInfo {
        id: 1,
        has_codec: true,
        sample_rate: Some(44_100),
        time_base: None,
        n_frames: None,
    }];
    let opened = DecoderEvent::Opened(Some(tracks));
    let plan = match setup.decoder.step(opened, &mut engine.status, &mut setup.ring) {
        DecoderAction::Prepare(plan) => plan,
        _ => panic!("the file was not taken"),
    };
    let prepared = DecoderEvent::Prepared { plan, resampler_ready: false, decoder_ready: true };
    let action = setup.decoder.step(prepared, &mut engine.status, &mut setup.ring);
    assert!(matches!(action, DecoderAction::ReadPacket));

    engine.status.state = PlayerState::Paused;
    setup.decoder.step(DecoderEvent::Woken, &mut engine.status, &mut setup.ring);
    assert_eq!(engine.get_state(), PlayerState::Playing);
}

#[test]
fn a_second_file_starts_playing_at_once() {
    let setup = AudioEngine::new(44_100, 2);
    let mut app = AppState::new();
    app.audio_engine = Some(setup.engine);
    app.audio_engine.as_mut().unwrap().status.has_file = true;
    app.load_and_play_file(&PathBuf::from("a.mp3"), None);
    app.load_and_play_file(&PathBuf::from("b.mp3"), None);
    assert_eq!(app.audio_engine.unwrap().get_state(), PlayerState::Playing);
    assert_eq!(app.playlist.len(), 2);
    assert_eq!(app.playlist[1].path, PathBuf::from("b.mp3"));
}

#[test]
fn a_file_that_is_not_taken_is_not_listed() {
    let setup = AudioEngine::new(44_100, 2);
    drop(setup.decoder);
    let mut app = AppState::new();
    app.audio_engine = Some(setup.engine);
    let report = app.load_and_play_file(&PathBuf::from("a.mp3"), Some(info("T", "A", "3:07")));
    assert_eq!(report.title, "T");
    assert_eq!(report.load, Err(EngineError::DecoderGone));
    assert_eq!(report.play, Ok(()));
    assert_eq!(app.playlist.len(), 0);
    assert!(app.audio_engine.is_some());
}
