//! The player as a whole: its engine and its playlist.

use std::path::PathBuf;

use vstd::prelude::*;

use crate::command::{commanded, DecoderMessage};
use crate::engine::{AudioEngine, EngineError};
use crate::metadata::{shown_info, unknown_song, SongInfo, SongView};

verus! {

/// An entry of the playlist.
#[derive(Debug)]
pub struct PlaylistItem {
    pub path: PathBuf,
    pub title: String,
    pub artist: String,
    pub duration: String,
}

impl PlaylistItem {
    /// What is shown of the entry.
    pub open spec fn shown(self) -> SongView {
        SongView { title: self.title@, artist: self.artist@, duration: self.duration@ }
    }
}

/// The player: its engine, once there is one, and the files that were played.
pub struct AppState {
    pub audio_engine: Option<AudioEngine>,
    pub playlist: Vec<PlaylistItem>,
    pub current_index: usize,
    pub is_loaded: bool,
}

/// What came of loading and playing a file.
pub struct LoadReport {
    /// The title to show.
    pub title: String,
    /// The artist to show.
    pub artist: String,
    /// Whether the engine took the file. Without an engine there is nothing to go wrong.
    pub load: Result<(), EngineError>,
    /// Whether the engine then took the command to play.
    pub play: Result<(), EngineError>,
}

/// What loading and playing a file does to the engine: the file is handed over and, unless that
/// fails, so is the command to play, which the decoder gets once it has dealt with the file.
pub open spec fn loaded_and_played(
    before: AudioEngine,
    after: AudioEngine,
    path: PathBuf,
    load: Result<(), EngineError>,
    play: Result<(), EngineError>,
) -> bool {
    let handed_over = before.messages().push((DecoderMessage::LoadFile(path), load is Ok));
    &&& before.same_line(after)
    &&& if load is Err {
        &&& play is Ok
        &&& after.status == before.status
        &&& after.messages() == handed_over
    } else {
        &&& after.status == if play is Ok {
            commanded(before.status, DecoderMessage::Play)
        } else {
            before.status
        }
        &&& after.messages() == handed_over.push((DecoderMessage::Play, play is Ok))
    }
}

impl AppState {
    /// A player without an engine and with an empty playlist.
    pub fn new() -> (app: Self)
        ensures
            app.audio_engine is None,
            app.playlist@ == Seq::<PlaylistItem>::empty(),
            app.current_index == 0,
            !app.is_loaded,
    {
        AppState { audio_engine: None, playlist: Vec::new(), current_index: 0, is_loaded: false }
    }

    /// Loads a file into the engine, starts playing it, and adds it to the playlist.
    ///
    /// A file whose metadata could not be read is shown as unknown. A file that the engine does
    /// not take is not added to the playlist; without an engine, it still is.
    pub fn load_and_play_file(&mut self, path: &PathBuf, metadata: Option<SongInfo>) -> (report:
        LoadReport)
        ensures
            report.title@ == shown_song(metadata).title,
            report.artist@ == shown_song(metadata).artist,
            final(self).current_index == old(self).current_index,
            final(self).is_loaded == old(self).is_loaded,
            final(self).audio_engine is Some <==> old(self).audio_engine is Some,
            old(self).audio_engine is None ==> report.load is Ok && report.play is Ok,
            old(self).audio_engine is Some ==> loaded_and_played(
                old(self).audio_engine->0,
                final(self).audio_engine->0,
                *path,
                report.load,
                report.play,
            ),
            old(self).audio_engine is Some && report.load is Ok
                ==> final(self).audio_engine->0.messages() == old(self).audio_engine->0.messages().push(
                (DecoderMessage::LoadFile(*path), true),
            ).push((DecoderMessage::Play, report.play is Ok)),
            report.load is Err ==> final(self).playlist@ == old(self).playlist@,
            report.load is Ok ==> {
                &&& final(self).playlist@.len() == old(self).playlist@.len() + 1
                &&& final(self).playlist@.drop_last() == old(self).playlist@
                &&& final(self).playlist@.last().path == *path
                &&& final(self).playlist@.last().shown() == shown_song(metadata)
            },
    {
        let info = shown_info(metadata);
        let title = info.title.clone();
        let artist = info.artist.clone();
        let mut play: Result<(), EngineError> = Ok(());
        if let Some(mut engine) = self.audio_engine.take() {
            let ghost before = engine;
            let load = engine.load_file(path.clone());
            if load.is_ok() {
                play = engine.post(DecoderMessage::Play);
            }
            assert(loaded_and_played(before, engine, *path, load, play));
            self.audio_engine = Some(engine);
            if load.is_err() {
                return LoadReport { title, artist, load, play };
            }
        }
        self.playlist.push(
            PlaylistItem {
                path: path.clone(),
                title: info.title,
                artist: info.artist,
                duration: info.duration,
            },
        );
        assert(self.playlist@.drop_last() =~= old(self).playlist@);
        LoadReport { title, artist, load: Ok(()), play }
    }
}

/// What is shown of a file, with everything unknown where its metadata could not be read.
pub open spec fn shown_song(metadata: Option<SongInfo>) -> SongView {
    match metadata {
        Some(known) => known@,
        None => unknown_song(),
    }
}

/// A file is shown and listed with the title, the artist and the length that its metadata give, or as
/// unknown where they could not be read.
pub proof fn files_are_listed_as_they_are_shown(metadata: Option<SongInfo>, item: PlaylistItem)
    ensures
        match metadata {
            Some(known) => {
                &&& shown_song(metadata).title == known.title@
                &&& shown_song(metadata).artist == known.artist@
                &&& shown_song(metadata).duration == known.duration@
            },
            None => {
                &&& shown_song(metadata).title == "未知歌曲"@
                &&& shown_song(metadata).artist == "未知艺术家"@
                &&& shown_song(metadata).duration == "0:00"@
            },
        },
        item.shown().title == item.title@,
        item.shown().artist == item.artist@,
        item.shown().duration == item.duration@,
{
}

} // verus!
