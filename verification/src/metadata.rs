//! What is shown of a file: its title, artist and length.

use vstd::prelude::*;

use crate::display::{clock, format_seconds};

verus! {

/// The title shown for a file that has none.
pub const UNKNOWN_TITLE: &'static str = "未知歌曲";

/// The artist shown for a file that has none.
pub const UNKNOWN_ARTIST: &'static str = "未知艺术家";

/// The length shown for a file whose length is not known.
pub const UNKNOWN_DURATION: &'static str = "0:00";

/// The parts of a tag that are shown.
#[derive(Debug, PartialEq, Eq)]
pub struct RawTag {
    pub title: Option<String>,
    pub artist: Option<String>,
}

/// What is shown of a file.
#[derive(Debug, PartialEq, Eq)]
pub struct SongInfo {
    pub title: String,
    pub artist: String,
    pub duration: String,
}

/// Why nothing can be shown of a file.
#[derive(Debug, Clone, Copy, PartialEq, Eq, Structural)]
pub enum MetadataError {
    /// The file has no tag.
    NoTag,
}

/// What is shown of a file, as character sequences.
#[verifier::ext_equal]
pub struct SongView {
    pub title: Seq<char>,
    pub artist: Seq<char>,
    pub duration: Seq<char>,
}

impl View for SongInfo {
    type V = SongView;

    open spec fn view(&self) -> SongView {
        SongView { title: self.title@, artist: self.artist@, duration: self.duration@ }
    }
}

/// The text, or a text to show in its place.
pub open spec fn text_or(text: Option<String>, fallback: &str) -> Seq<char> {
    match text {
        Some(found) => found@,
        None => fallback@,
    }
}

/// What is shown of a file with this tag and this length in seconds.
pub open spec fn song(tag: RawTag, duration_secs: Option<u64>) -> SongView {
    SongView {
        title: text_or(tag.title, UNKNOWN_TITLE),
        artist: text_or(tag.artist, UNKNOWN_ARTIST),
        duration: match duration_secs {
            Some(secs) => clock(secs as nat),
            None => UNKNOWN_DURATION@,
        },
    }
}

/// What is shown of a file of which nothing is known.
pub open spec fn unknown_song() -> SongView {
    SongView {
        title: UNKNOWN_TITLE@,
        artist: UNKNOWN_ARTIST@,
        duration: UNKNOWN_DURATION@,
    }
}

/// The tag to show: the primary one, or else the first.
pub open spec fn shown_tag(primary: Option<RawTag>, first: Option<RawTag>) -> Option<RawTag> {
    if primary is Some {
        primary
    } else {
        first
    }
}

/// The text, or a text to show in its place.
fn text_or_else(text: Option<String>, fallback: &'static str) -> (shown: String)
    ensures
        shown@ == text_or(text, fallback),
{
    match text {
        Some(found) => found,
        None => fallback.to_owned(),
    }
}

/// What is shown of a file, from the tags read from it and its length in seconds. It fails if
/// there is no tag.
pub fn parse_metadata(
    primary: Option<RawTag>,
    first: Option<RawTag>,
    duration_secs: Option<u64>,
) -> (info: Result<SongInfo, MetadataError>)
    ensures
        match shown_tag(primary, first) {
            Some(tag) => info is Ok && info->Ok_0@ == song(tag, duration_secs),
            None => info is Err && info->Err_0 is NoTag,
        },
{
    let tag = match primary {
        Some(tag) => tag,
        None => match first {
            Some(tag) => tag,
            None => {
                return Err(MetadataError::NoTag);
            },
        },
    };
    let duration = match duration_secs {
        Some(secs) => format_seconds(secs),
        None => UNKNOWN_DURATION.to_owned(),
    };
    Ok(
        SongInfo {
            title: text_or_else(tag.title, UNKNOWN_TITLE),
            artist: text_or_else(tag.artist, UNKNOWN_ARTIST),
            duration,
        },
    )
}

/// What is shown of a file, with everything unknown where its metadata could not be read.
pub fn shown_info(metadata: Option<SongInfo>) -> (info: SongInfo)
    ensures
        info@ == match metadata {
            Some(known) => known@,
            None => unknown_song(),
        },
{
    match metadata {
        Some(known) => known,
        None => SongInfo {
            title: UNKNOWN_TITLE.to_owned(),
            artist: UNKNOWN_ARTIST.to_owned(),
            duration: UNKNOWN_DURATION.to_owned(),
        },
    }
}

/// What is shown of a file with a tag is what the tag says: its title and its artist where it has
/// them, and the words for an unknown one where it has not. The length is shown as a clock does,
/// where it is known.
pub proof fn tags_are_shown_as_they_are(tag: RawTag, duration_secs: Option<u64>)
    ensures
        ({
            let shown = song(tag, duration_secs);
            &&& tag.title matches Some(title) ==> shown.title == title@
            &&& tag.title is None ==> shown.title == "未知歌曲"@
            &&& tag.artist matches Some(artist) ==> shown.artist == artist@
            &&& tag.artist is None ==> shown.artist == "未知艺术家"@
            &&& duration_secs matches Some(secs) ==> shown.duration == clock(secs as nat)
            &&& duration_secs is None ==> shown.duration == "0:00"@
        }),
        unknown_song().title == "未知歌曲"@,
        unknown_song().artist == "未知艺术家"@,
        unknown_song().duration == "0:00"@,
{
}

/// The primary tag is shown whenever there is one, the first tag only where there is none, and there
/// is nothing to show only where there is neither.
pub proof fn the_primary_tag_goes_first(primary: Option<RawTag>, first: Option<RawTag>)
    ensures
        primary is Some ==> shown_tag(primary, first) == primary,
        primary is None ==> shown_tag(primary, first) == first,
{
}

/// What is shown of a file is its title, its artist and its length.
pub proof fn songs_are_shown_as_they_are(info: SongInfo)
    ensures
        info@.title == info.title@,
        info@.artist == info.artist@,
        info@.duration == info.duration@,
{
}

} // verus!
