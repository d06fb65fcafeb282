//! File paths: the name of the file at the end of a path, and its stem.

use std::path::PathBuf;

use vstd::prelude::*;
use vstd::utf8::{
    decode_utf8, encode_utf8, encode_utf8_decode_utf8, encode_utf8_valid_utf8, valid_utf8,
};

use crate::metadata::UNKNOWN_TITLE;

verus! {

/// A file path of the standard library.
#[verifier::external_type_specification]
#[verifier::external_body]
pub struct ExPathBuf(PathBuf);

/// The bytes of a path in the standard library's own encoding, which for text is UTF-8.
pub uninterp spec fn path_bytes(path: PathBuf) -> Seq<u8>;

/// `PathBuf::clone`: an equal path.
pub assume_specification[ <PathBuf as Clone>::clone ](path: &PathBuf) -> (copy: PathBuf)
    ensures
        copy == *path,
;

/// `PathBuf::from` for a text: the path with that text.
#[verifier::external_body]
fn path_from(text: &str) -> (path: PathBuf)
    ensures
        path_bytes(path) == encode_utf8(text@),
{
    PathBuf::from(text)
}

/// `std::path::Path::file_stem`: the file name at the end of a path without its extension, as text.
/// There is none if the path does not end in a file name, or if the stem is not Unicode. The stem
/// is a part of the path and not empty.
///
/// Which of the two readings applies is up to the platform. What a server at the front of a path
/// means is too; of paths that start like one nothing more is claimed.
#[verifier::external_body]
fn file_stem(path: &PathBuf) -> (found: Option<&str>)
    ensures
        found is Some ==> 0 < found->0@.len() && part_of(
            encode_utf8(found->0@),
            path_bytes(*path),
        ),
        !starts_like_a_server(path_bytes(*path)) ==> is_text_of(
            found,
            path_stem(Reading::Slashes, path_bytes(*path)),
        ) || is_text_of(found, path_stem(Reading::Drives, path_bytes(*path))),
{
    path.file_stem()?.to_str()
}

/// The bytes of the characters that structure a path.
pub const SLASH: u8 = 47;

pub const BACKSLASH: u8 = 92;

pub const COLON: u8 = 58;

pub const DOT: u8 = 46;

/// Whether some bytes stand together in others.
pub open spec fn part_of(part: Seq<u8>, whole: Seq<u8>) -> bool {
    exists|start: int|
        0 <= start && start + part.len() <= whole.len() && #[trigger] whole.subrange(
            start,
            start + part.len(),
        ) == part
}

/// Whether a byte is a letter of a drive.
pub open spec fn is_letter(byte: u8) -> bool {
    65 <= byte <= 90 || 97 <= byte <= 122
}

/// How a platform reads a path.
pub enum Reading {
    /// Slashes separate its segments.
    Slashes,
    /// Slashes and backslashes separate its segments, and a letter with a colon at its front is a
    /// drive.
    Drives,
}

/// Whether a path starts with a letter and a colon.
pub open spec fn starts_like_a_drive(path: Seq<u8>) -> bool {
    path.len() >= 2 && is_letter(path[0]) && path[1] == COLON
}

/// Whether a path starts with two slashes or backslashes.
pub open spec fn starts_like_a_server(path: Seq<u8>) -> bool {
    &&& path.len() >= 2
    &&& path[0] == SLASH || path[0] == BACKSLASH
    &&& path[1] == SLASH || path[1] == BACKSLASH
}

/// A path that reads the same on every platform: slashes are its only separators and it starts
/// neither with a drive nor with a server.
pub open spec fn portable(path: Seq<u8>) -> bool {
    &&& !path.contains(BACKSLASH)
    &&& !starts_like_a_drive(path)
    &&& !starts_like_a_server(path)
}

/// The length of the drive at the front of a path.
pub open spec fn drive_len(reading: Reading, path: Seq<u8>) -> int {
    if reading is Drives && starts_like_a_drive(path) {
        2
    } else {
        0
    }
}

/// The path behind its drive, with a slash for every separator.
pub open spec fn normal(reading: Reading, path: Seq<u8>) -> Seq<u8> {
    path.skip(drive_len(reading, path)).map_values(
        |byte: u8|
            if reading is Drives && byte == BACKSLASH {
                SLASH
            } else {
                byte
            },
    )
}

/// Where a byte stands last, or `-1` where it does not occur.
pub open spec fn last_position(bytes: Seq<u8>, byte: u8) -> int
    decreases bytes.len(),
{
    if bytes.len() == 0 {
        -1
    } else if bytes.last() == byte {
        bytes.len() - 1
    } else {
        last_position(bytes.drop_last(), byte)
    }
}

/// Where the file name at the end of a path with slashes starts and ends: the last segment that is
/// neither empty nor a single dot, unless that is the double dot of a parent directory.
pub open spec fn name_range(path: Seq<u8>) -> Option<(int, int)>
    decreases path.len(),
{
    let slash = last_position(path, SLASH);
    let name = path.skip(slash + 1);
    if name == seq![DOT, DOT] {
        None
    } else if name.len() > 0 && name != seq![DOT] {
        Some((slash + 1, path.len() as int))
    } else if 0 <= slash < path.len() {
        name_range(path.take(slash))
    } else {
        None
    }
}

/// A file name without its extension: what stands before its last dot, or all of it where there is
/// no dot but, possibly, the first character.
pub open spec fn stem(name: Seq<u8>) -> Seq<u8> {
    if last_position(name, DOT) > 0 {
        name.take(last_position(name, DOT))
    } else {
        name
    }
}

/// Where the file name at the end of a path starts and ends.
pub open spec fn file_range(reading: Reading, path: Seq<u8>) -> Option<(int, int)> {
    match name_range(normal(reading, path)) {
        Some((start, end)) => Some(
            (drive_len(reading, path) + start, drive_len(reading, path) + end),
        ),
        None => None,
    }
}

/// The stem of the file name at the end of a path.
pub open spec fn path_stem(reading: Reading, path: Seq<u8>) -> Option<Seq<u8>> {
    match file_range(reading, path) {
        Some((start, end)) => Some(stem(path.subrange(start, end))),
        None => None,
    }
}

/// A path with the extension of its file name replaced, or added where there was none. A path
/// without a file name stays as it is.
pub open spec fn with_extension(reading: Reading, path: Seq<u8>, extension: Seq<u8>) -> Seq<u8> {
    match file_range(reading, path) {
        Some((start, end)) => {
            let kept = path.take(start) + stem(path.subrange(start, end));
            if extension.len() == 0 {
                kept
            } else {
                kept + seq![DOT] + extension
            }
        },
        None => path,
    }
}

/// Whether what was found is the text of these bytes: nothing where there are none or they are not
/// text.
pub open spec fn is_text_of(found: Option<&str>, bytes: Option<Seq<u8>>) -> bool {
    match found {
        Some(text) => bytes == Some(encode_utf8(text@)),
        None => bytes is None || !valid_utf8(bytes->0),
    }
}

/// The title for a file with this path.
pub open spec fn title_of(reading: Reading, path: Seq<u8>) -> Seq<char> {
    match path_stem(reading, path) {
        Some(bytes) => if valid_utf8(bytes) {
            decode_utf8(bytes)
        } else {
            UNKNOWN_TITLE@
        },
        None => UNKNOWN_TITLE@,
    }
}

/// The title for a file whose name has this stem, if it has a name.
pub fn title_from_stem(found: Option<&str>) -> (title: String)
    ensures
        title@ == match found {
            Some(text) => text@,
            None => UNKNOWN_TITLE@,
        },
{
    match found {
        Some(text) => text.to_owned(),
        None => UNKNOWN_TITLE.to_owned(),
    }
}

/// A title for a file that is known by its path alone: the name of the file without its extension,
/// or the title of an unknown song if there is no such name or it is not text. It is never empty.
///
/// Which reading of the path applies, and how one that starts like a server is divided, is up to the
/// platform.
pub fn extract_filename(path: &PathBuf) -> (title: String)
    ensures
        0 < title@.len(),
        title@ == UNKNOWN_TITLE@ || part_of(encode_utf8(title@), path_bytes(*path)),
        !starts_like_a_server(path_bytes(*path)) ==> title@ == title_of(
            Reading::Slashes,
            path_bytes(*path),
        ) || title@ == title_of(Reading::Drives, path_bytes(*path)),
        portable(path_bytes(*path)) ==> title@ == title_of(Reading::Slashes, path_bytes(*path)),
{
    proof {
        reveal_strlit("未知歌曲");
    }
    let found = file_stem(path);
    proof {
        if found is Some {
            encode_utf8_valid_utf8(found->0@);
            encode_utf8_decode_utf8(found->0@);
        }
        if portable(path_bytes(*path)) {
            portable_paths_read_the_same_everywhere(path_bytes(*path));
        }
    }
    title_from_stem(found)
}

/// The path of the file that a program is started with: its first argument behind its own name.
pub fn file_argument(args: &Vec<String>) -> (path: Option<PathBuf>)
    ensures
        match path {
            Some(found) => args@.len() > 1 && path_bytes(found) == encode_utf8(args@[1]@),
            None => args@.len() <= 1,
        },
{
    if args.len() > 1 {
        Some(path_from(args[1].as_str()))
    } else {
        None
    }
}

/// What the last position of a byte is.
proof fn lemma_last_position(bytes: Seq<u8>, byte: u8)
    ensures
        -1 <= last_position(bytes, byte) < bytes.len(),
        0 <= last_position(bytes, byte) ==> bytes[last_position(bytes, byte)] == byte,
        forall|i: int|
            last_position(bytes, byte) < i < bytes.len() ==> #[trigger] bytes[i] != byte,
    decreases bytes.len(),
{
    if bytes.len() > 0 && bytes.last() != byte {
        lemma_last_position(bytes.drop_last(), byte);
        assert forall|i: int|
            last_position(bytes, byte) < i < bytes.len() implies #[trigger] bytes[i] != byte by {
            if i < bytes.len() - 1 {
                assert(bytes.drop_last()[i] == bytes[i]);
            }
        }
    }
}

/// A position with no later occurrence is the last position.
proof fn lemma_last_position_is(bytes: Seq<u8>, byte: u8, at: int)
    requires
        -1 <= at < bytes.len(),
        0 <= at ==> bytes[at] == byte,
        forall|i: int| at < i < bytes.len() ==> #[trigger] bytes[i] != byte,
    ensures
        last_position(bytes, byte) == at,
{
    lemma_last_position(bytes, byte);
    let found = last_position(bytes, byte);
    if found < at {
        assert(bytes[at] != byte);
    } else if at < found {
        assert(bytes[found] != byte);
    }
}

/// Where a file name stands: at the start or behind a slash, with no slash in it, and not empty.
proof fn lemma_name_range(path: Seq<u8>)
    ensures
        match name_range(path) {
            Some((start, end)) => {
                &&& 0 <= start < end <= path.len()
                &&& 0 < start ==> path[start - 1] == SLASH
                &&& forall|i: int| start <= i < end ==> #[trigger] path[i] != SLASH
            },
            None => true,
        },
    decreases path.len(),
{
    lemma_last_position(path, SLASH);
    let slash = last_position(path, SLASH);
    let name = path.skip(slash + 1);
    if name != seq![DOT, DOT] && !(name.len() > 0 && name != seq![DOT]) && 0 <= slash {
        let front = path.take(slash);
        lemma_name_range(front);
        if let Some((start, end)) = name_range(front) {
            assert(0 < start ==> front[start - 1] == path[start - 1]);
            assert forall|i: int| start <= i < end implies #[trigger] path[i] != SLASH by {
                assert(front[i] == path[i]);
            }
        }
    }
}

/// A portable path has the same file name, and so the same title, on every platform.
pub proof fn portable_paths_read_the_same_everywhere(path: Seq<u8>)
    requires
        portable(path),
    ensures
        file_range(Reading::Slashes, path) == file_range(Reading::Drives, path),
        title_of(Reading::Slashes, path) == title_of(Reading::Drives, path),
{
    assert forall|i: int| 0 <= i < path.len() implies #[trigger] path[i] != BACKSLASH by {
        assert(path.contains(path[i]));
    }
    assert(normal(Reading::Slashes, path) =~= normal(Reading::Drives, path));
}

/// A file name stands behind the drive, and reading its separators as slashes does not touch it.
proof fn lemma_file_range(reading: Reading, path: Seq<u8>)
    ensures
        match file_range(reading, path) {
            Some((start, end)) => {
                let drive = drive_len(reading, path);
                &&& drive <= start < end <= path.len()
                &&& path.subrange(start, end) == normal(reading, path).subrange(
                    start - drive,
                    end - drive,
                )
            },
            None => true,
        },
{
    let drive = drive_len(reading, path);
    let slashed = normal(reading, path);
    lemma_name_range(slashed);
    if let Some((start, end)) = file_range(reading, path) {
        assert forall|i: int| start <= i < end implies #[trigger] path[i] == slashed[i - drive] by {
            assert(slashed[i - drive] != SLASH);
        }
        assert(path.subrange(start, end) =~= slashed.subrange(start - drive, end - drive));
    }
}

/// A stem with an extension behind it is the last segment, and its stem is that stem again.
proof fn lemma_extended_name(front: Seq<u8>, base: Seq<u8>, extension: Seq<u8>)
    requires
        front.len() > 0 ==> front.last() == SLASH,
        base.len() > 0,
        !base.contains(SLASH),
        extension.len() > 0,
        !extension.contains(DOT),
        !extension.contains(SLASH),
    ensures
        name_range(front + base + seq![DOT] + extension) == Some(
            (front.len() as int, (front + base + seq![DOT] + extension).len() as int),
        ),
        stem(base + seq![DOT] + extension) == base,
{
    let changed = front + base + seq![DOT] + extension;
    let name = base + seq![DOT] + extension;
    let start = front.len() as int;
    assert(changed.skip(start) =~= name);
    assert forall|i: int| start <= i < changed.len() implies #[trigger] changed[i] != SLASH by {
        if i < start + base.len() {
            assert(base.contains(base[i - start]));
        } else if i > start + base.len() {
            assert(extension.contains(extension[i - start - base.len() - 1]));
        }
    }
    lemma_last_position_is(changed, SLASH, start - 1);
    assert(extension.contains(extension.last()));
    assert(name.last() == extension.last());
    assert(seq![DOT, DOT].last() == DOT && seq![DOT].last() == DOT);
    assert forall|i: int| base.len() < i < name.len() implies #[trigger] name[i] != DOT by {
        assert(extension.contains(extension[i - base.len() - 1]));
    }
    lemma_last_position_is(name, DOT, base.len() as int);
    assert(name.take(base.len() as int) =~= base);
}

/// Replacing the extension of a file, or adding one, does not change its title, however the platform
/// reads the path. A path that does not start like a server stays so, and a portable one stays
/// portable.
pub proof fn the_title_does_not_depend_on_the_extension(
    reading: Reading,
    path: Seq<u8>,
    extension: Seq<u8>,
)
    requires
        0 < extension.len(),
        !extension.contains(DOT),
        !extension.contains(SLASH),
        reading is Drives ==> !extension.contains(BACKSLASH),
    ensures
        path_stem(reading, with_extension(reading, path, extension)) == path_stem(reading, path),
        title_of(reading, with_extension(reading, path, extension)) == title_of(reading, path),
        starts_like_a_server(with_extension(reading, path, extension)) ==> starts_like_a_server(
            path,
        ),
        portable(path) && !extension.contains(BACKSLASH) ==> portable(
            with_extension(reading, path, extension),
        ),
{
    let drive = drive_len(reading, path);
    let slashed = normal(reading, path);
    lemma_name_range(slashed);
    lemma_file_range(reading, path);
    if let Some((start, end)) = file_range(reading, path) {
        let name = path.subrange(start, end);
        let base = stem(name);
        lemma_last_position(name, DOT);
        let changed = path.take(start) + base + seq![DOT] + extension;
        assert(changed == with_extension(reading, path, extension));
        let front = slashed.take(start - drive);
        assert forall|i: int| 0 <= i < base.len() implies #[trigger] base[i] != SLASH && base[i]
            == path[start + i] && base[i] == slashed[start - drive + i] by {
            assert(base[i] == name[i]);
        }
        assert(changed[0] == path[0]);
        assert(changed[1] == DOT || changed[1] == path[1]);
        assert(drive_len(reading, changed) == drive);
        assert forall|i: int| 0 <= i < extension.len() && reading is Drives implies
            #[trigger] extension[i] != BACKSLASH by {
            assert(extension.contains(extension[i]));
        }
        let target = front + base + seq![DOT] + extension;
        assert forall|i: int| 0 <= i < target.len() implies #[trigger] normal(reading, changed)[i]
            == target[i] by {
            let at = drive + i;
            if at < start {
                assert(changed[at] == path[at]);
            } else if at < start + base.len() {
                assert(changed[at] == base[at - start]);
            } else if at > start + base.len() {
                assert(changed[at] == extension[at - start - base.len() - 1]);
            }
        }
        assert(normal(reading, changed) =~= target);
        lemma_extended_name(front, base, extension);
        assert(changed.subrange(start, changed.len() as int) =~= base + seq![DOT] + extension);
        if portable(path) && !extension.contains(BACKSLASH) {
            assert forall|i: int| 0 <= i < changed.len() implies #[trigger] changed[i]
                != BACKSLASH by {
                if i < start + base.len() {
                    assert(changed[i] == path[i]);
                    assert(path.contains(path[i]));
                } else if i > start + base.len() {
                    assert(extension.contains(extension[i - start - base.len() - 1]));
                }
            }
        }
    }
}

/// A file in a directory, or in none, whose name is a text with an extension has that text as its
/// title; so has one whose name is a text without a dot, or with none but at its front.
pub proof fn the_title_is_the_name_of_the_file(
    front: Seq<u8>,
    title: Seq<char>,
    extension: Seq<u8>,
)
    requires
        front.len() > 0 ==> front.last() == SLASH,
        title.len() > 0,
        !encode_utf8(title).contains(SLASH),
        extension.len() > 0,
        !extension.contains(DOT),
        !extension.contains(SLASH),
    ensures
        title_of(
            Reading::Slashes,
            front + encode_utf8(title) + seq![DOT] + extension,
        ) == title,
        encode_utf8(title) != seq![DOT] && (forall|i: int|
            0 < i < encode_utf8(title).len() ==> #[trigger] encode_utf8(title)[i] != DOT)
            ==> title_of(Reading::Slashes, front + encode_utf8(title)) == title,
{
    let base = encode_utf8(title);
    let start = front.len() as int;
    encode_utf8_valid_utf8(title);
    encode_utf8_decode_utf8(title);
    let named = front + base + seq![DOT] + extension;
    lemma_extended_name(front, base, extension);
    assert(normal(Reading::Slashes, named) =~= named);
    assert(named.subrange(start, named.len() as int) =~= base + seq![DOT] + extension);
    if base != seq![DOT] && (forall|i: int| 0 < i < base.len() ==> #[trigger] base[i] != DOT) {
        let bare = front + base;
        assert(normal(Reading::Slashes, bare) =~= bare);
        assert forall|i: int| start <= i < bare.len() implies #[trigger] bare[i] != SLASH by {
            assert(base.contains(base[i - start]));
        }
        lemma_last_position_is(bare, SLASH, start - 1);
        assert(bare.skip(start) =~= base);
        assert(bare.subrange(start, bare.len() as int) =~= base);
        assert(base != seq![DOT, DOT]) by {
            assert(seq![DOT, DOT][1] == DOT && seq![DOT, DOT].len() == 2);
        }
        lemma_last_position(base, DOT);
    }
}

/// A path without a file name, that is, an empty one or one that ends in a parent directory, has the
/// title of an unknown song.
pub proof fn paths_without_a_name_are_unknown(front: Seq<u8>)
    requires
        front.len() > 0 ==> front.last() == SLASH,
    ensures
        title_of(Reading::Slashes, Seq::<u8>::empty()) == "未知歌曲"@,
        title_of(Reading::Slashes, front + seq![DOT, DOT]) == "未知歌曲"@,
{
    let up = front + seq![DOT, DOT];
    let start = front.len() as int;
    assert(normal(Reading::Slashes, up) =~= up);
    lemma_last_position_is(up, SLASH, start - 1);
    assert(up.skip(start) =~= seq![DOT, DOT]);
    let none = Seq::<u8>::empty();
    assert(normal(Reading::Slashes, none) =~= none);
    lemma_last_position_is(none, SLASH, -1);
    assert(none.skip(0) =~= none);
    assert(none.len() != seq![DOT, DOT].len());
}

/// The title is the text of the stem of the path, and the words for an unknown song where there is no
/// stem or it is no text.
pub proof fn the_title_is_the_text_of_the_stem(reading: Reading, path: Seq<u8>, text: Seq<char>)
    ensures
        path_stem(reading, path) == Some(encode_utf8(text)) ==> title_of(reading, path) == text,
        path_stem(reading, path) is None || !valid_utf8(path_stem(reading, path)->0) ==> title_of(
            reading,
            path,
        ) == "未知歌曲"@,
{
    encode_utf8_valid_utf8(text);
    encode_utf8_decode_utf8(text);
}

/// Where backslashes separate too and there are drives, a path reads as one with slashes in their
/// place and without the drive.
pub proof fn drives_and_backslashes_read_as_slashes(
    drive: Seq<u8>,
    path: Seq<u8>,
    slashed: Seq<u8>,
)
    requires
        drive.len() == 0 || (drive.len() == 2 && starts_like_a_drive(drive)),
        drive.len() == 0 ==> !starts_like_a_drive(path),
        slashed.len() == path.len(),
        forall|i: int|
            0 <= i < path.len() ==> #[trigger] slashed[i] == if path[i] == BACKSLASH {
                SLASH
            } else {
                path[i]
            },
    ensures
        path_stem(Reading::Drives, drive + path) == path_stem(Reading::Slashes, slashed),
        title_of(Reading::Drives, drive + path) == title_of(Reading::Slashes, slashed),
{
    let whole = drive + path;
    let len = drive.len() as int;
    assert(drive_len(Reading::Drives, whole) == len) by {
        if len == 0 {
            assert(whole =~= path);
        }
    }
    assert forall|i: int| 0 <= i < path.len() implies #[trigger] normal(Reading::Drives, whole)[i]
        == slashed[i] by {
        assert(whole.skip(len)[i] == path[i]);
    }
    assert(normal(Reading::Drives, whole) =~= slashed);
    assert(normal(Reading::Slashes, slashed) =~= slashed);
    lemma_file_range(Reading::Drives, whole);
    lemma_file_range(Reading::Slashes, slashed);
}

/// A part of some bytes stands in them as it is.
pub proof fn parts_stand_in_the_whole(part: Seq<u8>, whole: Seq<u8>, start: int)
    ensures
        part_of(part, whole) ==> part.len() <= whole.len() && exists|at: int|
            0 <= at && at + part.len() <= whole.len() && #[trigger] whole.skip(at).take(
                part.len() as int,
            ) == part,
        0 <= start <= start + part.len() <= whole.len() && whole.skip(start).take(
            part.len() as int,
        ) == part ==> part_of(part, whole),
{
    if part_of(part, whole) {
        let at = choose|at: int|
            0 <= at && at + part.len() <= whole.len() && #[trigger] whole.subrange(
                at,
                at + part.len(),
            ) == part;
        assert(whole.skip(at).take(part.len() as int) =~= whole.subrange(at, at + part.len()));
    }
    if 0 <= start <= start + part.len() <= whole.len() {
        assert(whole.skip(start).take(part.len() as int) =~= whole.subrange(
            start,
            start + part.len(),
        ));
    }
}

/// A slash at the end of a path changes nothing, nor does a single dot behind such a slash.
pub proof fn slashes_at_the_end_do_not_matter(path: Seq<u8>)
    ensures
        title_of(Reading::Slashes, path.push(SLASH)) == title_of(Reading::Slashes, path),
        title_of(Reading::Slashes, path.push(SLASH).push(DOT)) == title_of(Reading::Slashes, path),
{
    let len = path.len() as int;
    let slashed = path.push(SLASH);
    let dotted = slashed.push(DOT);
    assert(normal(Reading::Slashes, path) =~= path);
    assert(normal(Reading::Slashes, slashed) =~= slashed);
    assert(normal(Reading::Slashes, dotted) =~= dotted);
    lemma_last_position_is(slashed, SLASH, len);
    lemma_last_position_is(dotted, SLASH, len);
    assert(slashed.take(len) =~= path);
    assert(dotted.take(len) =~= path);
    assert(slashed.skip(len + 1) =~= Seq::empty());
    assert(dotted.skip(len + 1) =~= seq![DOT]);
    assert(slashed.skip(len + 1).len() != seq![DOT, DOT].len());
    assert(dotted.skip(len + 1).len() != seq![DOT, DOT].len());
    lemma_name_range(path);
    if let Some((start, end)) = name_range(path) {
        assert(slashed.subrange(start, end) =~= path.subrange(start, end));
        assert(dotted.subrange(start, end) =~= path.subrange(start, end));
    }
}

/// A path is portable unless it holds a backslash, starts with a letter and a colon, or starts with two
/// slashes.
pub proof fn ordinary_paths_are_portable(path: Seq<u8>)
    ensures
        portable(path) <==> {
            &&& forall|i: int| 0 <= i < path.len() ==> #[trigger] path[i] != 92
            &&& !(path.len() >= 2 && path[1] == 58 && (65 <= path[0] <= 90 || 97 <= path[0] <= 122))
            &&& !(path.len() >= 2 && path[0] == 47 && path[1] == 47)
        },
        starts_like_a_server(path) <==> path.len() >= 2 && (path[0] == 47 || path[0] == 92) && (
        path[1] == 47 || path[1] == 92),
{
    if forall|i: int| 0 <= i < path.len() ==> #[trigger] path[i] != 92 {
        assert(!path.contains(BACKSLASH));
    } else {
        let i = choose|i: int| 0 <= i < path.len() && #[trigger] path[i] == 92;
        assert(path.contains(path[i]));
    }
}

} // verus!
