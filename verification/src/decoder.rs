//! The decisions of the decoder: what to do about each command and each packet.
//!
//! Reading files, decoding, resampling and pausing happen outside; each method here takes the
//! outcome of such work and says what to do next.

use std::path::PathBuf;

use tokio::sync::mpsc::{UnboundedReceiver, UnboundedSender};
use vstd::prelude::*;

use crate::channel::{connected, received, try_receive};
use crate::command::{after_command, commanded, DecoderMessage};
use crate::frames::{
    blocks_lose_nothing, blocks_of, complete, even, extended, frames_of, left_over, no_frames,
    planes_of, planes_of_all, BlockQueue,
};
use crate::ring::SampleRing;
use crate::status::{PlaybackStatus, PlayerState};
use crate::timebase::{millis_at, position_ms, TimeBase};

verus! {

/// The sample rate taken for a track that does not state one.
pub const DEFAULT_SAMPLE_RATE: u32 = 44100;

/// The number of frames that the resampler takes at a time.
pub const RESAMPLER_CHUNK: usize = 1024;

/// What the decoder reads of a track of an opened file.
#[derive(Debug, Clone, Copy, PartialEq, Eq, Structural)]
pub struct TrackInfo {
    pub id: u32,
    /// Whether the track has a codec, that is, whether it carries audio.
    pub has_codec: bool,
    pub sample_rate: Option<u32>,
    pub time_base: Option<TimeBase>,
    pub n_frames: Option<u64>,
}

impl TrackInfo {
    /// A time base, if there is one, is a proper fraction.
    pub open spec fn wf(self) -> bool {
        self.time_base is Some ==> self.time_base->0.wf()
    }

    /// The sample rate the track is decoded at.
    pub open spec fn source_rate(self) -> u32 {
        match self.sample_rate {
            Some(rate) => rate,
            None => DEFAULT_SAMPLE_RATE,
        }
    }

    /// The length of the track, where both its time base and its number of frames are known.
    pub open spec fn duration(self) -> Option<u64> {
        match (self.time_base, self.n_frames) {
            (Some(base), Some(frames)) => Some(millis_at(base, frames) as u64),
            _ => None,
        }
    }
}

/// How a resampler finds a value between the points of its filter.
#[derive(Debug, Clone, Copy, PartialEq, Eq, Structural)]
pub enum Interpolation {
    Nearest,
    Linear,
    Quadratic,
    Cubic,
}

/// The window that a resampler shapes its filter with.
#[derive(Debug, Clone, Copy, PartialEq, Eq, Structural)]
pub enum FilterWindow {
    Blackman,
    BlackmanSquared,
    BlackmanHarris,
    BlackmanHarrisSquared,
    Hann,
    HannSquared,
}

/// How a resampler is set up.
#[derive(Debug, Clone, Copy, PartialEq, Eq, Structural)]
pub struct ResamplerSettings {
    pub source_rate: u32,
    pub target_rate: u32,
    pub channels: usize,
    /// The length of the windowed filter.
    pub sinc_len: usize,
    pub oversampling_factor: usize,
    /// The number of frames of one input block.
    pub chunk_frames: usize,
    /// The cutoff frequency, in thousandths.
    pub cutoff_permille: u32,
    /// How far the ratio may be changed later, relative to the first, in thousandths. It is never
    /// changed.
    pub relative_ratio_permille: u32,
    pub interpolation: Interpolation,
    pub window: FilterWindow,
}

/// The settings of the high-quality resampler between two rates.
pub open spec fn high_quality(
    source_rate: u32,
    target_rate: u32,
    channels: usize,
) -> ResamplerSettings {
    ResamplerSettings {
        source_rate,
        target_rate,
        channels,
        sinc_len: 256,
        oversampling_factor: 256,
        chunk_frames: RESAMPLER_CHUNK,
        cutoff_permille: 950,
        relative_ratio_permille: 1000,
        interpolation: Interpolation::Linear,
        window: FilterWindow::BlackmanHarrisSquared,
    }
}

/// The settings of the high-quality resampler between two rates.
pub fn resampler_settings(source_rate: u32, target_rate: u32, channels: usize) -> (settings:
    ResamplerSettings)
    ensures
        settings == high_quality(source_rate, target_rate, channels),
{
    ResamplerSettings {
        source_rate,
        target_rate,
        channels,
        sinc_len: 256,
        oversampling_factor: 256,
        chunk_frames: RESAMPLER_CHUNK,
        cutoff_permille: 950,
        relative_ratio_permille: 1000,
        interpolation: Interpolation::Linear,
        window: FilterWindow::BlackmanHarrisSquared,
    }
}

/// How to get ready for playing a track.
#[derive(Debug, Clone, Copy, PartialEq, Eq, Structural)]
pub struct TrackPlan {
    /// Where the track stands among the tracks of the file.
    pub track_index: usize,
    pub track_id: u32,
    /// The resampler to make, where the track does not have the rate of the output.
    pub resampler: Option<ResamplerSettings>,
    /// The length of the track, if known.
    pub duration_ms: Option<u64>,
}

/// A jump to make in the file.
#[derive(Debug, Clone, Copy, PartialEq, Eq, Structural)]
pub struct SeekRequest {
    pub track_id: u32,
    /// The target: whole seconds, and the milliseconds beyond them.
    pub seconds: u64,
    pub millis: u64,
    /// The time base of the timestamp that the jump reports.
    pub time_base: TimeBase,
}

/// What to do about a command.
#[derive(Debug)]
pub enum CommandAction {
    /// Nothing further.
    Done,
    /// Open a file, and report it with `file_opened`.
    Open(PathBuf),
    /// Jump, and report a jump that was made with `seek_done`.
    Seek(SeekRequest),
}

/// What came of reading or decoding a packet.
#[derive(Debug, Clone, Copy, PartialEq, Eq, Structural)]
pub enum PacketEvent {
    /// A packet of a track was read.
    Read { track_id: u32 },
    /// The packet with a timestamp was decoded.
    Decoded { timestamp: u64 },
    /// The packet could not be decoded.
    DecodeFailed,
    /// Reading failed in the file itself, as it does at its end.
    EndOfFile,
    /// Reading failed in some other way.
    ReadFailed,
}

/// What to do about a packet.
#[derive(Debug, Clone, Copy, PartialEq, Eq, Structural)]
pub enum PacketAction {
    /// Pass over the packet and look for the next command at once.
    Skip,
    /// Decode the packet.
    Decode,
    /// Queue the decoded samples.
    Process,
    /// Pause briefly before looking for the next command.
    Rest,
}

/// Where the first track at or after `from` with the given number stands.
pub open spec fn track_with_id(tracks: Seq<TrackInfo>, id: u32, from: int) -> Option<int>
    decreases tracks.len() - from,
{
    if from < 0 || tracks.len() <= from {
        None
    } else if tracks[from].id == id {
        Some(from)
    } else {
        track_with_id(tracks, id, from + 1)
    }
}

/// Where the first track at or after `from` that carries audio stands.
pub open spec fn audio_track(tracks: Seq<TrackInfo>, from: int) -> Option<int>
    decreases tracks.len() - from,
{
    if from < 0 || tracks.len() <= from {
        None
    } else if tracks[from].has_codec {
        Some(from)
    } else {
        audio_track(tracks, from + 1)
    }
}

/// Where the track to play stands: the first with the number of the first audio track.
pub open spec fn chosen_track(tracks: Seq<TrackInfo>) -> Option<int> {
    match audio_track(tracks, 0) {
        Some(at) => track_with_id(tracks, tracks[at].id, 0),
        None => None,
    }
}

/// How to get ready for playing a file with these tracks.
pub open spec fn planned(tracks: Seq<TrackInfo>, target_rate: u32, channels: u16) -> Option<
    TrackPlan,
> {
    match chosen_track(tracks) {
        Some(at) => Some(
            TrackPlan {
                track_index: at as usize,
                track_id: tracks[at].id,
                resampler: if tracks[at].source_rate() != target_rate {
                    Some(high_quality(tracks[at].source_rate(), target_rate, channels as usize))
                } else {
                    None
                },
                duration_ms: tracks[at].duration(),
            },
        ),
        None => None,
    }
}

/// A search from the front finds what a search result says it finds.
proof fn lemma_track_with_id(tracks: Seq<TrackInfo>, id: u32, from: int)
    requires
        0 <= from,
    ensures
        match track_with_id(tracks, id, from) {
            Some(at) => from <= at < tracks.len() && tracks[at].id == id && forall|i: int|
                from <= i < at ==> #[trigger] tracks[i].id != id,
            None => forall|i: int| from <= i < tracks.len() ==> #[trigger] tracks[i].id != id,
        },
    decreases tracks.len() - from,
{
    if from < tracks.len() && tracks[from].id != id {
        lemma_track_with_id(tracks, id, from + 1);
    }
}

/// A search from the front finds what a search result says it finds.
proof fn lemma_audio_track(tracks: Seq<TrackInfo>, from: int)
    requires
        0 <= from,
    ensures
        match audio_track(tracks, from) {
            Some(at) => from <= at < tracks.len() && tracks[at].has_codec && forall|i: int|
                from <= i < at ==> !(#[trigger] tracks[i]).has_codec,
            None => forall|i: int| from <= i < tracks.len() ==> !(#[trigger] tracks[i]).has_codec,
        },
    decreases tracks.len() - from,
{
    if from < tracks.len() && !tracks[from].has_codec {
        lemma_audio_track(tracks, from + 1);
    }
}

/// A search finds the first track with the number, or that carries audio, and nothing only if there is
/// no such track.
pub proof fn searches_find_the_first(tracks: Seq<TrackInfo>, id: u32)
    ensures
        match track_with_id(tracks, id, 0) {
            Some(at) => 0 <= at < tracks.len() && tracks[at].id == id && forall|i: int|
                0 <= i < at ==> #[trigger] tracks[i].id != id,
            None => forall|i: int| 0 <= i < tracks.len() ==> #[trigger] tracks[i].id != id,
        },
        match audio_track(tracks, 0) {
            Some(at) => 0 <= at < tracks.len() && tracks[at].has_codec && forall|i: int|
                0 <= i < at ==> !(#[trigger] tracks[i]).has_codec,
            None => forall|i: int| 0 <= i < tracks.len() ==> !(#[trigger] tracks[i]).has_codec,
        },
{
    lemma_track_with_id(tracks, id, 0);
    lemma_audio_track(tracks, 0);
}

/// Finds the first track with the given number.
pub fn find_track(tracks: &Vec<TrackInfo>, id: u32) -> (found: Option<usize>)
    ensures
        match found {
            Some(at) => track_with_id(tracks@, id, 0) == Some(at as int) && at < tracks@.len()
                && tracks@[at as int].id == id,
            None => track_with_id(tracks@, id, 0) is None,
        },
{
    let mut at: usize = 0;
    while at < tracks.len()
        invariant
            at <= tracks@.len(),
            track_with_id(tracks@, id, 0) == track_with_id(tracks@, id, at as int),
        decreases tracks@.len() - at,
    {
        if tracks[at].id == id {
            return Some(at);
        }
        at = at + 1;
    }
    None
}

/// Finds the number of the first track that carries audio.
pub fn select_track(tracks: &Vec<TrackInfo>) -> (selected: Option<u32>)
    ensures
        match selected {
            Some(id) => audio_track(tracks@, 0) is Some && tracks@[audio_track(tracks@, 0)->0].id
                == id,
            None => audio_track(tracks@, 0) is None,
        },
{
    let mut at: usize = 0;
    while at < tracks.len()
        invariant
            at <= tracks@.len(),
            audio_track(tracks@, 0) == audio_track(tracks@, at as int),
        decreases tracks@.len() - at,
    {
        if tracks[at].has_codec {
            return Some(tracks[at].id);
        }
        at = at + 1;
    }
    None
}

/// The state of the decoder.
#[verifier::ext_equal]
pub struct DecoderView {
    /// The sample rate of the output.
    pub target_sample_rate: u32,
    /// The number of channels of the output.
    pub num_channels: u16,
    /// The tracks of the open file.
    pub tracks: Option<Seq<TrackInfo>>,
    pub current_track_id: u32,
    /// Whether samples go through a resampler.
    pub resampling: bool,
    /// Whether there is a decoder for the current track.
    pub decoding: bool,
    /// The samples of each channel that wait until there are enough for the resampler.
    pub waiting: Seq<Seq<u32>>,
    /// Whether the resampler has to forget what it was given before.
    pub restart: bool,
}

impl DecoderView {
    /// The current track is one of the open file, there is a decoder only for an open file, as many
    /// samples wait in each channel of the output, and they are fewer than the resampler takes.
    pub open spec fn wf(self) -> bool {
        &&& self.decoding ==> self.tracks is Some
        &&& self.tracks is Some ==> track_with_id(
            self.tracks->0,
            self.current_track_id,
            0,
        ) is Some
        &&& self.waiting.len() == self.num_channels
        &&& even(self.waiting)
        &&& frames_of(self.waiting) < RESAMPLER_CHUNK
    }

    /// The time base of the current track.
    pub open spec fn current_time_base(self) -> Option<TimeBase> {
        match self.tracks {
            Some(tracks) => match track_with_id(tracks, self.current_track_id, 0) {
                Some(at) => tracks[at].time_base,
                None => None,
            },
            None => None,
        }
    }

    /// The time base of the current track, if it has one, is a proper fraction.
    pub open spec fn timed(self) -> bool {
        self.current_time_base() is Some ==> self.current_time_base()->0.wf()
    }

    pub open spec fn with_file(self, tracks: Seq<TrackInfo>, track_id: u32) -> DecoderView {
        DecoderView { tracks: Some(tracks), current_track_id: track_id, ..self }
    }

    pub open spec fn with_stages(self, resampling: bool, decoding: bool) -> DecoderView {
        DecoderView { resampling, decoding, ..self.emptied() }
    }

    /// The decoder with no samples waiting for the resampler, which has to forget the earlier ones.
    pub open spec fn emptied(self) -> DecoderView {
        DecoderView { waiting: no_frames(self.num_channels as nat), restart: true, ..self }
    }

    /// The decoder once the resampler was given what was due, with these samples waiting.
    pub open spec fn fed(self, waiting: Seq<Seq<u32>>) -> DecoderView {
        DecoderView { waiting, restart: false, ..self }
    }
}

/// What is to be done about a command once the status is up to date.
pub open spec fn command_action(decoder: DecoderView, message: DecoderMessage) -> CommandAction {
    match message {
        DecoderMessage::LoadFile(path) => CommandAction::Open(path),
        DecoderMessage::Seek(millis) => match decoder.current_time_base() {
            Some(time_base) => CommandAction::Seek(
                SeekRequest {
                    track_id: decoder.current_track_id,
                    seconds: millis / 1000,
                    millis: millis % 1000,
                    time_base,
                },
            ),
            None => CommandAction::Done,
        },
        _ => CommandAction::Done,
    }
}

/// What is queued after a command: stopping drops everything.
pub open spec fn command_queue(queued: Seq<u32>, message: DecoderMessage) -> Seq<u32> {
    match message {
        DecoderMessage::Stop => Seq::empty(),
        _ => queued,
    }
}

/// The decoder after a command: stopping drops what waits for the resampler.
pub open spec fn command_decoder(decoder: DecoderView, message: DecoderMessage) -> DecoderView {
    match message {
        DecoderMessage::Stop => decoder.emptied(),
        _ => decoder,
    }
}

/// What is to be done about a packet.
pub open spec fn packet_action(decoder: DecoderView, event: PacketEvent) -> PacketAction {
    match event {
        PacketEvent::Read { track_id } => if track_id == decoder.current_track_id {
            PacketAction::Decode
        } else {
            PacketAction::Skip
        },
        PacketEvent::Decoded { .. } => PacketAction::Process,
        PacketEvent::DecodeFailed => PacketAction::Rest,
        PacketEvent::EndOfFile => PacketAction::Rest,
        PacketEvent::ReadFailed => PacketAction::Rest,
    }
}

/// The status after a packet: a decoded one moves the position, the end of the file stops.
pub open spec fn packet_status(
    decoder: DecoderView,
    status: PlaybackStatus,
    event: PacketEvent,
) -> PlaybackStatus {
    match event {
        PacketEvent::Decoded { timestamp } => match decoder.current_time_base() {
            Some(base) => status.with_position(millis_at(base, timestamp) as u64),
            None => status,
        },
        PacketEvent::EndOfFile => status.with_state(PlayerState::Stopped).with_file(false),
        _ => status,
    }
}

/// Whether the next packet is to be read.
pub open spec fn hungry(decoder: DecoderView, status: PlaybackStatus) -> bool {
    status.state is Playing && decoder.tracks is Some && decoder.decoding
}

/// The status once a track has been got ready.
pub open spec fn loaded_status(status: PlaybackStatus, duration_ms: Option<u64>) -> PlaybackStatus {
    match duration_ms {
        Some(duration) => status.with_duration(duration).with_file(true),
        None => status.with_file(true),
    }
}

/// Why a file cannot be played.
#[derive(Debug, Clone, Copy, PartialEq, Eq, Structural)]
pub enum LoadError {
    /// The file could not be opened or its format not be recognised.
    Unreadable,
    /// No track of the file carries audio.
    NoAudioTrack,
}

/// The outcome of opening a file: its tracks, if it could be read.
pub open spec fn load_outcome(
    tracks: Option<Seq<TrackInfo>>,
    target_rate: u32,
    channels: u16,
) -> Result<TrackPlan, LoadError> {
    match tracks {
        None => Err(LoadError::Unreadable),
        Some(found) => match planned(found, target_rate, channels) {
            Some(plan) => Ok(plan),
            None => Err(LoadError::NoAudioTrack),
        },
    }
}

/// The tracks of a file that was opened.
pub open spec fn tracks_of(opened: Option<Vec<TrackInfo>>) -> Option<Seq<TrackInfo>> {
    match opened {
        Some(tracks) => Some(tracks@),
        None => None,
    }
}

/// What happened since the decoder last said what to do.
#[derive(Debug)]
pub enum DecoderEvent {
    /// A new round begins.
    Woken,
    /// A file was opened and has these tracks, or it could not be read.
    Opened(Option<Vec<TrackInfo>>),
    /// The failure to load a file was reported.
    Reported,
    /// A track was got ready as planned, as far as the resampler and the decoder could be made.
    Prepared { plan: TrackPlan, resampler_ready: bool, decoder_ready: bool },
    /// A jump was made to a timestamp, or failed.
    Sought { request: SeekRequest, timestamp: Option<u64> },
    /// A packet was read or decoded, or could not be.
    Packet(PacketEvent),
    /// The samples of a packet were dealt with.
    Queued,
}

/// What to do next.
#[derive(Debug)]
pub enum DecoderAction {
    /// Open a file.
    Open(PathBuf),
    /// Report that a file cannot be played.
    Report(LoadError),
    /// Get a track ready.
    Prepare(TrackPlan),
    /// Jump in the file.
    Seek(SeekRequest),
    /// Read the next packet.
    ReadPacket,
    /// Decode the packet that was read.
    Decode,
    /// Queue the samples that were decoded.
    Process,
    /// Begin a new round at once.
    Again,
    /// Pause briefly, then begin a new round.
    Sleep,
}

/// What is left of a round once its command is dealt with: one packet, if one is to be read.
pub open spec fn rest_of_round(decoder: DecoderView, status: PlaybackStatus) -> DecoderAction {
    if hungry(decoder, status) {
        DecoderAction::ReadPacket
    } else {
        DecoderAction::Sleep
    }
}

/// What to do next, once a command has been carried out as far as the status goes.
pub open spec fn next_after_command(
    decoder: DecoderView,
    status: PlaybackStatus,
    message: DecoderMessage,
) -> DecoderAction {
    match command_action(decoder, message) {
        CommandAction::Open(path) => DecoderAction::Open(path),
        CommandAction::Seek(request) => DecoderAction::Seek(request),
        CommandAction::Done => rest_of_round(decoder, commanded(status, message)),
    }
}

/// The command that an event brings: at the beginning of a round, what the decoder just got when it
/// asked for one.
pub open spec fn heard(event: DecoderEvent, answers: Seq<Option<DecoderMessage>>) -> Option<
    DecoderMessage,
> {
    if event is Woken {
        answers.last()
    } else {
        None
    }
}

/// The length of the track to play can be worked out: where its number of frames is known, its time
/// base, if it has one, is a proper fraction.
pub open spec fn measurable(tracks: Seq<TrackInfo>) -> bool {
    chosen_track(tracks) is Some && tracks[chosen_track(tracks)->0].n_frames is Some
        ==> tracks[chosen_track(tracks)->0].wf()
}

/// Whether an event can happen to a decoder: tracks are got ready and packets read only once a file
/// is open, and where a time is to be worked out, the time base is a proper fraction.
pub open spec fn possible(decoder: DecoderView, event: DecoderEvent) -> bool {
    match event {
        DecoderEvent::Opened(opened) => opened is Some ==> measurable(opened->0@),
        DecoderEvent::Prepared { .. } => decoder.tracks is Some,
        DecoderEvent::Sought { request, timestamp } => timestamp is Some
            ==> request.time_base.wf(),
        DecoderEvent::Packet(packet) => decoder.tracks is Some && (packet is Decoded
            ==> decoder.timed()),
        _ => true,
    }
}

/// The decoder after an event.
pub open spec fn next_decoder(decoder: DecoderView, event: DecoderEvent) -> DecoderView {
    match event {
        DecoderEvent::Opened(opened) => match load_outcome(
            tracks_of(opened),
            decoder.target_sample_rate,
            decoder.num_channels,
        ) {
            Ok(plan) => decoder.with_file(opened->0@, plan.track_id),
            Err(_) => decoder,
        },
        DecoderEvent::Prepared { plan, resampler_ready, decoder_ready } => decoder.with_stages(
            plan.resampler is Some && resampler_ready,
            decoder_ready,
        ),
        DecoderEvent::Sought { timestamp, .. } => if timestamp is Some {
            decoder.emptied()
        } else {
            decoder
        },
        _ => decoder,
    }
}

/// The status after an event that brings no command.
pub open spec fn next_status(
    decoder: DecoderView,
    status: PlaybackStatus,
    event: DecoderEvent,
) -> PlaybackStatus {
    match event {
        DecoderEvent::Opened(opened) => if load_outcome(
            tracks_of(opened),
            decoder.target_sample_rate,
            decoder.num_channels,
        ) is Ok {
            status
        } else {
            status.with_file(false)
        },
        DecoderEvent::Prepared { plan, .. } => loaded_status(status, plan.duration_ms),
        DecoderEvent::Sought { request, timestamp } => match timestamp {
            Some(at) => status.with_position(millis_at(request.time_base, at) as u64),
            None => status,
        },
        DecoderEvent::Packet(packet) => packet_status(decoder, status, packet),
        _ => status,
    }
}

/// What is queued after an event that brings no command: a jump drops everything.
pub open spec fn next_queue(queued: Seq<u32>, event: DecoderEvent) -> Seq<u32> {
    match event {
        DecoderEvent::Sought { timestamp, .. } => if timestamp is Some {
            Seq::empty()
        } else {
            queued
        },
        _ => queued,
    }
}

/// What to do after an event that brings no command.
pub open spec fn next_action(
    decoder: DecoderView,
    status: PlaybackStatus,
    event: DecoderEvent,
) -> DecoderAction {
    match event {
        DecoderEvent::Opened(opened) => match load_outcome(
            tracks_of(opened),
            decoder.target_sample_rate,
            decoder.num_channels,
        ) {
            Ok(plan) => DecoderAction::Prepare(plan),
            Err(error) => DecoderAction::Report(error),
        },
        DecoderEvent::Packet(packet) => match packet_action(decoder, packet) {
            PacketAction::Skip => DecoderAction::Again,
            PacketAction::Decode => DecoderAction::Decode,
            PacketAction::Process => DecoderAction::Process,
            PacketAction::Rest => DecoderAction::Sleep,
        },
        DecoderEvent::Queued => DecoderAction::Sleep,
        _ => rest_of_round(
            next_decoder(decoder, event),
            next_status(decoder, status, event),
        ),
    }
}

/// What the resampler is to be given.
#[derive(Debug)]
pub struct ResamplerInput {
    /// Whether the resampler has to forget what it was given before.
    pub restart: bool,
    /// The blocks to resample, in order.
    pub blocks: Vec<Vec<Vec<u32>>>,
}

/// The decoder: the commands it gets, the open file and how its samples are treated.
pub struct DecoderThread {
    commands: UnboundedReceiver<DecoderMessage>,
    target_sample_rate: u32,
    num_channels: u16,
    tracks: Option<Vec<TrackInfo>>,
    current_track_id: u32,
    resampling: bool,
    decoding: bool,
    blocks: BlockQueue,
    restart: bool,
}

impl View for DecoderThread {
    type V = DecoderView;

    closed spec fn view(&self) -> DecoderView {
        DecoderView {
            target_sample_rate: self.target_sample_rate,
            num_channels: self.num_channels,
            tracks: tracks_of(self.tracks),
            current_track_id: self.current_track_id,
            resampling: self.resampling,
            decoding: self.decoding,
            waiting: self.blocks@,
            restart: self.restart,
        }
    }
}

impl DecoderThread {
    /// What the decoder got each time it asked for a command, oldest first.
    pub closed spec fn answers(self) -> Seq<Option<DecoderMessage>> {
        received(self.commands)
    }

    /// Whether what is sent through a sending half arrives at this decoder.
    pub closed spec fn obeys(self, tx: UnboundedSender<DecoderMessage>) -> bool {
        connected(tx, self.commands)
    }

    /// The commands come from where they came before.
    pub open spec fn same_line(self, next: DecoderThread) -> bool {
        forall|tx: UnboundedSender<DecoderMessage>| #[trigger] next.obeys(tx) == self.obeys(tx)
    }

    /// Two sending halves of the same channel reach the same decoders.
    pub(crate) proof fn lemma_obeys(
        self,
        a: UnboundedSender<DecoderMessage>,
        b: UnboundedSender<DecoderMessage>,
    )
        requires
            forall|rx: UnboundedReceiver<DecoderMessage>| #[trigger]
                connected(a, rx) == connected(b, rx),
        ensures
            self.obeys(a) == self.obeys(b),
    {
    }

    /// A decoder for an output, with no file open.
    pub(crate) fn new(
        commands: UnboundedReceiver<DecoderMessage>,
        target_sample_rate: u32,
        num_channels: u16,
    ) -> (decoder: Self)
        ensures
            decoder.answers() == received(commands),
            forall|tx: UnboundedSender<DecoderMessage>| #[trigger]
                decoder.obeys(tx) == connected(tx, commands),
            decoder@ == initial_decoder(target_sample_rate, num_channels),
    {
        DecoderThread {
            commands,
            target_sample_rate,
            num_channels,
            tracks: None,
            current_track_id: 0,
            resampling: false,
            decoding: false,
            blocks: BlockQueue::new(num_channels as usize),
            restart: true,
        }
    }

    /// Whether samples go through a resampler.
    pub fn is_resampling(&self) -> (resampling: bool)
        ensures
            resampling == self@.resampling,
    {
        self.resampling
    }

    /// Whether the next packet is to be read: only while playing, from an open file that has a
    /// decoder.
    pub fn wants_packet(&self, status: &PlaybackStatus) -> (wanted: bool)
        ensures
            wanted == hungry(self@, *status),
    {
        status.state == PlayerState::Playing && self.tracks.is_some() && self.decoding
    }

    /// Carries out a command as far as the status and the ring go, and says what is left to do.
    pub fn handle_message(
        &mut self,
        message: DecoderMessage,
        status: &mut PlaybackStatus,
        ring: &mut SampleRing,
    ) -> (action: CommandAction)
        requires
            old(self)@.wf(),
            old(ring).wf(),
        ensures
            final(self)@.wf(),
            final(self).answers() == old(self).answers(),
            old(self).same_line(*final(self)),
            final(self)@ == command_decoder(old(self)@, message),
            action == command_action(old(self)@, message),
            *final(status) == commanded(*old(status), message),
            final(ring).wf(),
            final(ring).spec_capacity() == old(ring).spec_capacity(),
            final(ring)@ == command_queue(old(ring)@, message),
            action is Seek && old(self)@.timed() ==> action->Seek_0.time_base.wf(),
    {
        *status = after_command(status, &message);
        match message {
            DecoderMessage::LoadFile(path) => CommandAction::Open(path),
            DecoderMessage::Stop => {
                ring.clear();
                self.forget_waiting();
                CommandAction::Done
            },
            DecoderMessage::Seek(millis) => {
                if let Some(tracks) = &self.tracks {
                    if let Some(at) = find_track(tracks, self.current_track_id) {
                        if let Some(time_base) = tracks[at].time_base {
                            return CommandAction::Seek(
                                SeekRequest {
                                    track_id: self.current_track_id,
                                    seconds: millis / 1000,
                                    millis: millis % 1000,
                                    time_base,
                                },
                            );
                        }
                    }
                }
                CommandAction::Done
            },
            _ => CommandAction::Done,
        }
    }

    /// Asks once for the next command and, if one is waiting, carries it out.
    pub fn poll_command(&mut self, status: &mut PlaybackStatus, ring: &mut SampleRing) -> (action:
        CommandAction)
        requires
            old(self)@.wf(),
            old(ring).wf(),
        ensures
            final(self)@.wf(),
            final(ring).wf(),
            final(ring).spec_capacity() == old(ring).spec_capacity(),
            action is Seek && old(self)@.timed() ==> action->Seek_0.time_base.wf(),
            final(self).answers() == old(self).answers().push(final(self).answers().last()),
            old(self).same_line(*final(self)),
            match final(self).answers().last() {
                Some(message) => {
                    &&& action == command_action(old(self)@, message)
                    &&& final(self)@ == command_decoder(old(self)@, message)
                    &&& *final(status) == commanded(*old(status), message)
                    &&& final(ring)@ == command_queue(old(ring)@, message)
                },
                None => {
                    &&& action is Done
                    &&& final(self)@ == old(self)@
                    &&& *final(status) == *old(status)
                    &&& final(ring)@ == old(ring)@
                },
            },
    {
        match try_receive(&mut self.commands) {
            Some(message) => {
                assert(self@ == old(self)@);
                self.handle_message(message, status, ring)
            },
            None => CommandAction::Done,
        }
    }

    /// Takes in the tracks of a file that was opened, or that it could not be.
    ///
    /// A file with an audio track becomes the current one and the plan for it is returned, to be
    /// reported with `track_prepared`. Otherwise the current file stays, but no longer counts as
    /// loaded.
    pub fn file_opened(&mut self, opened: Option<Vec<TrackInfo>>, status: &mut PlaybackStatus) -> (
    outcome: Result<TrackPlan, LoadError>)
        requires
            old(self)@.wf(),
            opened is Some ==> measurable(opened->0@),
        ensures
            final(self)@.wf(),
            final(self).answers() == old(self).answers(),
            old(self).same_line(*final(self)),
            outcome == load_outcome(
                tracks_of(opened),
                old(self)@.target_sample_rate,
                old(self)@.num_channels,
            ),
            final(self)@ == match outcome {
                Ok(plan) => old(self)@.with_file(opened->0@, plan.track_id),
                Err(_) => old(self)@,
            },
            *final(status) == match outcome {
                Ok(_) => *old(status),
                Err(_) => old(status).with_file(false),
            },
    {
        let tracks = match opened {
            Some(tracks) => tracks,
            None => {
                status.has_file = false;
                return Err(LoadError::Unreadable);
            },
        };
        let id = match select_track(&tracks) {
            Some(id) => id,
            None => {
                status.has_file = false;
                return Err(LoadError::NoAudioTrack);
            },
        };
        proof {
            lemma_audio_track(tracks@, 0);
            lemma_track_with_id(tracks@, id, 0);
        }
        let at = match find_track(&tracks, id) {
            Some(at) => at,
            None => {
                assert(false);
                return Err(LoadError::NoAudioTrack);
            },
        };
        let track = tracks[at];
        assert(track == tracks@[chosen_track(tracks@)->0]);
        let source_rate: u32 = match track.sample_rate {
            Some(rate) => rate,
            None => DEFAULT_SAMPLE_RATE,
        };
        let resampler = if source_rate != self.target_sample_rate {
            Some(
                resampler_settings(
                    source_rate,
                    self.target_sample_rate,
                    self.num_channels as usize,
                ),
            )
        } else {
            None
        };
        let duration_ms = match (track.time_base, track.n_frames) {
            (Some(base), Some(frames)) => Some(position_ms(base, frames)),
            _ => None,
        };
        self.tracks = Some(tracks);
        self.current_track_id = id;
        Ok(TrackPlan { track_index: at, track_id: id, resampler, duration_ms })
    }

    /// Takes in what came of getting a track ready: whether the resampler that the plan asks for,
    /// if any, and the decoder could be made. Without the resampler, samples are queued as they
    /// are.
    pub fn track_prepared(
        &mut self,
        plan: &TrackPlan,
        resampler_ready: bool,
        decoder_ready: bool,
        status: &mut PlaybackStatus,
    )
        requires
            old(self)@.wf(),
            old(self)@.tracks is Some,
        ensures
            final(self)@.wf(),
            final(self).answers() == old(self).answers(),
            old(self).same_line(*final(self)),
            final(self)@ == old(self)@.with_stages(
                plan.resampler is Some && resampler_ready,
                decoder_ready,
            ),
            *final(status) == loaded_status(*old(status), plan.duration_ms),
    {
        self.resampling = plan.resampler.is_some() && resampler_ready;
        self.decoding = decoder_ready;
        self.forget_waiting();
        if let Some(duration) = plan.duration_ms {
            status.duration_ms = duration;
        }
        status.has_file = true;
    }

    /// Takes in a jump that was made to a timestamp: moves the position there and drops the samples
    /// from before the jump.
    pub fn seek_done(
        &mut self,
        request: &SeekRequest,
        timestamp: u64,
        status: &mut PlaybackStatus,
        ring: &mut SampleRing,
    )
        requires
            old(self)@.wf(),
            request.time_base.wf(),
            old(ring).wf(),
        ensures
            final(self)@.wf(),
            final(self).answers() == old(self).answers(),
            old(self).same_line(*final(self)),
            final(self)@ == old(self)@.emptied(),
            *final(status) == old(status).with_position(
                millis_at(request.time_base, timestamp) as u64,
            ),
            final(ring).wf(),
            final(ring).spec_capacity() == old(ring).spec_capacity(),
            final(ring)@ == Seq::<u32>::empty(),
    {
        status.position_ms = position_ms(request.time_base, timestamp);
        ring.clear();
        self.forget_waiting();
    }

    /// Takes in what came of reading or decoding a packet, and says what to do next.
    pub fn packet_event(&self, event: PacketEvent, status: &mut PlaybackStatus) -> (action:
        PacketAction)
        requires
            self@.wf(),
            self@.tracks is Some,
            event is Decoded ==> self@.timed(),
        ensures
            action == packet_action(self@, event),
            *final(status) == packet_status(self@, *old(status), event),
    {
        match event {
            PacketEvent::Read { track_id } => {
                if track_id != self.current_track_id {
                    PacketAction::Skip
                } else {
                    PacketAction::Decode
                }
            },
            PacketEvent::Decoded { timestamp } => {
                if let Some(tracks) = &self.tracks {
                    if let Some(at) = find_track(tracks, self.current_track_id) {
                        if let Some(base) = tracks[at].time_base {
                            status.position_ms = position_ms(base, timestamp);
                        }
                    }
                }
                PacketAction::Process
            },
            PacketEvent::DecodeFailed => PacketAction::Rest,
            PacketEvent::EndOfFile => {
                status.state = PlayerState::Stopped;
                status.has_file = false;
                PacketAction::Rest
            },
            PacketEvent::ReadFailed => PacketAction::Rest,
        }
    }

    /// Drops what waits for the resampler, which then has to forget the earlier samples too.
    fn forget_waiting(&mut self)
        ensures
            final(self)@ == old(self)@.emptied(),
            final(self).answers() == old(self).answers(),
            old(self).same_line(*final(self)),
    {
        self.blocks = BlockQueue::new(self.num_channels as usize);
        self.restart = true;
    }

    /// Takes in a decoded frame for the resampler and says what to give it: the whole blocks that
    /// the waiting samples make up with those of the frame. What is left over waits. A frame that
    /// does not have the channels of the output is refused.
    pub fn feed_resampler(&mut self, planes: &Vec<Vec<u32>>) -> (input: Option<ResamplerInput>)
        requires
            old(self)@.wf(),
            complete(planes_of(planes@)),
        ensures
            final(self)@.wf(),
            final(self).answers() == old(self).answers(),
            old(self).same_line(*final(self)),
            input is Some <==> planes@.len() == old(self)@.num_channels,
            match input {
                Some(due) => {
                    let all = extended(old(self)@.waiting, planes_of(planes@));
                    &&& due.restart == old(self)@.restart
                    &&& planes_of_all(due.blocks@) == blocks_of(all, RESAMPLER_CHUNK as nat)
                    &&& final(self)@ == old(self)@.fed(left_over(all, RESAMPLER_CHUNK as nat))
                },
                None => final(self)@ == old(self)@,
            },
    {
        if !self.blocks.append(planes) {
            return None;
        }
        let ghost all = self.blocks@;
        let blocks = self.blocks.take_blocks(RESAMPLER_CHUNK);
        proof {
            if all.len() > 0 {
                blocks_lose_nothing(all, RESAMPLER_CHUNK as nat, 0);
            }
        }
        let restart = self.restart;
        self.restart = false;
        Some(ResamplerInput { restart, blocks })
    }

    /// What is left of a round once its command is dealt with.
    fn finish_round(&self, status: &PlaybackStatus) -> (action: DecoderAction)
        ensures
            action == rest_of_round(self@, *status),
    {
        if self.wants_packet(status) {
            DecoderAction::ReadPacket
        } else {
            DecoderAction::Sleep
        }
    }

    /// Takes in what happened and says what to do next.
    ///
    /// A round takes at most one command and carries it out, then reads at most one packet and
    /// queues its samples. It ends with a pause, except after a packet of another track.
    pub fn step(
        &mut self,
        event: DecoderEvent,
        status: &mut PlaybackStatus,
        ring: &mut SampleRing,
    ) -> (action: DecoderAction)
        requires
            old(self)@.wf(),
            old(ring).wf(),
            possible(old(self)@, event),
        ensures
            final(self)@.wf(),
            final(ring).wf(),
            final(ring).spec_capacity() == old(ring).spec_capacity(),
            old(self).same_line(*final(self)),
            final(self).answers() == if event is Woken {
                old(self).answers().push(final(self).answers().last())
            } else {
                old(self).answers()
            },
            match heard(event, final(self).answers()) {
                Some(message) => {
                    &&& final(self)@ == command_decoder(old(self)@, message)
                    &&& *final(status) == commanded(*old(status), message)
                    &&& final(ring)@ == command_queue(old(ring)@, message)
                    &&& action == next_after_command(old(self)@, *old(status), message)
                },
                None => {
                    &&& final(self)@ == next_decoder(old(self)@, event)
                    &&& *final(status) == next_status(old(self)@, *old(status), event)
                    &&& final(ring)@ == next_queue(old(ring)@, event)
                    &&& action == next_action(old(self)@, *old(status), event)
                },
            },
            action is Seek && old(self)@.timed() ==> action->Seek_0.time_base.wf(),
            action is Prepare || action is ReadPacket || action is Decode ==> final(self)@.tracks is
                Some,
    {
        match event {
            DecoderEvent::Woken => match self.poll_command(status, ring) {
                CommandAction::Open(path) => DecoderAction::Open(path),
                CommandAction::Seek(request) => DecoderAction::Seek(request),
                CommandAction::Done => self.finish_round(status),
            },
            DecoderEvent::Opened(opened) => match self.file_opened(opened, status) {
                Ok(plan) => DecoderAction::Prepare(plan),
                Err(error) => DecoderAction::Report(error),
            },
            DecoderEvent::Reported => self.finish_round(status),
            DecoderEvent::Prepared { plan, resampler_ready, decoder_ready } => {
                self.track_prepared(&plan, resampler_ready, decoder_ready, status);
                self.finish_round(status)
            },
            DecoderEvent::Sought { request, timestamp } => {
                if let Some(at) = timestamp {
                    self.seek_done(&request, at, status, ring);
                }
                self.finish_round(status)
            },
            DecoderEvent::Packet(packet) => match self.packet_event(packet, status) {
                PacketAction::Skip => DecoderAction::Again,
                PacketAction::Decode => DecoderAction::Decode,
                PacketAction::Process => DecoderAction::Process,
                PacketAction::Rest => DecoderAction::Sleep,
            },
            DecoderEvent::Queued => DecoderAction::Sleep,
        }
    }
}

/// A file can be played exactly if one of its tracks carries audio, and the track that is played has
/// the number of the first one that does.
pub proof fn files_with_audio_are_playable(
    tracks: Seq<TrackInfo>,
    target_rate: u32,
    channels: u16,
)
    ensures
        planned(tracks, target_rate, channels) is Some <==> exists|i: int|
            0 <= i < tracks.len() && (#[trigger] tracks[i]).has_codec,
        planned(tracks, target_rate, channels) is Some ==> exists|i: int|
            {
                &&& 0 <= i < tracks.len()
                &&& (#[trigger] tracks[i]).has_codec
                &&& tracks[i].id == planned(tracks, target_rate, channels)->0.track_id
                &&& forall|j: int| 0 <= j < i ==> !(#[trigger] tracks[j]).has_codec
            },
{
    lemma_audio_track(tracks, 0);
    if audio_track(tracks, 0) is Some {
        let at = audio_track(tracks, 0)->0;
        lemma_track_with_id(tracks, tracks[at].id, 0);
        assert(tracks[at].has_codec);
    }
}

/// A decoder with no file open.
pub open spec fn initial_decoder(target_sample_rate: u32, num_channels: u16) -> DecoderView {
    DecoderView {
        target_sample_rate,
        num_channels,
        tracks: None,
        current_track_id: 0,
        resampling: false,
        decoding: false,
        waiting: no_frames(num_channels as nat),
        restart: true,
    }
}

} // verus!
