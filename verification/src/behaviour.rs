//! What each operation does, told by what goes into it and what comes out of it.

use std::path::PathBuf;

use tokio::sync::mpsc::UnboundedSender;
use vstd::arithmetic::div_mod::{
    lemma_div_pos_is_pos, lemma_fundamental_div_mod_converse, lemma_small_mod,
};
use vstd::prelude::*;

use crate::channel::sent;
use crate::command::{commanded, DecoderMessage};
use crate::decoder::{
    audio_track, command_action, command_decoder, command_queue, files_with_audio_are_playable,
    heard, high_quality, hungry, initial_decoder, load_outcome, loaded_status, next_action,
    next_after_command, next_decoder, next_queue, next_status, packet_action, packet_status,
    planned, possible, searches_find_the_first, track_with_id, CommandAction, DecoderAction,
    DecoderEvent, DecoderThread, DecoderView, LoadError, PacketEvent, SeekRequest, TrackInfo,
    TrackPlan,
};
use crate::engine::{AudioEngine, AudioEngineConfig, EngineError};
use crate::frames::{
    blocks_of, complete, even, extended, first_frames, frame_samples, frames_of, interleaved,
    interleaved_position, later_frames, left_over, no_frames, planes_of, planes_of_all,
};
use crate::player::loaded_and_played;
use crate::ring::{left_queued, newest, rendered, silence, write_step};
use crate::status::{clamped_volume, PlaybackStatus, PlayerState};
use crate::timebase::{millis_at, TimeBase};

verus! {

/// A timestamp stands for its whole seconds: so many milliseconds as the timestamp times the time
/// base comes to in whole seconds. A position that does not fit is the greatest there is, and seconds
/// that do not fit start again from zero, as often as need be.
pub proof fn timestamps_count_in_the_time_base(base: TimeBase, timestamp: u64, laps: int)
    requires
        0 < base.numer,
        0 < base.denom,
    ensures
        base.wf(),
        ({
            let seconds = (timestamp * base.numer) / base.denom as int;
            &&& 0 <= seconds
            &&& seconds * 1000 <= u64::MAX ==> millis_at(base, timestamp) == seconds * 1000
            &&& u64::MAX < seconds * 1000 && seconds <= u64::MAX ==> millis_at(base, timestamp)
                == u64::MAX
        }),
        ({
            let seconds = (timestamp * base.numer) / base.denom as int - laps
                * 0x1_0000_0000_0000_0000;
            0 <= seconds && seconds * 1000 <= u64::MAX ==> millis_at(base, timestamp) == seconds
                * 1000
        }),
{
    let product = timestamp * base.numer;
    assert(0 <= product) by (nonlinear_arith)
        requires
            product == timestamp * base.numer,
            0 <= timestamp,
            0 <= base.numer,
    ;
    let whole = product / base.denom as int;
    lemma_div_pos_is_pos(product, base.denom as int);
    if whole <= u64::MAX {
        lemma_small_mod(whole as nat, 0x1_0000_0000_0000_0000);
    }
    let seconds = whole - laps * 0x1_0000_0000_0000_0000;
    if 0 <= seconds && seconds * 1000 <= u64::MAX {
        lemma_fundamental_div_mod_converse(whole, 0x1_0000_0000_0000_0000, laps, seconds);
    }
}

/// The plan for a file is that of the first track with the number of the first one that carries
/// audio.
///
/// A track that states a sample rate is resampled exactly if it is not that of the output, and then
/// from the rate it states; one that states none counts as one of 44100. Its length is that of its
/// frames in its time base, where both are known.
pub proof fn plans_follow_the_track(
    tracks: Seq<TrackInfo>,
    target_rate: u32,
    channels: u16,
    first: int,
    at: int,
)
    requires
        tracks.len() <= usize::MAX,
        0 <= first < tracks.len(),
        tracks[first].has_codec,
        forall|j: int| 0 <= j < first ==> !(#[trigger] tracks[j]).has_codec,
        0 <= at < tracks.len(),
        tracks[at].id == tracks[first].id,
        forall|j: int| 0 <= j < at ==> (#[trigger] tracks[j]).id != tracks[first].id,
    ensures
        planned(tracks, target_rate, channels) is Some,
        ({
            let plan = planned(tracks, target_rate, channels)->0;
            let track = tracks[at];
            &&& plan.track_index == at
            &&& plan.track_id == tracks[first].id
            &&& match track.sample_rate {
                Some(rate) => {
                    &&& plan.resampler is Some <==> rate != target_rate
                    &&& plan.resampler is Some ==> plan.resampler->0.source_rate == rate
                },
                None => {
                    &&& plan.resampler is Some <==> target_rate != 44100
                    &&& plan.resampler is Some ==> plan.resampler->0.source_rate == 44100
                },
            }
            &&& plan.resampler is Some ==> plan.resampler->0.target_rate == target_rate
                && plan.resampler->0.channels == channels
            &&& (track.time_base is None || track.n_frames is None) ==> plan.duration_ms is None
            &&& track.time_base is Some && track.n_frames is Some ==> plan.duration_ms == Some(
                millis_at(track.time_base->0, track.n_frames->0) as u64,
            )
        }),
        tracks[at].time_base is Some && tracks[at].n_frames is Some ==> ({
            let base = tracks[at].time_base->0;
            let seconds = (tracks[at].n_frames->0 * base.numer) / base.denom as int;
            0 < base.numer && 0 < base.denom && seconds * 1000 <= u64::MAX ==> planned(
                tracks,
                target_rate,
                channels,
            )->0.duration_ms->0 == seconds * 1000
        }),
{
    searches_find_the_first(tracks, tracks[first].id);
    let found = audio_track(tracks, 0)->0;
    assert(found == first) by {
        if found < first {
            assert(!tracks[found].has_codec);
        } else if first < found {
            assert(!tracks[first].has_codec);
        }
    }
    let place = track_with_id(tracks, tracks[first].id, 0)->0;
    assert(place == at) by {
        if place < at {
            assert(tracks[place].id != tracks[first].id);
        } else if at < place {
            assert(tracks[at].id != tracks[first].id);
        }
    }
    if let Some(base) = tracks[at].time_base {
        if let Some(frames) = tracks[at].n_frames {
            let seconds = (frames * base.numer) / base.denom as int;
            if 0 < base.numer && 0 < base.denom && seconds * 1000 <= u64::MAX {
                timestamps_count_in_the_time_base(base, frames, 0);
            }
        }
    }
}

/// A file none of whose tracks carries audio is not played.
pub proof fn files_without_audio_are_not_played(
    tracks: Seq<TrackInfo>,
    target_rate: u32,
    channels: u16,
)
    requires
        forall|j: int| 0 <= j < tracks.len() ==> !(#[trigger] tracks[j]).has_codec,
    ensures
        planned(tracks, target_rate, channels) is None,
{
    files_with_audio_are_playable(tracks, target_rate, channels);
}

/// The resampler works between the rates it is asked for, with a long and finely divided filter, and
/// is never asked to change its ratio.
pub proof fn the_resampler_is_of_high_quality(source_rate: u32, target_rate: u32, channels: usize)
    ensures
        ({
            let settings = high_quality(source_rate, target_rate, channels);
            &&& settings.source_rate == source_rate
            &&& settings.target_rate == target_rate
            &&& settings.channels == channels
            &&& settings.sinc_len == 256
            &&& settings.oversampling_factor == 256
            &&& settings.chunk_frames == 1024
            &&& settings.cutoff_permille == 950
            &&& settings.relative_ratio_permille == 1000
            &&& settings.interpolation is Linear
            &&& settings.window is BlackmanHarrisSquared
        }),
{
}

/// A decoder finds its current track by its number: the first of the open file that has it.
pub proof fn the_current_track_gives_the_time_base(
    decoder: DecoderView,
    tracks: Seq<TrackInfo>,
    at: int,
)
    requires
        decoder.tracks == Some(tracks),
        0 <= at < tracks.len(),
        tracks[at].id == decoder.current_track_id,
        forall|j: int| 0 <= j < at ==> (#[trigger] tracks[j]).id != decoder.current_track_id,
    ensures
        decoder.current_time_base() == tracks[at].time_base,
        decoder.timed() <==> (tracks[at].time_base is Some ==> 0 < tracks[at].time_base->0.numer
            && 0 < tracks[at].time_base->0.denom),
{
    searches_find_the_first(tracks, decoder.current_track_id);
    let place = track_with_id(tracks, decoder.current_track_id, 0)->0;
    if place < at {
        assert(tracks[place].id != decoder.current_track_id);
    } else if at < place {
        assert(tracks[at].id != decoder.current_track_id);
    }
}

/// A decoded packet moves the position to the time of its timestamp in the time base of the track
/// that is played, and changes nothing else. Without a time base the position stays.
pub proof fn decoded_packets_move_the_position(
    decoder: DecoderView,
    status: PlaybackStatus,
    tracks: Seq<TrackInfo>,
    at: int,
    timestamp: u64,
)
    requires
        decoder.tracks == Some(tracks),
        0 <= at < tracks.len(),
        tracks[at].id == decoder.current_track_id,
        forall|j: int| 0 <= j < at ==> (#[trigger] tracks[j]).id != decoder.current_track_id,
    ensures
        ({
            let packet = PacketEvent::Decoded { timestamp };
            let next = packet_status(decoder, status, packet);
            let event = DecoderEvent::Packet(packet);
            &&& next.state == status.state
            &&& next.volume == status.volume
            &&& next.duration_ms == status.duration_ms
            &&& next.has_file == status.has_file
            &&& next_status(decoder, status, event) == next
            &&& next_decoder(decoder, event) == decoder
            &&& next_action(decoder, status, event) is Process
            &&& packet_action(decoder, packet) is Process
            &&& tracks[at].time_base is None ==> next.position_ms == status.position_ms
            &&& tracks[at].time_base matches Some(base) ==> next.position_ms == millis_at(
                base,
                timestamp,
            ) as u64
        }),
        tracks[at].time_base is Some ==> ({
            let base = tracks[at].time_base->0;
            let seconds = (timestamp * base.numer) / base.denom as int;
            0 < base.numer && 0 < base.denom && seconds * 1000 <= u64::MAX ==> packet_status(
                decoder,
                status,
                PacketEvent::Decoded { timestamp },
            ).position_ms == seconds * 1000
        }),
{
    the_current_track_gives_the_time_base(decoder, tracks, at);
    if let Some(base) = tracks[at].time_base {
        let seconds = (timestamp * base.numer) / base.denom as int;
        if 0 < base.numer && 0 < base.denom && seconds * 1000 <= u64::MAX {
            timestamps_count_in_the_time_base(base, timestamp, 0);
        }
    }
}

/// Of the packets that are read, those of the track that is played are decoded and the others passed
/// over. A failure is passed over too, but at the end of the file the player stops, and then has no
/// file. Nothing else of the status changes, and nothing of the decoder or of what is queued.
pub proof fn packets_are_decoded_or_passed_over(
    decoder: DecoderView,
    status: PlaybackStatus,
    queued: Seq<u32>,
    packet: PacketEvent,
)
    ensures
        ({
            let event = DecoderEvent::Packet(packet);
            let action = next_action(decoder, status, event);
            let next = next_status(decoder, status, event);
            &&& next == packet_status(decoder, status, packet)
            &&& next_decoder(decoder, event) == decoder
            &&& next_queue(queued, event) == queued
            &&& packet matches PacketEvent::Read { track_id } ==> {
                &&& action is Decode <==> track_id == decoder.current_track_id
                &&& action is Again <==> track_id != decoder.current_track_id
                &&& packet_action(decoder, packet) is Decode <==> track_id
                    == decoder.current_track_id
                &&& packet_action(decoder, packet) is Skip <==> track_id
                    != decoder.current_track_id
                &&& next == status
            }
            &&& packet is DecodeFailed || packet is ReadFailed ==> {
                &&& action is Sleep
                &&& packet_action(decoder, packet) is Rest
                &&& next == status
            }
            &&& packet is EndOfFile ==> {
                &&& action is Sleep
                &&& packet_action(decoder, packet) is Rest
                &&& next.state is Stopped
                &&& !next.has_file
                &&& next.volume == status.volume
                &&& next.position_ms == status.position_ms
                &&& next.duration_ms == status.duration_ms
            }
        }),
{
}

/// A jump changes nothing of the status but the position, so that a player that was playing goes on
/// playing. One that was made moves the position to the time it reached, lets nothing old be queued
/// or wait, and keeps the file and its decoder; one that failed changes nothing at all.
pub proof fn jumps_change_only_the_position(
    decoder: DecoderView,
    status: PlaybackStatus,
    queued: Seq<u32>,
    request: SeekRequest,
    timestamp: Option<u64>,
)
    ensures
        ({
            let event = DecoderEvent::Sought { request, timestamp };
            let next = next_status(decoder, status, event);
            let after = next_decoder(decoder, event);
            let reading = status.state is Playing && decoder.tracks is Some && decoder.decoding;
            &&& next.state == status.state
            &&& next.volume == status.volume
            &&& next.duration_ms == status.duration_ms
            &&& next.has_file == status.has_file
            &&& next_action(decoder, status, event) is ReadPacket <==> reading
            &&& next_action(decoder, status, event) is Sleep <==> !reading
            &&& after.target_sample_rate == decoder.target_sample_rate
            &&& after.num_channels == decoder.num_channels
            &&& after.tracks == decoder.tracks
            &&& after.current_track_id == decoder.current_track_id
            &&& after.resampling == decoder.resampling
            &&& after.decoding == decoder.decoding
            &&& timestamp is None ==> {
                &&& next == status
                &&& after == decoder
                &&& next_queue(queued, event) == queued
            }
            &&& timestamp is Some ==> {
                &&& next.position_ms == millis_at(request.time_base, timestamp->0) as u64
                &&& next_queue(queued, event).len() == 0
                &&& after.waiting.len() == decoder.num_channels
                &&& forall|ch: int|
                    0 <= ch < after.waiting.len() ==> (#[trigger] after.waiting[ch]).len() == 0
                &&& after.restart
            }
        }),
        timestamp is Some ==> ({
            let base = request.time_base;
            let seconds = (timestamp->0 * base.numer) / base.denom as int;
            0 < base.numer && 0 < base.denom && seconds * 1000 <= u64::MAX ==> next_status(
                decoder,
                status,
                DecoderEvent::Sought { request, timestamp },
            ).position_ms == seconds * 1000
        }),
{
    if let Some(at) = timestamp {
        let base = request.time_base;
        let seconds = (at * base.numer) / base.denom as int;
        if 0 < base.numer && 0 < base.denom && seconds * 1000 <= u64::MAX {
            timestamps_count_in_the_time_base(base, at, 0);
        }
    }
}

/// A file that could not be read, or has no audio, is reported as such and no longer counts as
/// loaded, and all else stays. One that has audio is got ready: the decoder takes it over with the
/// track that carries the audio, and the status stays.
pub proof fn opened_files_are_taken_over_or_reported(
    decoder: DecoderView,
    status: PlaybackStatus,
    queued: Seq<u32>,
    opened: Option<Vec<TrackInfo>>,
)
    ensures
        ({
            let event = DecoderEvent::Opened(opened);
            let action = next_action(decoder, status, event);
            let next = next_status(decoder, status, event);
            let after = next_decoder(decoder, event);
            let audible = opened is Some && exists|i: int|
                0 <= i < opened->0@.len() && (#[trigger] opened->0@[i]).has_codec;
            &&& next_queue(queued, event) == queued
            &&& next.state == status.state
            &&& next.volume == status.volume
            &&& next.position_ms == status.position_ms
            &&& next.duration_ms == status.duration_ms
            &&& after.target_sample_rate == decoder.target_sample_rate
            &&& after.num_channels == decoder.num_channels
            &&& after.resampling == decoder.resampling
            &&& after.decoding == decoder.decoding
            &&& after.waiting == decoder.waiting
            &&& after.restart == decoder.restart
            &&& opened is None ==> action == DecoderAction::Report(LoadError::Unreadable)
            &&& opened is Some && !audible ==> action == DecoderAction::Report(
                LoadError::NoAudioTrack,
            )
            &&& !audible ==> !next.has_file && after == decoder
            &&& audible ==> {
                &&& next.has_file == status.has_file
                &&& action is Prepare
                &&& planned(
                    opened->0@,
                    decoder.target_sample_rate,
                    decoder.num_channels,
                ) == Some(action->Prepare_0)
                &&& after.tracks == Some(opened->0@)
                &&& after.current_track_id == action->Prepare_0.track_id
            }
        }),
        ({
            let tracks = match opened {
                Some(found) => Some(found@),
                None => None,
            };
            let outcome = load_outcome(tracks, decoder.target_sample_rate, decoder.num_channels);
            match next_action(decoder, status, DecoderEvent::Opened(opened)) {
                DecoderAction::Prepare(plan) => outcome == Ok::<TrackPlan, LoadError>(plan),
                DecoderAction::Report(error) => outcome == Err::<TrackPlan, LoadError>(error),
                _ => false,
            }
        }),
{
    if let Some(tracks) = opened {
        files_with_audio_are_playable(
            tracks@,
            decoder.target_sample_rate,
            decoder.num_channels,
        );
    }
}

/// A track that was got ready counts as a loaded file, with the length that the plan gives, if any.
/// Samples go through the resampler only if the plan asks for one and it could be made. Nothing old
/// waits, and packets are read from then on if the player is playing and there is a decoder.
pub proof fn prepared_tracks_are_loaded(
    decoder: DecoderView,
    status: PlaybackStatus,
    queued: Seq<u32>,
    plan: TrackPlan,
    resampler_ready: bool,
    decoder_ready: bool,
)
    ensures
        ({
            let event = DecoderEvent::Prepared { plan, resampler_ready, decoder_ready };
            let next = next_status(decoder, status, event);
            let after = next_decoder(decoder, event);
            let reading = status.state is Playing && decoder.tracks is Some && decoder_ready;
            &&& next == loaded_status(status, plan.duration_ms)
            &&& next.has_file
            &&& next.state == status.state
            &&& next.volume == status.volume
            &&& next.position_ms == status.position_ms
            &&& plan.duration_ms is Some ==> next.duration_ms == plan.duration_ms->0
            &&& plan.duration_ms is None ==> next.duration_ms == status.duration_ms
            &&& next_queue(queued, event) == queued
            &&& after == decoder.with_stages(
                plan.resampler is Some && resampler_ready,
                decoder_ready,
            )
            &&& after.resampling <==> plan.resampler is Some && resampler_ready
            &&& after.decoding == decoder_ready
            &&& after.target_sample_rate == decoder.target_sample_rate
            &&& after.num_channels == decoder.num_channels
            &&& after.tracks == decoder.tracks
            &&& after.current_track_id == decoder.current_track_id
            &&& after.restart
            &&& after.waiting.len() == decoder.num_channels
            &&& forall|ch: int|
                0 <= ch < after.waiting.len() ==> (#[trigger] after.waiting[ch]).len() == 0
            &&& next_action(decoder, status, event) is ReadPacket <==> reading
            &&& next_action(decoder, status, event) is Sleep <==> !reading
        }),
{
}

/// A round without a command, or after a report, changes nothing and reads a packet if the player is
/// playing from an open file that has a decoder; once the samples of a packet are queued the round
/// ends.
pub proof fn quiet_rounds_change_nothing(
    decoder: DecoderView,
    status: PlaybackStatus,
    queued: Seq<u32>,
    event: DecoderEvent,
)
    requires
        event is Woken || event is Reported || event is Queued,
    ensures
        next_decoder(decoder, event) == decoder,
        next_status(decoder, status, event) == status,
        next_queue(queued, event) == queued,
        ({
            let reading = status.state is Playing && decoder.tracks is Some && decoder.decoding;
            let action = next_action(decoder, status, event);
            &&& hungry(decoder, status) <==> reading
            &&& event is Queued ==> action is Sleep
            &&& !(event is Queued) ==> {
                &&& action is ReadPacket <==> reading
                &&& action is Sleep <==> !reading
            }
        }),
{
}

/// A command is heard at the beginning of a round, if one came, and at no other time.
pub proof fn commands_are_heard_when_they_come(
    event: DecoderEvent,
    answers: Seq<Option<DecoderMessage>>,
    answer: Option<DecoderMessage>,
)
    ensures
        event is Woken ==> heard(event, answers.push(answer)) == answer,
        !(event is Woken) ==> heard(event, answers) is None,
{
}

/// What a command does to the status: playing, pausing and stopping set the state, stopping also puts
/// the position at the start, and nothing else changes.
pub proof fn commands_set_the_state(status: PlaybackStatus, message: DecoderMessage)
    ensures
        ({
            let next = commanded(status, message);
            &&& next.volume == status.volume
            &&& next.duration_ms == status.duration_ms
            &&& next.has_file == status.has_file
            &&& message is Play ==> next.state is Playing
            &&& message is Pause ==> next.state is Paused
            &&& message is Stop ==> next.state is Stopped && next.position_ms == 0
            &&& !(message is Stop) ==> next.position_ms == status.position_ms
            &&& !(message is Play || message is Pause || message is Stop) ==> next.state
                == status.state
        }),
{
}

/// What a command does to the decoder and to what is queued: stopping drops the samples that are
/// queued or wait, and no other command touches them.
pub proof fn only_stopping_drops_samples(
    decoder: DecoderView,
    queued: Seq<u32>,
    message: DecoderMessage,
)
    ensures
        ({
            let after = command_decoder(decoder, message);
            &&& !(message is Stop) ==> after == decoder && command_queue(queued, message) == queued
            &&& message is Stop ==> {
                &&& command_queue(queued, message).len() == 0
                &&& after.target_sample_rate == decoder.target_sample_rate
                &&& after.num_channels == decoder.num_channels
                &&& after.tracks == decoder.tracks
                &&& after.current_track_id == decoder.current_track_id
                &&& after.resampling == decoder.resampling
                &&& after.decoding == decoder.decoding
                &&& after.restart
                &&& after.waiting.len() == decoder.num_channels
                &&& forall|ch: int|
                    0 <= ch < after.waiting.len() ==> (#[trigger] after.waiting[ch]).len() == 0
            }
        }),
{
}

/// What is to be done about a command: the file of a load is opened; a jump is made in the current
/// track, to the position asked for, if that track has a time base; and with any other command, or
/// such a jump, the round goes on, reading a packet if the player is then playing from an open file
/// that has a decoder.
pub proof fn commands_are_carried_out(
    decoder: DecoderView,
    status: PlaybackStatus,
    message: DecoderMessage,
)
    ensures
        ({
            let action = command_action(decoder, message);
            let next = next_after_command(decoder, status, message);
            let sounding = message is Play || (status.state is Playing && !(message is Pause
                || message is Stop));
            let reading = sounding && decoder.tracks is Some && decoder.decoding;
            let jumping = message is Seek && decoder.current_time_base() is Some;
            &&& message matches DecoderMessage::LoadFile(path) ==> {
                &&& action == CommandAction::Open(path)
                &&& next == DecoderAction::Open(path)
            }
            &&& message matches DecoderMessage::Seek(millis) ==> jumping ==> {
                &&& action is Seek
                &&& action->Seek_0.seconds * 1000 + action->Seek_0.millis == millis
                &&& action->Seek_0.millis < 1000
                &&& action->Seek_0.track_id == decoder.current_track_id
                &&& Some(action->Seek_0.time_base) == decoder.current_time_base()
                &&& next == DecoderAction::Seek(action->Seek_0)
            }
            &&& !(message is LoadFile) && !jumping ==> {
                &&& action is Done
                &&& next is ReadPacket <==> reading
                &&& next is Sleep <==> !reading
            }
            &&& decoder.tracks is None ==> decoder.current_time_base() is None
        }),
{
}

/// A round can always begin, a failure to open a file or to jump can always be taken in, and so can
/// everything about an open file, as long as a time that is to be worked out has a time base that is
/// a proper fraction.
pub proof fn events_can_happen_in_every_state(
    decoder: DecoderView,
    tracks: Vec<TrackInfo>,
    plan: TrackPlan,
    resampler_ready: bool,
    decoder_ready: bool,
    request: SeekRequest,
    timestamp: u64,
    packet: PacketEvent,
)
    ensures
        possible(decoder, DecoderEvent::Woken),
        possible(decoder, DecoderEvent::Reported),
        possible(decoder, DecoderEvent::Queued),
        possible(decoder, DecoderEvent::Opened(None)),
        possible(decoder, DecoderEvent::Sought { request, timestamp: None }),
        0 < request.time_base.numer && 0 < request.time_base.denom ==> possible(
            decoder,
            DecoderEvent::Sought { request, timestamp: Some(timestamp) },
        ),
        (forall|i: int|
            0 <= i < tracks@.len() && (#[trigger] tracks@[i]).time_base is Some ==> 0
                < tracks@[i].time_base->0.numer && 0 < tracks@[i].time_base->0.denom) ==> possible(
            decoder,
            DecoderEvent::Opened(Some(tracks)),
        ),
        decoder.tracks is Some ==> possible(
            decoder,
            DecoderEvent::Prepared { plan, resampler_ready, decoder_ready },
        ),
        decoder.tracks is Some && !(packet is Decoded) ==> possible(
            decoder,
            DecoderEvent::Packet(packet),
        ),
        decoder.tracks is Some && (decoder.current_time_base() is Some ==> 0
            < decoder.current_time_base()->0.numer && 0 < decoder.current_time_base()->0.denom)
            ==> possible(decoder, DecoderEvent::Packet(packet)),
{
    files_with_audio_are_playable(tracks@, 0, 0);
    if let Some(at) = audio_track(tracks@, 0) {
        searches_find_the_first(tracks@, tracks@[at].id);
    }
}

/// A new decoder is made for its output and has no file open.
pub proof fn new_decoders_are_idle(target_sample_rate: u32, num_channels: u16)
    ensures
        ({
            let decoder = initial_decoder(target_sample_rate, num_channels);
            &&& decoder.target_sample_rate == target_sample_rate
            &&& decoder.num_channels == num_channels
            &&& decoder.tracks is None
            &&& !decoder.resampling
            &&& !decoder.decoding
            &&& decoder.waiting.len() == num_channels
            &&& forall|ch: int|
                0 <= ch < num_channels ==> (#[trigger] decoder.waiting[ch]).len() == 0
            &&& decoder.restart
        }),
{
}

/// Once the resampler was given what was due, only what waits has changed, and there is nothing it
/// has to forget.
pub proof fn feeding_changes_only_what_waits(decoder: DecoderView, waiting: Seq<Seq<u32>>)
    ensures
        ({
            let after = decoder.fed(waiting);
            &&& after.waiting == waiting
            &&& !after.restart
            &&& after.target_sample_rate == decoder.target_sample_rate
            &&& after.num_channels == decoder.num_channels
            &&& after.tracks == decoder.tracks
            &&& after.current_track_id == decoder.current_track_id
            &&& after.resampling == decoder.resampling
            &&& after.decoding == decoder.decoding
        }),
{
}

/// A command that is posted is handed over once, behind the earlier ones. If it is delivered it takes
/// effect: playing, pausing and stopping set the state, stopping also puts the position at the start,
/// and nothing else changes. If it is not, the decoder is gone and the status stays.
pub proof fn posted_commands_are_handed_over(
    before: AudioEngine,
    after: AudioEngine,
    message: DecoderMessage,
    outcome: Result<(), EngineError>,
)
    requires
        before.posted(after, message, outcome),
    ensures
        sent(after.tx) == sent(before.tx).push((message, outcome is Ok)),
        outcome is Err ==> outcome->Err_0 is DecoderGone && after.status == before.status,
        after.status.volume == before.status.volume,
        after.status.duration_ms == before.status.duration_ms,
        after.status.has_file == before.status.has_file,
        outcome is Ok && message is Play ==> after.status.state is Playing,
        outcome is Ok && message is Pause ==> after.status.state is Paused,
        outcome is Ok && message is Stop ==> after.status.state is Stopped
            && after.status.position_ms == 0,
        !(message is Play || message is Pause || message is Stop) ==> after.status.state
            == before.status.state,
        !(message is Stop) ==> after.status.position_ms == before.status.position_ms,
{
}

/// A request to play is ignored without a file. With one it is handed over, and if it is delivered the
/// player is playing.
pub proof fn playing_needs_a_file(
    before: AudioEngine,
    after: AudioEngine,
    outcome: Result<(), EngineError>,
)
    requires
        before.played(after, outcome),
    ensures
        !before.status.has_file ==> outcome is Ok && sent(after.tx) == sent(before.tx)
            && after.status == before.status,
        before.status.has_file ==> {
            &&& sent(after.tx) == sent(before.tx).push((DecoderMessage::Play, outcome is Ok))
            &&& outcome is Ok ==> after.status.state is Playing
            &&& outcome is Err ==> outcome->Err_0 is DecoderGone && after.status == before.status
            &&& after.status.volume == before.status.volume
            &&& after.status.position_ms == before.status.position_ms
            &&& after.status.duration_ms == before.status.duration_ms
            &&& after.status.has_file
        },
{
}

/// What leaves an engine untouched sends nothing and keeps its status.
pub proof fn ignored_requests_do_nothing(before: AudioEngine, after: AudioEngine)
    requires
        before.untouched(after),
    ensures
        sent(after.tx) == sent(before.tx),
        after.status == before.status,
{
}

/// The messages of an engine are those that were sent through its half of the channel.
pub proof fn messages_are_what_was_sent(engine: AudioEngine)
    ensures
        engine.messages() == sent(engine.tx),
{
}

/// A decoder that obeys the channel of an engine goes on obeying it, whatever the one and the other
/// do.
pub proof fn obedience_lasts(
    before: AudioEngine,
    after: AudioEngine,
    decoder: DecoderThread,
    next: DecoderThread,
    tx: UnboundedSender<DecoderMessage>,
)
    requires
        before.same_line(after),
        decoder.same_line(next),
    ensures
        before.directs(decoder) <==> decoder.obeys(before.tx),
        decoder.obeys(before.tx) <==> decoder.obeys(after.tx),
        decoder.obeys(tx) <==> next.obeys(tx),
{
    assert(after.directs(decoder) == before.directs(decoder));
}

/// A file that is loaded and played is handed to the decoder, whatever the engine was doing, and once
/// it is taken so is the command to play, in that order and each once. If both are delivered the
/// player is playing; otherwise the status stays.
pub proof fn files_are_handed_over_to_be_played(
    before: AudioEngine,
    after: AudioEngine,
    path: PathBuf,
    load: Result<(), EngineError>,
    play: Result<(), EngineError>,
)
    requires
        loaded_and_played(before, after, path, load, play),
    ensures
        load is Ok ==> sent(after.tx) == sent(before.tx).push(
            (DecoderMessage::LoadFile(path), true),
        ).push((DecoderMessage::Play, play is Ok)),
        load is Err ==> play is Ok && sent(after.tx) == sent(before.tx).push(
            (DecoderMessage::LoadFile(path), false),
        ),
        load is Ok && play is Ok ==> after.status.state is Playing,
        !(load is Ok && play is Ok) ==> after.status == before.status,
        after.status.volume == before.status.volume,
        after.status.position_ms == before.status.position_ms,
        after.status.duration_ms == before.status.duration_ms,
        after.status.has_file == before.status.has_file,
{
}

/// The ring holds whole frames: as many as last no longer than the duration, with a sample for every
/// channel. Usually that duration is half a second.
pub proof fn the_ring_holds_whole_frames(
    config: AudioEngineConfig,
    sample_rate: u32,
    channels: u16,
    frames: int,
)
    requires
        frames * 1000 <= sample_rate * config.buffer_duration_ms < frames * 1000 + 1000,
    ensures
        config.spec_buffer_capacity(sample_rate, channels) == frames * channels,
        AudioEngineConfig::standard().buffer_duration_ms == 500,
        AudioEngineConfig::standard().resampling_quality_permille == 950,
{
}

/// A new player is stopped at the start, at full volume and without a file.
pub proof fn new_players_are_idle()
    ensures
        ({
            let status = PlaybackStatus::spec_initial();
            &&& status.state is Stopped
            &&& status.volume == 1000
            &&& status.position_ms == 0
            &&& status.duration_ms == 0
            &&& !status.has_file
            &&& status.wf()
        }),
{
}

/// A volume is brought to the one in range, from 0 to 1000, that lies nearest to it, and setting it
/// changes nothing else.
pub proof fn volumes_are_brought_to_the_nearest_in_range(
    status: PlaybackStatus,
    volume: int,
    other: int,
)
    requires
        0 <= other <= 1000,
    ensures
        0 <= clamped_volume(volume) <= 1000,
        0 <= volume <= 1000 ==> clamped_volume(volume) == volume,
        volume <= other ==> clamped_volume(volume) <= other,
        other <= volume ==> other <= clamped_volume(volume),
        ({
            let next = status.with_volume(clamped_volume(volume) as u64);
            &&& next.volume == clamped_volume(volume)
            &&& next.state == status.state
            &&& next.position_ms == status.position_ms
            &&& next.duration_ms == status.duration_ms
            &&& next.has_file == status.has_file
        }),
{
}

/// Each change of a status changes one thing.
pub proof fn changes_of_a_status_change_one_thing(
    status: PlaybackStatus,
    state: PlayerState,
    number: u64,
    flag: bool,
)
    ensures
        status.with_state(state).state == state,
        status.with_position(number).position_ms == number,
        status.with_duration(number).duration_ms == number,
        status.with_volume(number).volume == number,
        status.with_file(flag).has_file == flag,
        status.with_state(state).with_state(status.state) == status,
        status.with_position(number).with_position(status.position_ms) == status,
        status.with_duration(number).with_duration(status.duration_ms) == status,
        status.with_volume(number).with_volume(status.volume) == status,
        status.with_file(flag).with_file(status.has_file) == status,
{
}

/// The numbers that stand for the states are 0, 1 and 2; any other means stopped.
pub proof fn numbers_stand_for_states(state: PlayerState, code: u64)
    ensures
        state is Stopped <==> state.spec_code() == 0,
        state is Playing <==> state.spec_code() == 1,
        state is Paused <==> state.spec_code() == 2,
        PlayerState::of_code(code) is Playing <==> code == 1,
        PlayerState::of_code(code) is Paused <==> code == 2,
{
}

/// Of some samples the newest are kept, as many as there is room for, in order.
pub proof fn the_newest_are_the_last(samples: Seq<u32>, limit: nat, i: int)
    ensures
        samples.len() <= limit ==> newest(samples, limit) == samples,
        limit <= samples.len() ==> newest(samples, limit).len() == limit,
        limit <= samples.len() && 0 <= i < limit ==> newest(samples, limit)[i] == samples[
            samples.len() - limit + i
        ],
{
    if samples.len() <= limit {
        assert(newest(samples, limit) =~= samples);
    }
}

/// While playing, a request gets the queued samples in order, oldest first, and silence behind them,
/// and what it got is no longer queued. Otherwise it gets silence and everything stays queued.
pub proof fn requests_get_the_oldest_samples(
    state: PlayerState,
    queued: Seq<u32>,
    wanted: nat,
    i: int,
)
    ensures
        rendered(state, queued, wanted).len() == wanted,
        0 <= i < wanted ==> rendered(state, queued, wanted)[i] == if state is Playing && i
            < queued.len() {
            queued[i]
        } else {
            0
        },
        !(state is Playing) ==> left_queued(state, queued, wanted) == queued,
        state is Playing && queued.len() <= wanted ==> left_queued(state, queued, wanted).len()
            == 0,
        state is Playing && wanted <= queued.len() ==> {
            &&& left_queued(state, queued, wanted).len() == queued.len() - wanted
            &&& 0 <= i < queued.len() - wanted ==> left_queued(state, queued, wanted)[i] == queued[
                wanted + i
            ]
        },
        silence(wanted).len() == wanted,
        0 <= i < wanted ==> silence(wanted)[i] == 0,
{
}

/// The writer of resampled samples queues the first pending one if there is room. If there is none it
/// asks for a pause and leaves all as it is, and drops the sample if the pause was made.
pub proof fn resampled_samples_are_queued_waited_for_or_dropped(
    pending: Seq<u32>,
    queued: Seq<u32>,
    capacity: nat,
    waited: bool,
    i: int,
)
    ensures
        ({
            let step = write_step(pending, queued, capacity, waited);
            &&& pending.len() == 0 ==> step.0 is Finished && step.1.len() == 0 && step.2 == queued
            &&& pending.len() > 0 && queued.len() < capacity ==> {
                &&& step.0 is Advanced
                &&& step.1.len() == pending.len() - 1
                &&& 0 <= i < step.1.len() ==> step.1[i] == pending[i + 1]
                &&& step.2 == queued.push(pending[0])
            }
            &&& pending.len() > 0 && capacity <= queued.len() && !waited ==> {
                &&& step.0 is Wait
                &&& step.1 == pending
                &&& step.2 == queued
            }
            &&& pending.len() > 0 && capacity <= queued.len() && waited ==> {
                &&& step.0 is Advanced
                &&& step.1.len() == pending.len() - 1
                &&& 0 <= i < step.1.len() ==> step.1[i] == pending[i + 1]
                &&& step.2 == queued
            }
        }),
{
}

/// The channels of a frame are its vectors of samples.
pub proof fn channels_are_read_as_they_are(planes: Seq<Vec<u32>>, ch: int)
    ensures
        planes_of(planes).len() == planes.len(),
        0 <= ch < planes.len() ==> planes_of(planes)[ch] == planes[ch]@,
{
}

/// Frames can be taken in if every channel has at least as many samples as the first, and so if all
/// have as many.
pub proof fn channels_of_one_length_are_complete(planes: Seq<Seq<u32>>)
    requires
        planes.len() > 0,
    ensures
        complete(planes) <==> forall|ch: int|
            0 <= ch < planes.len() ==> planes[0].len() <= (#[trigger] planes[ch]).len(),
        even(planes) <==> forall|ch: int|
            0 <= ch < planes.len() ==> (#[trigger] planes[ch]).len() == planes[0].len(),
        complete(Seq::<Seq<u32>>::empty()),
{
}

/// Every sample of a decoded frame is there to be queued: as many as there are frames times channels,
/// and frame after frame, within a frame channel after channel. A frame in a format that is not
/// supported has none.
pub proof fn every_sample_of_a_frame_is_there(planes: Vec<Vec<u32>>, i: int, ch: int)
    ensures
        frame_samples(None).len() == 0,
        planes@.len() == 0 ==> frame_samples(Some(&planes)).len() == 0,
        planes@.len() > 0 ==> frame_samples(Some(&planes)).len() == planes@[0]@.len()
            * planes@.len(),
        planes@.len() > 0 && 0 <= i < planes@[0]@.len() && 0 <= ch < planes@.len() ==> {
            &&& 0 <= i * planes@.len() + ch < frame_samples(Some(&planes)).len()
            &&& frame_samples(Some(&planes))[i * planes@.len() + ch] == planes@[ch]@[i]
        },
{
    let model = planes_of(planes@);
    samples_are_interleaved(model, i, ch);
    if planes@.len() > 0 {
        assert(model[0] == planes@[0]@);
    }
    if 0 <= ch < planes@.len() {
        assert(model[ch] == planes@[ch]@);
    }
}

/// Interleaving takes every frame of the first channel and, in it, every channel in turn.
pub proof fn samples_are_interleaved(planes: Seq<Seq<u32>>, i: int, ch: int)
    ensures
        planes.len() == 0 ==> interleaved(planes).len() == 0,
        planes.len() > 0 ==> interleaved(planes).len() == planes[0].len() * planes.len(),
        planes.len() > 0 && 0 <= i < planes[0].len() && 0 <= ch < planes.len() ==> {
            &&& 0 <= i * planes.len() + ch < interleaved(planes).len()
            &&& interleaved(planes)[i * planes.len() + ch] == planes[ch][i]
        },
{
    if planes.len() == 0 {
        assert(0 * planes.len() == 0);
    } else if 0 <= i < planes[0].len() && 0 <= ch < planes.len() {
        interleaved_position(planes, i, ch);
    }
}

/// Frames that come behind others are put behind them in every channel, as many as the first channel
/// has.
pub proof fn frames_are_put_behind_the_waiting_ones(
    planes: Seq<Seq<u32>>,
    more: Seq<Seq<u32>>,
    ch: int,
    i: int,
)
    requires
        more.len() == planes.len(),
        0 <= ch < planes.len(),
        more[0].len() <= more[ch].len(),
    ensures
        extended(planes, more).len() == planes.len(),
        extended(planes, more)[ch].len() == planes[ch].len() + more[0].len(),
        0 <= i < planes[ch].len() ==> extended(planes, more)[ch][i] == planes[ch][i],
        0 <= i < more[0].len() ==> extended(planes, more)[ch][planes[ch].len() + i] == more[ch][i],
        no_frames(planes.len()).len() == planes.len(),
        no_frames(planes.len())[ch].len() == 0,
{
}

/// Frames are cut into as many blocks of a size as there are whole ones, from the front and without a
/// gap, and the frames behind the last block are left over.
pub proof fn frames_are_cut_without_a_gap(
    planes: Seq<Seq<u32>>,
    size: nat,
    count: nat,
    block: int,
    ch: int,
    i: int,
)
    requires
        0 < size,
        0 <= ch < planes.len(),
        forall|c: int| 0 <= c < planes.len() ==> (#[trigger] planes[c]).len() == planes[0].len(),
        count * size <= planes[0].len() < count * size + size,
    ensures
        blocks_of(planes, size).len() == count,
        0 <= block < count ==> {
            &&& blocks_of(planes, size)[block].len() == planes.len()
            &&& blocks_of(planes, size)[block][ch].len() == size
        },
        0 <= block < count && 0 <= i < size ==> blocks_of(planes, size)[block][ch][i] == planes[ch][
            block * size + i
        ],
        left_over(planes, size).len() == planes.len(),
        left_over(planes, size)[ch].len() == planes[0].len() - count * size,
        0 <= i < planes[0].len() - count * size ==> left_over(planes, size)[ch][i] == planes[ch][
            count * size + i
        ],
{
    let frames = planes[0].len() as int;
    let step = size as int;
    assert(planes[ch].len() == frames);
    lemma_fundamental_div_mod_converse(frames, step, count as int, frames - count * step);
    if 0 <= block < count {
        assert(0 <= block * step && block * step + step <= frames) by (nonlinear_arith)
            requires
                0 < step,
                0 <= block < count,
                count * step <= frames,
        ;
    }
}

/// The first frames of some are the first samples of every channel, and the later ones those behind
/// them.
pub proof fn frames_are_divided_in_every_channel(
    planes: Seq<Seq<u32>>,
    count: nat,
    ch: int,
    i: int,
)
    requires
        0 <= ch < planes.len(),
        count <= planes[ch].len(),
    ensures
        frames_of(planes) == planes[0].len(),
        frames_of(Seq::<Seq<u32>>::empty()) == 0,
        first_frames(planes, count).len() == planes.len(),
        first_frames(planes, count)[ch].len() == count,
        0 <= i < count ==> first_frames(planes, count)[ch][i] == planes[ch][i],
        later_frames(planes, count).len() == planes.len(),
        later_frames(planes, count)[ch].len() == planes[ch].len() - count,
        0 <= i < planes[ch].len() - count ==> later_frames(planes, count)[ch][i] == planes[ch][count
            + i],
{
}

/// Blocks that are handed out are read block by block.
pub proof fn blocks_are_read_as_they_are(blocks: Seq<Vec<Vec<u32>>>, i: int, ch: int)
    requires
        0 <= i < blocks.len(),
        0 <= ch < blocks[i]@.len(),
    ensures
        planes_of_all(blocks).len() == blocks.len(),
        planes_of_all(blocks)[i].len() == blocks[i]@.len(),
        planes_of_all(blocks)[i][ch] == blocks[i]@[ch]@,
{
}

} // verus!
