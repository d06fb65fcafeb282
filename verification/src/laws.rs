//! What holds of the player as a whole.

use std::path::PathBuf;

use vstd::prelude::*;

use crate::command::{commanded, DecoderMessage};
use crate::decoder::{
    chosen_track, command_action, command_decoder, command_queue, high_quality, hungry,
    load_outcome, loaded_status, next_action, next_decoder, next_queue, next_status, packet_action,
    packet_status, planned, tracks_of, CommandAction, DecoderEvent, DecoderThread, DecoderView,
    PacketAction, PacketEvent, SeekRequest, TrackInfo, TrackPlan, RESAMPLER_CHUNK,
};
use crate::display::padded_clock;
use crate::engine::{AudioEngine, AudioEngineConfig, EngineError};
use crate::frames::{frames_of, interleaved};
use crate::player::loaded_and_played;
use crate::ring::{left_queued, newest, rendered, silence, smaller, write_step, WriteStep};
use crate::status::{clamped_volume, PlaybackStatus, PlayerState};
use crate::timebase::{millis_at, seconds_at, TimeBase};

verus! {

/// What is queued comes out unchanged and in order: samples that find room behind those already
/// queued are all played, after them, by a request for as many, which leaves nothing.
pub proof fn queued_samples_are_played_in_order(
    queued: Seq<u32>,
    samples: Seq<u32>,
    capacity: nat,
)
    requires
        queued.len() + samples.len() <= capacity,
    ensures
        rendered(
            PlayerState::Playing,
            newest(queued + samples, capacity),
            queued.len() + samples.len(),
        ) == queued + samples,
        left_queued(
            PlayerState::Playing,
            newest(queued + samples, capacity),
            queued.len() + samples.len(),
        ) == Seq::<u32>::empty(),
{
    let all = queued + samples;
    assert(newest(all, capacity) =~= all);
    assert(rendered(PlayerState::Playing, all, all.len()) =~= all);
    assert(left_queued(PlayerState::Playing, all, all.len()) =~= Seq::<u32>::empty());
}

/// A decoded frame that fits in an empty ring is played exactly as it interleaves.
pub proof fn frames_are_played_interleaved(planes: Seq<Seq<u32>>, capacity: nat)
    requires
        interleaved(planes).len() <= capacity,
    ensures
        rendered(
            PlayerState::Playing,
            newest(Seq::<u32>::empty() + interleaved(planes), capacity),
            interleaved(planes).len(),
        ) == interleaved(planes),
{
    queued_samples_are_played_in_order(Seq::<u32>::empty(), interleaved(planes), capacity);
    assert(Seq::<u32>::empty() + interleaved(planes) =~= interleaved(planes));
}

/// It does not matter how the output divides its requests: two requests in a row get what one for
/// both gets.
pub proof fn requests_can_be_divided(state: PlayerState, queued: Seq<u32>, a: nat, b: nat)
    ensures
        rendered(state, queued, a) + rendered(state, left_queued(state, queued, a), b) == rendered(
            state,
            queued,
            a + b,
        ),
        left_queued(state, left_queued(state, queued, a), b) == left_queued(state, queued, a + b),
{
    assert(rendered(state, queued, a) + rendered(state, left_queued(state, queued, a), b)
        =~= rendered(state, queued, a + b));
    assert(left_queued(state, left_queued(state, queued, a), b) =~= left_queued(
        state,
        queued,
        a + b,
    ));
}

/// It does not matter how the decoder divides its writes: two writes in a row queue what one of
/// both queues.
pub proof fn writes_can_be_divided(
    queued: Seq<u32>,
    a: Seq<u32>,
    b: Seq<u32>,
    capacity: nat,
)
    ensures
        newest(newest(queued + a, capacity) + b, capacity) == newest(queued + (a + b), capacity),
{
    assert(newest(newest(queued + a, capacity) + b, capacity) =~= newest(
        queued + (a + b),
        capacity,
    ));
}

/// Writing displaces only the oldest samples: a write never makes the ring overflow, and the
/// newest samples written are at its end.
pub proof fn the_newest_samples_are_kept(queued: Seq<u32>, samples: Seq<u32>, capacity: nat)
    ensures
        newest(queued + samples, capacity).len() == smaller(
            queued.len() + samples.len(),
            capacity,
        ),
        samples.len() <= capacity ==> newest(queued + samples, capacity).skip(
            newest(queued + samples, capacity).len() - samples.len(),
        ) == samples,
        samples.len() >= capacity ==> newest(queued + samples, capacity) == newest(
            samples,
            capacity,
        ),
{
    let kept = newest(queued + samples, capacity);
    if samples.len() <= capacity {
        assert(kept.skip(kept.len() - samples.len()) =~= samples);
    }
    if samples.len() >= capacity {
        assert(kept =~= newest(samples, capacity));
    }
}

/// Unless it is playing, the player puts out silence and keeps what is queued. Pausing and
/// stopping have that effect.
pub proof fn only_playing_makes_sound(status: PlaybackStatus, queued: Seq<u32>, wanted: nat)
    ensures
        !(status.state is Playing) ==> rendered(status.state, queued, wanted) == silence(wanted)
            && left_queued(status.state, queued, wanted) == queued,
        !(commanded(status, DecoderMessage::Pause).state is Playing),
        !(commanded(status, DecoderMessage::Stop).state is Playing),
{
}

/// Stopping, and a jump that was made, let nothing old be heard: neither what was queued nor what
/// waited for the resampler is left, and the resampler has to forget what it was given, so that the
/// output gets silence until new samples are written, and then those alone.
pub proof fn nothing_old_is_heard(
    decoder: DecoderView,
    queued: Seq<u32>,
    request: SeekRequest,
    timestamp: u64,
    samples: Seq<u32>,
    capacity: nat,
    wanted: nat,
)
    requires
        samples.len() <= capacity,
    ensures
        ({
            let stopped = command_queue(queued, DecoderMessage::Stop);
            let sought = DecoderEvent::Sought { request, timestamp: Some(timestamp) };
            &&& stopped == Seq::<u32>::empty()
            &&& next_queue(queued, sought) == stopped
            &&& frames_of(command_decoder(decoder, DecoderMessage::Stop).waiting) == 0
            &&& frames_of(next_decoder(decoder, sought).waiting) == 0
            &&& command_decoder(decoder, DecoderMessage::Stop).restart
            &&& next_decoder(decoder, sought).restart
            &&& rendered(PlayerState::Playing, stopped, wanted) == silence(wanted)
            &&& rendered(
                PlayerState::Playing,
                newest(stopped + samples, capacity),
                samples.len(),
            ) == samples
        }),
{
    let none = Seq::<u32>::empty();
    assert(rendered(PlayerState::Playing, none, wanted) =~= silence(wanted));
    queued_samples_are_played_in_order(none, samples, capacity);
    assert(none + samples =~= samples);
}

/// What the writer of resampled samples leaves queued when nothing is played meanwhile, with a
/// pause before each sample that finds the ring full.
pub open spec fn written_out(pending: Seq<u32>, queued: Seq<u32>, capacity: nat) -> Seq<u32>
    decreases pending.len(),
{
    if pending.len() == 0 {
        queued
    } else {
        let first = write_step(pending, queued, capacity, false);
        let settled = if first.0 is Wait {
            write_step(first.1, first.2, capacity, true)
        } else {
            first
        };
        written_out(pending.skip(1), settled.2, capacity)
    }
}

/// After a pause the writer of resampled samples always deals with the sample it paused for, so
/// it never pauses twice for the same sample.
pub proof fn the_writer_pauses_once_for_a_sample(
    pending: Seq<u32>,
    queued: Seq<u32>,
    capacity: nat,
)
    requires
        pending.len() > 0,
    ensures
        write_step(pending, queued, capacity, true).0 is Advanced,
        write_step(pending, queued, capacity, true).1 == pending.skip(1),
        write_step(pending, queued, capacity, false).0 is Wait <==> capacity <= queued.len(),
{
}

/// The writer of resampled samples never displaces or reorders what is queued: each step leaves
/// the queue alone or appends the first pending sample.
pub proof fn the_writer_only_appends(
    pending: Seq<u32>,
    queued: Seq<u32>,
    capacity: nat,
    waited: bool,
)
    requires
        queued.len() <= capacity,
    ensures
        write_step(pending, queued, capacity, waited).2 == queued || (pending.len() > 0
            && write_step(pending, queued, capacity, waited).2 == queued.push(pending[0])),
        write_step(pending, queued, capacity, waited).2.len() <= capacity,
{
}

/// If nothing is played meanwhile, the writer of resampled samples queues the first samples that
/// there is room for and drops the rest.
pub proof fn the_writer_drops_what_finds_no_room(
    pending: Seq<u32>,
    queued: Seq<u32>,
    capacity: nat,
)
    requires
        queued.len() <= capacity,
    ensures
        written_out(pending, queued, capacity) == queued + pending.take(
            smaller(pending.len(), (capacity - queued.len()) as nat) as int,
        ),
    decreases pending.len(),
{
    let room = smaller(pending.len(), (capacity - queued.len()) as nat) as int;
    if pending.len() == 0 {
        assert(queued + pending.take(room) =~= queued);
    } else if queued.len() < capacity {
        the_writer_drops_what_finds_no_room(pending.skip(1), queued.push(pending[0]), capacity);
        assert(queued.push(pending[0]) + pending.skip(1).take(room - 1) =~= queued + pending.take(
            room,
        ));
    } else {
        the_writer_drops_what_finds_no_room(pending.skip(1), queued, capacity);
        assert(queued + pending.skip(1).take(0) =~= queued + pending.take(room));
    }
}

/// What several blocks leave queued that come out of the resampler and are written one after the
/// other, when nothing is played meanwhile.
pub open spec fn all_written_out(
    outputs: Seq<Seq<Seq<u32>>>,
    queued: Seq<u32>,
    capacity: nat,
) -> Seq<u32>
    decreases outputs.len(),
{
    if outputs.len() == 0 {
        queued
    } else {
        written_out(
            interleaved(outputs.last()),
            all_written_out(outputs.drop_last(), queued, capacity),
            capacity,
        )
    }
}

/// The samples of several blocks in playing order.
pub open spec fn all_interleaved(outputs: Seq<Seq<Seq<u32>>>) -> Seq<u32>
    decreases outputs.len(),
{
    if outputs.len() == 0 {
        Seq::empty()
    } else {
        all_interleaved(outputs.drop_last()) + interleaved(outputs.last())
    }
}

/// It does not matter how the resampled samples are divided into blocks: writing one block after the
/// other queues, in order, the first samples of them all that there is room for, as writing them in
/// one piece does.
pub proof fn resampled_blocks_are_queued_in_order(
    outputs: Seq<Seq<Seq<u32>>>,
    queued: Seq<u32>,
    capacity: nat,
)
    requires
        queued.len() <= capacity,
    ensures
        all_written_out(outputs, queued, capacity) == queued + all_interleaved(outputs).take(
            smaller(
                all_interleaved(outputs).len(),
                (capacity - queued.len()) as nat,
            ) as int,
        ),
        all_written_out(outputs, queued, capacity) == written_out(
            all_interleaved(outputs),
            queued,
            capacity,
        ),
    decreases outputs.len(),
{
    let all = all_interleaved(outputs);
    the_writer_drops_what_finds_no_room(all, queued, capacity);
    if outputs.len() > 0 {
        let earlier = all_interleaved(outputs.drop_last());
        let last = interleaved(outputs.last());
        let before = all_written_out(outputs.drop_last(), queued, capacity);
        resampled_blocks_are_queued_in_order(outputs.drop_last(), queued, capacity);
        the_writer_drops_what_finds_no_room(last, before, capacity);
        assert(all_written_out(outputs, queued, capacity) =~= queued + all.take(
            smaller(all.len(), (capacity - queued.len()) as nat) as int,
        ));
    }
}

/// The decoder that the controls direct stays theirs, whatever commands they give and whatever the
/// decoder does.
pub proof fn the_controls_keep_their_decoder(
    before: AudioEngine,
    after: AudioEngine,
    decoder: DecoderThread,
    next: DecoderThread,
)
    requires
        before.directs(decoder),
        before.same_line(after),
        decoder.same_line(next),
    ensures
        after.directs(next),
{
    assert(after.directs(next) == before.directs(next));
    assert(next.obeys(before.tx) == decoder.obeys(before.tx));
}

/// The status after several commands, in order.
pub open spec fn all_commanded(
    status: PlaybackStatus,
    messages: Seq<DecoderMessage>,
) -> PlaybackStatus
    decreases messages.len(),
{
    if messages.len() == 0 {
        status
    } else {
        commanded(all_commanded(status, messages.drop_last()), messages.last())
    }
}

/// Whatever came before, the state and the position after several commands depend on what came
/// before only where no command sets them.
proof fn lemma_commands_decide(a: PlaybackStatus, b: PlaybackStatus, messages: Seq<DecoderMessage>)
    requires
        a == (PlaybackStatus { state: a.state, position_ms: a.position_ms, ..b }),
    ensures
        ({
            let x = all_commanded(a, messages);
            let y = all_commanded(b, messages);
            &&& x == (PlaybackStatus { state: x.state, position_ms: x.position_ms, ..y })
            &&& x.volume == a.volume && x.duration_ms == a.duration_ms && x.has_file == a.has_file
            &&& x.state == y.state || (x.state == a.state && y.state == b.state)
            &&& x.position_ms == y.position_ms || (x.position_ms == a.position_ms && y.position_ms
                == b.position_ms)
        }),
    decreases messages.len(),
{
    if messages.len() > 0 {
        lemma_commands_decide(a, b, messages.drop_last());
    }
}

/// The controls and the decoder agree: once the decoder has carried out, in order, the commands
/// that the controls have let take effect, the status is what the controls made it.
pub proof fn the_decoder_catches_up(status: PlaybackStatus, messages: Seq<DecoderMessage>)
    ensures
        all_commanded(all_commanded(status, messages), messages) == all_commanded(
            status,
            messages,
        ),
{
    let once = all_commanded(status, messages);
    lemma_commands_decide(status, status, messages);
    lemma_commands_decide(once, status, messages);
}

/// Carrying out a command a second time changes nothing.
pub proof fn commands_are_idempotent(status: PlaybackStatus, message: DecoderMessage)
    ensures
        commanded(commanded(status, message), message) == commanded(status, message),
{
}

/// The volume stays in its range, whatever happens, and only setting it changes it.
pub proof fn the_volume_stays_in_range(
    status: PlaybackStatus,
    decoder: DecoderView,
    message: DecoderMessage,
    event: PacketEvent,
    duration_ms: Option<u64>,
    volume: i64,
)
    requires
        status.wf(),
    ensures
        PlaybackStatus::spec_initial().wf(),
        commanded(status, message).wf() && commanded(status, message).volume == status.volume,
        packet_status(decoder, status, event).wf() && packet_status(decoder, status, event).volume
            == status.volume,
        loaded_status(status, duration_ms).wf() && loaded_status(status, duration_ms).volume
            == status.volume,
        status.with_volume(clamped_volume(volume as int) as u64).wf(),
{
}

/// Packets are read only while playing: pausing and stopping end that, the end of the file does,
/// and playing starts it again if there is a decoder.
pub proof fn packets_are_read_only_while_playing(decoder: DecoderView, status: PlaybackStatus)
    requires
        decoder.wf(),
    ensures
        hungry(decoder, status) ==> status.state is Playing,
        !hungry(decoder, commanded(status, DecoderMessage::Pause)),
        !hungry(decoder, commanded(status, DecoderMessage::Stop)),
        !hungry(decoder, packet_status(decoder, status, PacketEvent::EndOfFile)),
        decoder.decoding ==> hungry(decoder, commanded(status, DecoderMessage::Play)),
{
}

/// Stopping shows the start as the position and leaves volume, length and file alone.
pub proof fn stopping_shows_the_start(status: PlaybackStatus)
    ensures
        commanded(status, DecoderMessage::Stop).state is Stopped,
        commanded(status, DecoderMessage::Stop).position_ms == 0,
        commanded(status, DecoderMessage::Stop).duration_ms == status.duration_ms,
        commanded(status, DecoderMessage::Stop).has_file == status.has_file,
        commanded(status, DecoderMessage::Stop).volume == status.volume,
{
}

/// At the end of the file the player stops, and requests to play are ignored from then on.
pub proof fn a_finished_file_cannot_be_played_again(
    decoder: DecoderView,
    status: PlaybackStatus,
    before: AudioEngine,
    after: AudioEngine,
    outcome: Result<(), EngineError>,
)
    requires
        before.status == packet_status(decoder, status, PacketEvent::EndOfFile),
        before.played(after, outcome),
    ensures
        outcome is Ok,
        after.status.state is Stopped,
        after.messages() == before.messages(),
{
}

/// A packet of another track is passed over and changes nothing.
pub proof fn other_tracks_are_passed_over(
    decoder: DecoderView,
    status: PlaybackStatus,
    track_id: u32,
)
    requires
        track_id != decoder.current_track_id,
    ensures
        packet_action(decoder, PacketEvent::Read { track_id }) == PacketAction::Skip,
        packet_status(decoder, status, PacketEvent::Read { track_id }) == status,
{
}

/// A packet or a read that fails, short of the end of the file, changes nothing.
pub proof fn failures_are_passed_over(decoder: DecoderView, status: PlaybackStatus)
    ensures
        packet_status(decoder, status, PacketEvent::DecodeFailed) == status,
        packet_status(decoder, status, PacketEvent::ReadFailed) == status,
{
}

/// A round reads at most one packet: a packet that was read is decoded or passed over, and whatever
/// comes of decoding it ends the round.
pub proof fn a_round_reads_at_most_one_packet(
    decoder: DecoderView,
    status: PlaybackStatus,
    packet: PacketEvent,
)
    ensures
        packet is Read ==> next_action(decoder, status, DecoderEvent::Packet(packet)) is Decode
            || next_action(decoder, status, DecoderEvent::Packet(packet)) is Again,
        packet is Decoded ==> next_action(
            decoder,
            status,
            DecoderEvent::Packet(packet),
        ) is Process,
        !(packet is Read || packet is Decoded) ==> next_action(
            decoder,
            status,
            DecoderEvent::Packet(packet),
        ) is Sleep,
        next_action(decoder, status, DecoderEvent::Queued) is Sleep,
{
}

/// A file that cannot be loaded leaves the decoder as it was, but no file counts as loaded.
pub proof fn a_failed_load_leaves_the_decoder_alone(
    decoder: DecoderView,
    status: PlaybackStatus,
    opened: Option<Vec<TrackInfo>>,
)
    requires
        load_outcome(
            tracks_of(opened),
            decoder.target_sample_rate,
            decoder.num_channels,
        ) is Err,
    ensures
        next_decoder(decoder, DecoderEvent::Opened(opened)) == decoder,
        next_status(decoder, status, DecoderEvent::Opened(opened)) == status.with_file(false),
        next_action(decoder, status, DecoderEvent::Opened(opened)) is Report,
{
}

/// A file that was opened and whose decoder could be made can be played: the request to play is
/// not ignored and, once delivered, has the decoder read packets.
pub proof fn a_loaded_file_can_be_played(
    decoder: DecoderView,
    tracks: Seq<TrackInfo>,
    plan: TrackPlan,
    resampler_ready: bool,
    status: PlaybackStatus,
    before: AudioEngine,
    after: AudioEngine,
    outcome: Result<(), EngineError>,
)
    requires
        planned(tracks, decoder.target_sample_rate, decoder.num_channels) == Some(plan),
        before.status == loaded_status(status, plan.duration_ms),
        before.played(after, outcome),
        outcome is Ok,
    ensures
        after.messages() == before.messages().push((DecoderMessage::Play, true)),
        hungry(
            decoder.with_file(tracks, plan.track_id).with_stages(
                plan.resampler is Some && resampler_ready,
                true,
            ),
            after.status,
        ),
{
}

/// A file that is handed over to be loaded and played is played: as soon as it has been opened and
/// its decoder made, packets are read from it.
pub proof fn a_file_that_is_handed_over_is_played(
    before: AudioEngine,
    after: AudioEngine,
    path: PathBuf,
    decoder: DecoderView,
    plan: TrackPlan,
    resampler_ready: bool,
)
    requires
        loaded_and_played(before, after, path, Ok(()), Ok(())),
        decoder.tracks is Some,
    ensures
        after.status.state is Playing,
        next_action(
            decoder,
            after.status,
            DecoderEvent::Prepared { plan, resampler_ready, decoder_ready: true },
        ) is ReadPacket,
{
}

/// The resampler accepts its settings, which let the ratio stay as it is, and is given blocks of
/// the size they state.
pub proof fn the_settings_suit_the_resampler(source_rate: u32, target_rate: u32, channels: usize)
    ensures
        1000 <= high_quality(source_rate, target_rate, channels).relative_ratio_permille,
        high_quality(source_rate, target_rate, channels).chunk_frames == RESAMPLER_CHUNK,
{
}

/// A jump aims at the position that was asked for.
pub proof fn jumps_aim_at_the_requested_position(decoder: DecoderView, position_ms: u64)
    ensures
        match command_action(decoder, DecoderMessage::Seek(position_ms)) {
            CommandAction::Seek(request) => request.seconds * 1000 + request.millis == position_ms
                && request.millis < 1000 && request.track_id == decoder.current_track_id,
            CommandAction::Done => decoder.current_time_base() is None,
            CommandAction::Open(_) => false,
        },
{
}

/// The position that is shown is the time of the timestamp it was taken from.
pub proof fn the_shown_position_is_the_time_of_the_packet(base: TimeBase, timestamp: u64)
    requires
        base.wf(),
        seconds_at(base, timestamp) * 1000 <= u64::MAX,
    ensures
        padded_clock(millis_at(base, timestamp) as nat / 1000) == padded_clock(
            seconds_at(base, timestamp) as nat,
        ),
{
    vstd::arithmetic::div_mod::lemma_mod_bound(
        (timestamp * base.numer) / base.denom as int,
        0x1_0000_0000_0000_0000,
    );
}

/// The ring holds half a second of sound.
pub proof fn the_ring_holds_half_a_second(sample_rate: u32, channels: u16)
    ensures
        AudioEngineConfig::standard().spec_buffer_capacity(sample_rate, channels) == (sample_rate
            / 2) * channels,
{
    assert((sample_rate * 500) / 1000 == sample_rate as int / 2);
}

/// Samples are resampled only where the track does not have the rate of the output.
pub proof fn resampling_follows_the_rates(tracks: Seq<TrackInfo>, target_rate: u32, channels: u16)
    requires
        planned(tracks, target_rate, channels) is Some,
    ensures
        ({
            let plan = planned(tracks, target_rate, channels)->0;
            let at = chosen_track(tracks)->0;
            &&& plan.resampler is Some <==> tracks[at].source_rate() != target_rate
            &&& plan.resampler is Some ==> plan.resampler->0.source_rate
                == tracks[at].source_rate() && plan.resampler->0.target_rate == target_rate
                && plan.resampler->0.channels == channels
        }),
{
}

} // verus!
