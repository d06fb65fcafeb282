//! The controls of the player.

use std::path::PathBuf;

use tokio::sync::mpsc::UnboundedSender;
use vstd::prelude::*;

use crate::channel::{open_channel, send, sent};
use crate::command::{after_command, commanded, DecoderMessage};
use crate::decoder::{initial_decoder, DecoderThread};
use crate::ring::SampleRing;
use crate::status::{clamp_volume, clamped_volume, PlaybackStatus, PlayerState};

verus! {

/// Why a control had no effect.
#[derive(Debug, Clone, Copy, PartialEq, Eq, Structural)]
pub enum EngineError {
    /// The decoder is gone and takes no more commands.
    DecoderGone,
}

/// How the engine is set up.
#[derive(Debug, Clone, Copy, PartialEq, Eq, Structural)]
pub struct AudioEngineConfig {
    /// How much sound the ring holds, in milliseconds.
    pub buffer_duration_ms: u32,
    /// The quality of resampling, in thousandths of the best.
    pub resampling_quality_permille: u32,
}

impl Default for AudioEngineConfig {
    /// Half a second of sound, high quality.
    fn default() -> (config: Self)
        ensures
            config == AudioEngineConfig::standard(),
    {
        AudioEngineConfig { buffer_duration_ms: 500, resampling_quality_permille: 950 }
    }
}

impl AudioEngineConfig {
    /// Half a second of sound, high quality.
    pub open spec fn standard() -> AudioEngineConfig {
        AudioEngineConfig { buffer_duration_ms: 500, resampling_quality_permille: 950 }
    }

    /// How many samples the ring holds for an output: the whole frames that fit in the duration,
    /// each with a sample for every channel.
    pub open spec fn spec_buffer_capacity(self, sample_rate: u32, channels: u16) -> int {
        (sample_rate * self.buffer_duration_ms) / 1000 * channels
    }

    /// How many samples the ring holds for an output.
    pub fn buffer_capacity(&self, sample_rate: u32, channels: u16) -> (capacity: usize)
        requires
            self.spec_buffer_capacity(sample_rate, channels) <= usize::MAX,
        ensures
            capacity == self.spec_buffer_capacity(sample_rate, channels),
    {
        let rate: u128 = sample_rate as u128;
        let duration: u128 = self.buffer_duration_ms as u128;
        let ghost millis = sample_rate * self.buffer_duration_ms;
        assert(0 <= millis <= u32::MAX * u32::MAX) by (nonlinear_arith)
            requires
                millis == sample_rate * self.buffer_duration_ms,
                0 <= sample_rate <= u32::MAX,
                0 <= self.buffer_duration_ms <= u32::MAX,
        ;
        let frames: u128 = rate * duration / 1000;
        assert(0 <= frames * channels <= u32::MAX * u32::MAX * u16::MAX) by (nonlinear_arith)
            requires
                0 <= frames <= u32::MAX * u32::MAX,
                0 <= channels <= u16::MAX,
        ;
        (frames * channels as u128) as usize
    }
}

/// The player's controls: a status that is kept up to date, and the channel to the decoder.
pub struct AudioEngine {
    pub status: PlaybackStatus,
    pub tx: UnboundedSender<DecoderMessage>,
}

/// A new engine with the decoder that obeys it and the ring between the decoder and the output.
pub struct EngineSetup {
    pub engine: AudioEngine,
    pub decoder: DecoderThread,
    pub ring: SampleRing,
}

/// Settles a command that changes the status: the new status counts only if the command was
/// delivered.
pub fn settle(status: &mut PlaybackStatus, next: PlaybackStatus, delivered: bool) -> (outcome:
    Result<(), EngineError>)
    ensures
        delivered ==> outcome is Ok && *final(status) == next,
        !delivered ==> outcome is Err && outcome->Err_0 is DecoderGone && *final(status) == *old(
            status,
        ),
{
    if delivered {
        *status = next;
        Ok(())
    } else {
        Err(EngineError::DecoderGone)
    }
}

impl AudioEngine {
    /// The commands that were handed over for the decoder, oldest first, each with whether it was
    /// delivered.
    pub open spec fn messages(self) -> Seq<(DecoderMessage, bool)> {
        sent(self.tx)
    }

    /// Whether the commands that are handed over here go to this decoder.
    pub open spec fn directs(self, decoder: DecoderThread) -> bool {
        decoder.obeys(self.tx)
    }

    /// The same decoders as before get the commands.
    pub open spec fn same_line(self, next: AudioEngine) -> bool {
        forall|decoder: DecoderThread| #[trigger]
            next.directs(decoder) == self.directs(decoder)
    }

    /// What posting a command does: the command is handed over once; if it is delivered it takes
    /// effect on the status, otherwise the status stays and the decoder is found to be gone.
    pub open spec fn posted(
        self,
        next: AudioEngine,
        message: DecoderMessage,
        outcome: Result<(), EngineError>,
    ) -> bool {
        &&& self.same_line(next)
        &&& next.messages() == self.messages().push((message, outcome is Ok))
        &&& outcome is Ok ==> next.status == commanded(self.status, message)
        &&& outcome is Err ==> outcome->Err_0 is DecoderGone && next.status == self.status
    }

    /// Nothing has changed and nothing was sent.
    pub open spec fn untouched(self, next: AudioEngine) -> bool {
        &&& self.same_line(next)
        &&& next.status == self.status
        &&& next.messages() == self.messages()
    }

    /// What playing does: nothing without a file, otherwise what posting the command does.
    pub open spec fn played(self, next: AudioEngine, outcome: Result<(), EngineError>) -> bool {
        if self.status.has_file {
            self.posted(next, DecoderMessage::Play, outcome)
        } else {
            outcome is Ok && self.untouched(next)
        }
    }

    /// An engine, the decoder that gets its commands and an empty ring, for an output with the given
    /// sample rate and number of channels. Nothing is loaded or playing, and the volume is full.
    pub fn new(sample_rate: u32, channels: u16) -> (setup: EngineSetup)
        requires
            0 < AudioEngineConfig::standard().spec_buffer_capacity(sample_rate, channels),
            AudioEngineConfig::standard().spec_buffer_capacity(sample_rate, channels) * 4
                <= isize::MAX,
        ensures
            setup.engine.status == PlaybackStatus::spec_initial(),
            setup.engine.messages().len() == 0,
            setup.decoder.answers().len() == 0,
            setup.engine.directs(setup.decoder),
            setup.decoder@ == initial_decoder(sample_rate, channels),
            setup.decoder@.wf(),
            setup.ring.wf(),
            setup.ring@ == Seq::<u32>::empty(),
            setup.ring.spec_capacity() == AudioEngineConfig::standard().spec_buffer_capacity(
                sample_rate,
                channels,
            ),
    {
        let config = AudioEngineConfig::default();
        let (tx, rx) = open_channel();
        let capacity = config.buffer_capacity(sample_rate, channels);
        EngineSetup {
            engine: AudioEngine { status: PlaybackStatus::initial(), tx },
            decoder: DecoderThread::new(rx, sample_rate, channels),
            ring: SampleRing::new(capacity),
        }
    }

    /// Sends a command and, once it is delivered, lets it take effect on the status.
    pub(crate) fn post(&mut self, message: DecoderMessage) -> (outcome: Result<(), EngineError>)
        ensures
            old(self).posted(*final(self), message, outcome),
    {
        let next = after_command(&self.status, &message);
        let delivered = send(&mut self.tx, message).is_ok();
        let outcome = settle(&mut self.status, next, delivered);
        assert forall|decoder: DecoderThread| #[trigger]
            self.directs(decoder) == old(self).directs(decoder) by {
            decoder.lemma_obeys(self.tx, old(self).tx);
        }
        outcome
    }

    /// Has the decoder load a file.
    pub fn load_file(&mut self, path: PathBuf) -> (outcome: Result<(), EngineError>)
        ensures
            old(self).posted(*final(self), DecoderMessage::LoadFile(path), outcome),
    {
        self.post(DecoderMessage::LoadFile(path))
    }

    /// Starts playing. Without a file the request is ignored.
    pub fn play(&mut self) -> (outcome: Result<(), EngineError>)
        ensures
            old(self).played(*final(self), outcome),
    {
        if !self.status.has_file {
            return Ok(());
        }
        self.post(DecoderMessage::Play)
    }

    /// Pauses playing.
    pub fn pause(&mut self) -> (outcome: Result<(), EngineError>)
        ensures
            old(self).posted(*final(self), DecoderMessage::Pause, outcome),
    {
        self.post(DecoderMessage::Pause)
    }

    /// Stops playing. The position that is shown goes back to the start.
    pub fn stop(&mut self) -> (outcome: Result<(), EngineError>)
        ensures
            old(self).posted(*final(self), DecoderMessage::Stop, outcome),
    {
        self.post(DecoderMessage::Stop)
    }

    /// Jumps to a position in milliseconds. Without a file the request is ignored.
    pub fn seek(&mut self, position_ms: u64) -> (outcome: Result<(), EngineError>)
        ensures
            old(self).status.has_file ==> old(self).posted(
                *final(self),
                DecoderMessage::Seek(position_ms),
                outcome,
            ),
            !old(self).status.has_file ==> outcome is Ok && old(self).untouched(*final(self)),
    {
        if !self.status.has_file {
            return Ok(());
        }
        self.post(DecoderMessage::Seek(position_ms))
    }

    /// Sets the volume, in thousandths of full volume. A volume out of range is brought into it.
    /// The volume counts at once, whether or not the decoder can be told.
    pub fn set_volume(&mut self, volume: i64) -> (outcome: Result<(), EngineError>)
        ensures
            old(self).same_line(*final(self)),
            final(self).status == old(self).status.with_volume(
                clamped_volume(volume as int) as u64,
            ),
            final(self).messages() == old(self).messages().push(
                (
                    DecoderMessage::SetVolume(clamped_volume(volume as int) as u64),
                    outcome is Ok,
                ),
            ),
            outcome is Err ==> outcome->Err_0 is DecoderGone,
    {
        let clamped = clamp_volume(volume);
        self.status.volume = clamped;
        self.post(DecoderMessage::SetVolume(clamped))
    }

    /// What the player is doing.
    pub fn get_state(&self) -> (state: PlayerState)
        ensures
            state == self.status.state,
    {
        self.status.state
    }

    /// The position in milliseconds.
    pub fn get_position_ms(&self) -> (position_ms: u64)
        ensures
            position_ms == self.status.position_ms,
    {
        self.status.position_ms
    }

    /// The length of the file in milliseconds.
    pub fn get_duration_ms(&self) -> (duration_ms: u64)
        ensures
            duration_ms == self.status.duration_ms,
    {
        self.status.duration_ms
    }

    /// Whether a file is loaded.
    pub fn has_file(&self) -> (has_file: bool)
        ensures
            has_file == self.status.has_file,
    {
        self.status.has_file
    }
}

} // verus!
