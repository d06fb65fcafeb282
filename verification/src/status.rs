//! What the player is doing, as the user sees it.

use vstd::prelude::*;

verus! {

/// What the player is doing.
#[derive(Debug, Clone, Copy, PartialEq, Eq, Structural)]
pub enum PlayerState {
    Stopped,
    Playing,
    Paused,
}

/// Full volume, in thousandths.
pub const FULL_VOLUME: u64 = 1000;

impl PlayerState {
    /// The number that stands for a state in shared memory.
    pub open spec fn spec_code(self) -> u64 {
        match self {
            PlayerState::Stopped => 0,
            PlayerState::Playing => 1,
            PlayerState::Paused => 2,
        }
    }

    /// The state that a number stands for; a number that stands for none means stopped.
    pub open spec fn of_code(code: u64) -> PlayerState {
        if code == 1 {
            PlayerState::Playing
        } else if code == 2 {
            PlayerState::Paused
        } else {
            PlayerState::Stopped
        }
    }

    /// The number that stands for this state in shared memory.
    pub fn code(self) -> (code: u64)
        ensures
            code == self.spec_code(),
    {
        match self {
            PlayerState::Stopped => 0,
            PlayerState::Playing => 1,
            PlayerState::Paused => 2,
        }
    }

    /// The state that a number stands for; a number that stands for none means stopped.
    pub fn from_code(code: u64) -> (state: PlayerState)
        ensures
            state == PlayerState::of_code(code),
    {
        match code {
            0 => PlayerState::Stopped,
            1 => PlayerState::Playing,
            2 => PlayerState::Paused,
            _ => PlayerState::Stopped,
        }
    }
}

/// What the controls, the decoder and the audio callback share.
#[derive(Debug, Clone, Copy, PartialEq, Eq, Structural)]
pub struct PlaybackStatus {
    pub state: PlayerState,
    /// The volume in thousandths of full volume.
    pub volume: u64,
    pub position_ms: u64,
    pub duration_ms: u64,
    pub has_file: bool,
}

impl PlaybackStatus {
    /// The volume is at most full volume.
    pub open spec fn wf(self) -> bool {
        self.volume <= FULL_VOLUME
    }

    /// Nothing loaded, nothing playing, full volume.
    pub open spec fn spec_initial() -> PlaybackStatus {
        PlaybackStatus {
            state: PlayerState::Stopped,
            volume: FULL_VOLUME,
            position_ms: 0,
            duration_ms: 0,
            has_file: false,
        }
    }

    pub open spec fn with_state(self, state: PlayerState) -> PlaybackStatus {
        PlaybackStatus { state, ..self }
    }

    pub open spec fn with_volume(self, volume: u64) -> PlaybackStatus {
        PlaybackStatus { volume, ..self }
    }

    pub open spec fn with_position(self, position_ms: u64) -> PlaybackStatus {
        PlaybackStatus { position_ms, ..self }
    }

    pub open spec fn with_duration(self, duration_ms: u64) -> PlaybackStatus {
        PlaybackStatus { duration_ms, ..self }
    }

    pub open spec fn with_file(self, has_file: bool) -> PlaybackStatus {
        PlaybackStatus { has_file, ..self }
    }

    /// Nothing loaded, nothing playing, full volume.
    pub fn initial() -> (status: PlaybackStatus)
        ensures
            status == PlaybackStatus::spec_initial(),
    {
        PlaybackStatus {
            state: PlayerState::Stopped,
            volume: FULL_VOLUME,
            position_ms: 0,
            duration_ms: 0,
            has_file: false,
        }
    }
}

/// A volume, in thousandths, brought into the range from silent to full.
pub open spec fn clamped_volume(volume: int) -> int {
    if volume < 0 {
        0
    } else if volume > FULL_VOLUME {
        FULL_VOLUME as int
    } else {
        volume
    }
}

/// Brings a volume, in thousandths, into the range from silent to full.
pub fn clamp_volume(volume: i64) -> (clamped: u64)
    ensures
        clamped == clamped_volume(volume as int),
{
    if volume < 0 {
        0
    } else if volume > FULL_VOLUME as i64 {
        FULL_VOLUME
    } else {
        volume as u64
    }
}

/// A state survives being stored as a number and read back.
pub proof fn state_codes_round_trip(state: PlayerState)
    ensures
        PlayerState::of_code(state.spec_code()) == state,
{
}

/// Clamping keeps a volume that is in range and the order of volumes, and never leaves the range.
pub proof fn volume_clamping(a: int, b: int)
    requires
        a <= b,
    ensures
        0 <= clamped_volume(a) <= clamped_volume(b) <= FULL_VOLUME,
        0 <= a <= FULL_VOLUME ==> clamped_volume(a) == a,
        clamped_volume(clamped_volume(a)) == clamped_volume(a),
{
}

} // verus!
