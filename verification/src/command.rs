//! The commands that go from the controls to the decoder, and what they do to the status.

use std::path::PathBuf;

use vstd::prelude::*;

use crate::status::{PlaybackStatus, PlayerState};

verus! {

/// A command to the decoder.
#[derive(Debug)]
pub enum DecoderMessage {
    LoadFile(PathBuf),
    Play,
    Pause,
    Stop,
    /// The target in milliseconds.
    Seek(u64),
    /// The volume in thousandths.
    SetVolume(u64),
}

/// The status once a command has taken effect. Loading and seeking report their effect later, and
/// the volume is set without the decoder.
pub open spec fn commanded(status: PlaybackStatus, message: DecoderMessage) -> PlaybackStatus {
    match message {
        DecoderMessage::Play => status.with_state(PlayerState::Playing),
        DecoderMessage::Pause => status.with_state(PlayerState::Paused),
        DecoderMessage::Stop => status.with_state(PlayerState::Stopped).with_position(0),
        DecoderMessage::LoadFile(_) => status,
        DecoderMessage::Seek(_) => status,
        DecoderMessage::SetVolume(_) => status,
    }
}

/// The status once a command has taken effect.
pub fn after_command(status: &PlaybackStatus, message: &DecoderMessage) -> (next: PlaybackStatus)
    ensures
        next == commanded(*status, *message),
{
    let mut next = *status;
    match message {
        DecoderMessage::Play => {
            next.state = PlayerState::Playing;
        },
        DecoderMessage::Pause => {
            next.state = PlayerState::Paused;
        },
        DecoderMessage::Stop => {
            next.state = PlayerState::Stopped;
            next.position_ms = 0;
        },
        _ => {},
    }
    next
}

} // verus!
