//! The logic of the ZenAudio music player: its controls, the decisions of its decoder, the queue
//! of samples between the decoder and the output, and what it shows.

pub mod behaviour;
pub mod channel;
pub mod command;
pub mod decoder;
pub mod display;
pub mod engine;
pub mod frames;
pub mod laws;
pub mod metadata;
pub mod paths;
pub mod player;
pub mod ring;
pub mod status;
pub mod timebase;
