//! Control core of a MIDI graph audio plugin.
//!
//! The crate holds the decisions of the audio engine as verified code over
//! plain values: how an asset path is typed, how a declarative node tree is
//! checked and built into a program, how programs are stored and activated,
//! and how control messages reach the nodes of the active program. Decoding,
//! signal processing and the host engine stay with the caller.

pub mod asset;
pub mod builder;
pub mod descriptor;
pub mod envelope;
pub mod error;
pub mod first;
pub mod message;
pub mod mixer;
pub mod node;
pub mod playback;
pub mod program;
pub mod resource;
pub mod state;
pub mod voice;

pub use asset::audio_loop::{Balance, LoopFileSettings};
pub use asset::graph::MidiGraph;
pub use asset::loader::{
    AssetData, AssetEntry, AssetLoadPayload, AssetType, GraphAssetLoader, PathExtension,
};
pub use asset::midi::MidiFileSourceLoader;
pub use asset::one_shot::OneShotFileSettings;
pub use asset::sf2::Sf2FileSourceLoader;
pub use asset::wave::WaveFileSourceLoader;
pub use builder::build;
pub use descriptor::{LoopRange, NodeDescriptor, NodeKind};
pub use envelope::{EnvelopeClock, EnvelopePhase};
pub use error::{AssetError, ConfigError, Error, UnresolvedAssetError};
pub use message::ControlMessage;
pub use mixer::Mixer;
pub use node::{Node, NodeOp, NodeState};
pub use playback::LoopCursor;
pub use program::{ControlChannel, Program};
pub use resource::{LoadingStep, MidiGraphAudioContext};
pub use state::AudioContextState;
pub use voice::VoicePool;
