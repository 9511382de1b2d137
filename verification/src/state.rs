use vstd::prelude::*;

verus! {

/// Where the audio context stands between two frames of the host.
#[derive(Debug, Clone, Copy, PartialEq, Eq, Hash, Structural)]
pub enum AudioContextState {
    /// No program has been asked for yet.
    Idle,
    /// A program was asked for and its assets are still being read.
    Loading,
    /// The graph of the requested program has been read: the program has
    /// been handed to the mixer, or its build has failed and was reported.
    Running,
}

} // verus!
