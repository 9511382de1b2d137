use vstd::prelude::*;

verus! {

/// What a caller can ask of a node of the program that is playing.
#[derive(Debug, Clone, Copy, PartialEq, Eq, Hash)]
pub enum ControlMessage {
    /// Start a note.
    NoteOn { note: u8, velocity: u8 },
    /// Let a note go.
    NoteOff { note: u8 },
    /// Go on at the frame `target` once the loop that is playing has come to
    /// its end, and not before.
    SeekWhenIdeal { target: usize },
}

} // verus!
