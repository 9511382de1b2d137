use vstd::prelude::*;

use crate::descriptor::LoopRange;

verus! {

/// The channels of the output that a sample is played on.
#[derive(Debug, Clone, Copy, PartialEq, Eq, Hash, Structural)]
pub enum Balance {
    Left,
    Right,
    Both,
}

/// How a wave file is played as a loop.
#[derive(Debug, Clone, Copy, PartialEq, Eq, Hash)]
pub struct LoopFileSettings {
    /// The note at which the sample sounds as it was recorded.
    pub source_note: u8,
    /// The first frame of the loop and the frame behind its last.
    pub loop_range: Option<(usize, usize)>,
    pub balance: Balance,
}

impl Default for LoopFileSettings {
    /// The settings of a sample recorded at the A above middle C, played
    /// once and on both channels.
    fn default() -> (settings: Self)
        ensures
            settings == (LoopFileSettings {
                source_note: 69,
                loop_range: None,
                balance: Balance::Both,
            }),
    {
        Self { source_note: 69, loop_range: None, balance: Balance::Both }
    }
}

impl LoopFileSettings {
    /// The loop range of the settings as a range of frames.
    pub open spec fn spec_frame_range(self) -> Option<LoopRange> {
        match self.loop_range {
            Some((start, end)) => Some(LoopRange { start, end }),
            None => None,
        }
    }

    /// Returns the loop range of the settings as a range of frames.
    pub fn frame_range(&self) -> (range: Option<LoopRange>)
        ensures
            range == self.spec_frame_range(),
    {
        match self.loop_range {
            Some((start, end)) => Some(LoopRange::new_frame_range(start, end)),
            None => None,
        }
    }
}

} // verus!
