use vstd::prelude::*;

use crate::asset::audio_loop::Balance;

verus! {

/// How a wave file is played once from its first frame to its last.
#[derive(Debug, Clone, Copy, PartialEq, Eq, Hash)]
pub struct OneShotFileSettings {
    pub balance: Balance,
}

impl Default for OneShotFileSettings {
    /// The settings of a sample played on both channels.
    fn default() -> (settings: Self)
        ensures
            settings == (OneShotFileSettings { balance: Balance::Both }),
    {
        Self { balance: Balance::Both }
    }
}

} // verus!
