use vstd::prelude::*;

verus! {

/// Reads standard MIDI files as raw bytes.
#[derive(Debug, Clone, Copy, Default)]
pub struct MidiFileSourceLoader;

impl MidiFileSourceLoader {
    /// The extensions of standard MIDI files.
    pub open spec fn spec_file_extensions() -> Seq<Seq<char>> {
        seq!["mid"@, "midi"@, "smf"@]
    }

    /// Returns the extensions by which a standard MIDI file is known.
    pub fn file_extensions<'a>() -> (extensions: &'a [&'static str])
        ensures
            extensions@.len() == Self::spec_file_extensions().len(),
            forall|i: int|
                0 <= i < extensions@.len() ==> (#[trigger] extensions@[i])@
                    == Self::spec_file_extensions()[i],
    {
        &["mid", "midi", "smf"]
    }
}

} // verus!
