use vstd::prelude::*;

verus! {

/// Reads wave files as raw bytes.
#[derive(Debug, Clone, Copy, Default)]
pub struct WaveFileSourceLoader;

impl WaveFileSourceLoader {
    /// The extensions of wave files.
    pub open spec fn spec_file_extensions() -> Seq<Seq<char>> {
        seq!["wav"@]
    }

    /// Returns the extensions by which a wave file is known.
    pub fn file_extensions<'a>() -> (extensions: &'a [&'static str])
        ensures
            extensions@.len() == Self::spec_file_extensions().len(),
            forall|i: int|
                0 <= i < extensions@.len() ==> (#[trigger] extensions@[i])@
                    == Self::spec_file_extensions()[i],
    {
        &["wav"]
    }
}

} // verus!
