use vstd::prelude::*;

verus! {

/// Reads SoundFont banks as raw bytes.
#[derive(Debug, Clone, Copy, Default)]
pub struct Sf2FileSourceLoader;

impl Sf2FileSourceLoader {
    /// The extensions of SoundFont files.
    pub open spec fn spec_file_extensions() -> Seq<Seq<char>> {
        seq!["sf2"@]
    }

    /// Returns the extensions by which a SoundFont file is known.
    pub fn file_extensions<'a>() -> (extensions: &'a [&'static str])
        ensures
            extensions@.len() == Self::spec_file_extensions().len(),
            forall|i: int|
                0 <= i < extensions@.len() ==> (#[trigger] extensions@[i])@
                    == Self::spec_file_extensions()[i],
    {
        &["sf2"]
    }
}

} // verus!
