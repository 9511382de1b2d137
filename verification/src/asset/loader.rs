use vstd::prelude::*;

use crate::asset::midi::MidiFileSourceLoader;
use crate::asset::sf2::Sf2FileSourceLoader;
use crate::asset::wave::WaveFileSourceLoader;
use crate::error::{ConfigError, Error, UnresolvedAssetError};

verus! {

/// The kinds of external data a node of the graph can refer to.
#[derive(Debug, Clone, Copy, PartialEq, Eq, Hash, Structural)]
pub enum AssetType {
    /// A standard MIDI file.
    Midi,
    /// A SoundFont bank.
    SoundFont,
    /// A wave file.
    Wave,
}

/// What reading the extension of a path came to.
#[derive(Debug, PartialEq, Eq)]
pub enum PathExtension {
    /// The path has no extension.
    Missing,
    /// The path has an extension that is not valid Unicode.
    Unreadable,
    /// The extension, without its leading dot.
    Found(String),
}

/// The place behind the last `mark` in `text`, and 0 where `text` holds
/// none.
pub open spec fn after_last(text: Seq<char>, mark: char) -> int
    decreases text.len(),
{
    if text.len() == 0 {
        0
    } else if text.last() == mark {
        text.len() as int
    } else {
        after_last(text.drop_last(), mark)
    }
}

/// The last part of a path whose parts are parted by `/`.
pub open spec fn file_name(path: Seq<char>) -> Seq<char> {
    path.skip(after_last(path, '/'))
}

/// Whether `path` is a path whose file name is the same on every platform:
/// the parts of the path are parted by `/`, the path holds neither `\` nor
/// `:`, it does not start at the root, and its last part is a name, neither
/// empty nor `.`. The empty path is simple too.
pub open spec fn simple_path(path: Seq<char>) -> bool {
    &&& forall|i: int| 0 <= i < path.len() ==> (#[trigger] path[i]) != '\\' && path[i] != ':'
    &&& path.len() > 0 ==> {
        &&& path[0] != '/'
        &&& file_name(path).len() > 0
        &&& file_name(path) != seq!['.']
    }
}

/// The extension of a simple path: what stands behind the last dot of its
/// file name. A name without a dot has none, nor has a name whose only dot
/// is its first letter, nor has `..`.
pub open spec fn spec_extension(path: Seq<char>) -> Option<Seq<char>> {
    let name = file_name(path);
    let cut = after_last(name, '.');
    if name == seq!['.', '.'] || cut <= 1 {
        None
    } else {
        Some(name.skip(cut))
    }
}

/// Whether the reading `found` says that the extension is `extension`.
pub open spec fn reads_as(found: PathExtension, extension: Option<Seq<char>>) -> bool {
    match found {
        PathExtension::Missing => extension is None,
        PathExtension::Unreadable => false,
        PathExtension::Found(text) => extension == Some(text@),
    }
}

/// Reads the extension of `path` with [`std::path::Path::extension`].
///
/// Trusted: the extension of a path that is valid Unicode is valid Unicode,
/// so the reading is never [`PathExtension::Unreadable`]. Of a simple path
/// the file name is the last part, and the extension is what stands behind
/// the last dot of the file name, unless the name has no dot, has its only
/// dot in front, or is `..`. Of any other path nothing more is claimed, as
/// its file name is cut out by the rules of the platform.
#[verifier::external_body]
fn path_extension(path: &str) -> (found: PathExtension)
    ensures
        !(found is Unreadable),
        simple_path(path@) ==> reads_as(found, spec_extension(path@)),
{
    match std::path::Path::new(path).extension() {
        None => PathExtension::Missing,
        Some(extension) => match extension.to_str() {
            None => PathExtension::Unreadable,
            Some(extension) => PathExtension::Found(extension.to_owned()),
        },
    }
}

/// The asset type that an extension stands for, if any.
pub open spec fn spec_asset_type(extension: Seq<char>) -> Option<AssetType> {
    if MidiFileSourceLoader::spec_file_extensions().contains(extension) {
        Some(AssetType::Midi)
    } else if Sf2FileSourceLoader::spec_file_extensions().contains(extension) {
        Some(AssetType::SoundFont)
    } else if WaveFileSourceLoader::spec_file_extensions().contains(extension) {
        Some(AssetType::Wave)
    } else {
        None
    }
}

/// The asset type, or the error, that the reading of an extension leads to.
pub open spec fn spec_classify(found: PathExtension) -> Result<AssetType, Error> {
    match found {
        PathExtension::Missing => Err(Error::Config(ConfigError::CannotParseAssetPath)),
        PathExtension::Unreadable => Err(Error::Config(ConfigError::CannotReadAssetExtension)),
        PathExtension::Found(extension) => match spec_asset_type(extension@) {
            Some(asset_type) => Ok(asset_type),
            None => Err(Error::Config(ConfigError::UnknownAssetType)),
        },
    }
}

/// The type of the asset at a simple `path`, told by the extension of the
/// path; or the error that tells why it has none: a path without extension
/// cannot be parsed, and an extension may be unknown.
pub open spec fn spec_infer(path: Seq<char>) -> Result<AssetType, Error> {
    match spec_extension(path) {
        None => Err(Error::Config(ConfigError::CannotParseAssetPath)),
        Some(extension) => match spec_asset_type(extension) {
            Some(asset_type) => Ok(asset_type),
            None => Err(Error::Config(ConfigError::UnknownAssetType)),
        },
    }
}

/// Whether `typed` is what some reading of an extension leads to, the
/// reading being readable.
pub open spec fn told_by_a_reading(typed: Result<AssetType, Error>) -> bool {
    exists|found: PathExtension| !(found is Unreadable) && typed == #[trigger] spec_classify(found)
}

/// Tells whether `extension` is one of `known`, compared letter by letter.
fn is_listed(known: &[&'static str], extension: &String) -> (listed: bool)
    ensures
        listed == exists|i: int| 0 <= i < known@.len() && (#[trigger] known@[i])@ == extension@,
{
    let mut i: usize = 0;
    while i < known.len()
        invariant
            i <= known@.len(),
            forall|j: int| 0 <= j < i ==> (#[trigger] known@[j])@ != extension@,
        decreases known@.len() - i,
    {
        let candidate: String = known[i].to_owned();
        if candidate == *extension {
            return true;
        }
        i = i + 1;
    }
    false
}

/// A list whose items read as `texts` holds an item that reads as `text`
/// exactly when `texts` contains `text`.
proof fn lemma_listed_is_contained(known: Seq<&'static str>, texts: Seq<Seq<char>>, text: Seq<char>)
    requires
        known.len() == texts.len(),
        forall|i: int| 0 <= i < known.len() ==> (#[trigger] known[i])@ == texts[i],
    ensures
        (exists|i: int| 0 <= i < known.len() && (#[trigger] known[i])@ == text) == texts.contains(
            text,
        ),
{
    if texts.contains(text) {
        let i = choose|i: int| 0 <= i < texts.len() && texts[i] == text;
        assert(known[i]@ == text);
    }
    if exists|i: int| 0 <= i < known.len() && (#[trigger] known[i])@ == text {
        let i = choose|i: int| 0 <= i < known.len() && (#[trigger] known[i])@ == text;
        assert(texts[i] == text);
    }
}

/// Returns the asset type that `extension` stands for: MIDI before SoundFont
/// before wave, `None` where no list holds it.
pub fn asset_type_of_extension(extension: &String) -> (asset_type: Option<AssetType>)
    ensures
        asset_type == spec_asset_type(extension@),
{
    let midi = MidiFileSourceLoader::file_extensions();
    let sf2 = Sf2FileSourceLoader::file_extensions();
    let wave = WaveFileSourceLoader::file_extensions();
    proof {
        lemma_listed_is_contained(midi@, MidiFileSourceLoader::spec_file_extensions(), extension@);
        lemma_listed_is_contained(sf2@, Sf2FileSourceLoader::spec_file_extensions(), extension@);
        lemma_listed_is_contained(wave@, WaveFileSourceLoader::spec_file_extensions(), extension@);
    }
    if is_listed(midi, extension) {
        Some(AssetType::Midi)
    } else if is_listed(sf2, extension) {
        Some(AssetType::SoundFont)
    } else if is_listed(wave, extension) {
        Some(AssetType::Wave)
    } else {
        None
    }
}

/// Turns the reading of an extension into an asset type or into the error
/// that tells why there is none.
pub fn classify_extension(found: &PathExtension) -> (result: Result<AssetType, Error>)
    ensures
        result == spec_classify(*found),
{
    match found {
        PathExtension::Missing => Err(Error::Config(ConfigError::CannotParseAssetPath)),
        PathExtension::Unreadable => Err(Error::Config(ConfigError::CannotReadAssetExtension)),
        PathExtension::Found(extension) => match asset_type_of_extension(extension) {
            Some(asset_type) => Ok(asset_type),
            None => Err(Error::Config(ConfigError::UnknownAssetType)),
        },
    }
}

/// What the host holds of one asset at the moment the snapshot is taken.
#[derive(Debug, PartialEq, Eq)]
pub enum AssetData {
    /// The asset is known to the host and its data has not arrived.
    Pending,
    /// The data arrived, and the lock that guards it is poisoned.
    Poisoned,
    /// The bytes of the asset.
    Ready(Vec<u8>),
}

/// One asset of the host, under the path it was asked for.
///
/// `instruments` is the number of instruments that the host found when it
/// decoded the asset: that of a SoundFont bank, and 0 for any other asset.
#[derive(Debug, PartialEq, Eq)]
pub struct AssetEntry {
    pub path: String,
    pub data: AssetData,
    pub instruments: usize,
}

/// What the loader hands to the graph builder for one asset.
#[derive(Debug, PartialEq, Eq)]
pub enum AssetLoadPayload {
    /// The bytes of the asset as they were read.
    RawAssetData(Vec<u8>),
}

/// The first entry that is held under `path`.
pub open spec fn spec_lookup(entries: Seq<AssetEntry>, path: Seq<char>) -> Option<AssetEntry>
    decreases entries.len(),
{
    if entries.len() == 0 {
        None
    } else if entries[0].path@ == path {
        Some(entries[0])
    } else {
        spec_lookup(entries.drop_first(), path)
    }
}

/// The answer of the loader for what the host holds of an asset.
pub open spec fn spec_answer(held: Option<AssetEntry>) -> Result<Seq<u8>, Error> {
    match held {
        None => Err(Error::UnresolvedAsset(UnresolvedAssetError::NotStarted)),
        Some(entry) => match entry.data {
            AssetData::Pending => Err(Error::UnresolvedAsset(UnresolvedAssetError::NotFinished)),
            AssetData::Poisoned => Err(Error::Duplication),
            AssetData::Ready(bytes) => Ok(bytes@),
        },
    }
}

/// The bytes of a payload, or the error in its place.
pub open spec fn payload_bytes(result: Result<AssetLoadPayload, Error>) -> Result<Seq<u8>, Error> {
    match result {
        Ok(AssetLoadPayload::RawAssetData(bytes)) => Ok(bytes@),
        Err(error) => Err(error),
    }
}

/// Supplies the graph builder with the data of the assets that the host has
/// read, each kept with the assets of its type.
#[derive(Debug, PartialEq, Eq)]
pub struct GraphAssetLoader {
    pub midi_assets: Vec<AssetEntry>,
    pub sf2_assets: Vec<AssetEntry>,
    pub wave_assets: Vec<AssetEntry>,
}

/// Finds the first of `entries` that is held under `path`.
fn lookup<'a>(entries: &'a Vec<AssetEntry>, path: &str) -> (held: Option<&'a AssetEntry>)
    ensures
        match held {
            Some(entry) => spec_lookup(entries@, path@) == Some(*entry),
            None => spec_lookup(entries@, path@) is None,
        },
{
    let wanted: String = path.to_owned();
    let mut i: usize = 0;
    assert(entries@.skip(0) == entries@);
    while i < entries.len()
        invariant
            i <= entries@.len(),
            wanted@ == path@,
            spec_lookup(entries@, path@) == spec_lookup(entries@.skip(i as int), path@),
        decreases entries@.len() - i,
    {
        assert(entries@.skip(i as int)[0] == entries@[i as int]);
        assert(entries@.skip(i as int).drop_first() == entries@.skip(i + 1));
        if entries[i].path == wanted {
            return Some(&entries[i]);
        }
        i = i + 1;
    }
    None
}

impl GraphAssetLoader {
    /// Makes a loader over the assets that the host holds, by type.
    pub fn new(
        midi_assets: Vec<AssetEntry>,
        sf2_assets: Vec<AssetEntry>,
        wave_assets: Vec<AssetEntry>,
    ) -> (loader: Self)
        ensures
            loader.midi_assets == midi_assets,
            loader.sf2_assets == sf2_assets,
            loader.wave_assets == wave_assets,
    {
        Self { midi_assets, sf2_assets, wave_assets }
    }

    /// The entries that hold the assets of one type.
    pub open spec fn entries(self, asset_type: AssetType) -> Seq<AssetEntry> {
        match asset_type {
            AssetType::Midi => self.midi_assets@,
            AssetType::SoundFont => self.sf2_assets@,
            AssetType::Wave => self.wave_assets@,
        }
    }

    /// The answer for `path` among the assets of one type.
    pub open spec fn spec_load_typed(self, asset_type: AssetType, path: Seq<char>) -> Result<
        Seq<u8>,
        Error,
    > {
        spec_answer(spec_lookup(self.entries(asset_type), path))
    }

    /// The answer for `path` once its type is told, or once it is told why
    /// it has none.
    pub open spec fn spec_load(self, typed: Result<AssetType, Error>, path: Seq<char>) -> Result<
        Seq<u8>,
        Error,
    > {
        match typed {
            Ok(asset_type) => self.spec_load_typed(asset_type, path),
            Err(error) => Err(error),
        }
    }

    /// The answer for a simple `path`: the error that tells why the path
    /// has no type, or else the answer among the assets of the type that
    /// the extension of the path tells.
    pub open spec fn spec_load_asset_data(self, path: Seq<char>) -> Result<Seq<u8>, Error> {
        self.spec_load(spec_infer(path), path)
    }

    /// The number of instruments of the bank that is held under `path`, and
    /// 0 where no bank is.
    pub open spec fn spec_instruments(self, path: Seq<char>) -> nat {
        match spec_lookup(self.sf2_assets@, path) {
            Some(entry) => entry.instruments as nat,
            None => 0,
        }
    }

    /// Tells the type of an asset by the extension of its path, which the
    /// standard library reads.
    ///
    /// Of a simple path the result is fixed: see [`simple_path`]. Of any
    /// other path it is what [`classify_extension`] makes of the reading
    /// that came back.
    pub fn infer_asset_type(asset_path: &str) -> (result: Result<AssetType, Error>)
        ensures
            simple_path(asset_path@) ==> result == spec_infer(asset_path@),
            told_by_a_reading(result),
    {
        let found = path_extension(asset_path);
        let result = classify_extension(&found);
        assert(result == spec_classify(found));
        result
    }

    /// Hands out a copy of the bytes held under `path` among the assets of
    /// `asset_type`.
    ///
    /// Fails where the host was never asked for the asset, where its data has
    /// not arrived, and where the data cannot be copied out.
    pub fn load_typed(&self, asset_type: AssetType, path: &str) -> (result: Result<
        AssetLoadPayload,
        Error,
    >)
        ensures
            payload_bytes(result) == self.spec_load_typed(asset_type, path@),
    {
        let entries = match asset_type {
            AssetType::Midi => &self.midi_assets,
            AssetType::SoundFont => &self.sf2_assets,
            AssetType::Wave => &self.wave_assets,
        };
        match lookup(entries, path) {
            None => Err(Error::UnresolvedAsset(UnresolvedAssetError::NotStarted)),
            Some(entry) => match &entry.data {
                AssetData::Pending => Err(Error::UnresolvedAsset(UnresolvedAssetError::NotFinished)),
                AssetData::Poisoned => Err(Error::Duplication),
                AssetData::Ready(bytes) => {
                    let copy = bytes.clone();
                    assert(copy@ =~= bytes@);
                    Ok(AssetLoadPayload::RawAssetData(copy))
                },
            },
        }
    }

    /// Hands out a copy of the bytes of the asset at `path`, looked for among
    /// the assets of the type that the extension of the path tells.
    ///
    /// Fails with the error of [`Self::infer_asset_type`] where the path has
    /// no type, and as [`Self::load_typed`] does otherwise. Of a simple path
    /// the result is fixed; of any other it goes by the type that was told.
    pub fn load_asset_data(&self, path: &str) -> (result: Result<AssetLoadPayload, Error>)
        ensures
            simple_path(path@) ==> payload_bytes(result) == self.spec_load_asset_data(path@),
            exists|typed: Result<AssetType, Error>|
                told_by_a_reading(typed) && payload_bytes(result) == #[trigger] self.spec_load(
                    typed,
                    path@,
                ),
    {
        let typed = Self::infer_asset_type(path);
        let result = match typed {
            Err(error) => Err(error),
            Ok(asset_type) => self.load_typed(asset_type, path),
        };
        assert(payload_bytes(result) == self.spec_load(typed, path@));
        result
    }

    /// Returns the number of instruments of the bank that is held under
    /// `path`, and 0 where no bank is.
    pub fn instruments(&self, path: &str) -> (count: usize)
        ensures
            count == self.spec_instruments(path@),
    {
        match lookup(&self.sf2_assets, path) {
            Some(entry) => entry.instruments,
            None => 0,
        }
    }
}

} // verus!
