use vstd::prelude::*;

verus! {

/// A descriptor that can never be built, however long the caller waits.
#[derive(Debug, Clone, Copy, PartialEq, Eq, Hash, Structural)]
pub enum ConfigError {
    /// The asset path has no extension to tell its type by.
    CannotParseAssetPath,
    /// The extension of the asset path is not valid Unicode.
    CannotReadAssetExtension,
    /// The extension of the asset path belongs to no known asset type.
    UnknownAssetType,
    /// A node that plays external data names no asset path.
    MissingAssetPath,
    /// A node that plays no external data names an asset path.
    UnexpectedAssetPath,
    /// The node has a number of children that its kind does not take.
    WrongChildCount,
    /// A polyphonic wrapper or an instrument is given no voice at all.
    ZeroVoices,
    /// A loop range that does not end after it starts.
    EmptyLoopRange,
    /// An event receiver has no identifier to be addressed by.
    MissingNodeId,
    /// Two event receivers of one tree share an identifier.
    DuplicateNodeId,
    /// The asset that a node names is not of the type that the node plays.
    WrongAssetType,
    /// The bank that an instrument names has no instrument of that index.
    UnknownInstrument,
}

/// Why the data behind an asset path is not there yet.
#[derive(Debug, Clone, Copy, PartialEq, Eq, Hash, Structural)]
pub enum UnresolvedAssetError {
    /// Nobody has asked the host to read the asset.
    NotStarted,
    /// The host is still reading the asset.
    NotFinished,
}

/// Every failure the control path reports to its caller.
#[derive(Debug, Clone, Copy, PartialEq, Eq, Hash, Structural)]
pub enum Error {
    /// The descriptor is malformed: fatal to that build.
    Config(ConfigError),
    /// Referenced data is not available; the caller may try again later.
    UnresolvedAsset(UnresolvedAssetError),
    /// The data of an asset cannot be copied out safely.
    Duplication,
    /// No program is stored under the given number.
    NotFound(usize),
    /// The active program has no control channel with the given identifier.
    UnknownNode(u64),
    /// The loading state was checked while no program was being loaded.
    NoLoadingProgram,
}

impl Error {
    /// The text of the error with the path of the asset that it is about.
    pub open spec fn spec_message_for(self, path: Seq<char>) -> Seq<char> {
        self.spec_message() + ": "@ + path
    }

    /// Returns the text of the error, a colon, and the path of the asset that
    /// the error is about.
    pub fn message_for(&self, path: &str) -> (text: String)
        ensures
            text@ == self.spec_message_for(path@),
    {
        let mut text = self.message().to_owned();
        text.append(": ");
        text.append(path);
        text
    }

    /// The text of the error, one fixed sentence per variant.
    pub open spec fn spec_message(self) -> Seq<char> {
        match self {
            Error::Config(ConfigError::CannotParseAssetPath) => "Cannot parse asset path"@,
            Error::Config(ConfigError::CannotReadAssetExtension) => "Cannot read asset extension"@,
            Error::Config(ConfigError::UnknownAssetType) => "Unknown asset type"@,
            Error::Config(ConfigError::MissingAssetPath) => "Node names no asset path"@,
            Error::Config(ConfigError::UnexpectedAssetPath) => "Node takes no asset path"@,
            Error::Config(ConfigError::WrongChildCount) => "Node has the wrong number of children"@,
            Error::Config(ConfigError::ZeroVoices) => "Node is given no voice"@,
            Error::Config(ConfigError::EmptyLoopRange) => "Loop range is empty"@,
            Error::Config(ConfigError::MissingNodeId) => "Event receiver has no node id"@,
            Error::Config(ConfigError::DuplicateNodeId) => "Node id is used twice"@,
            Error::Config(ConfigError::WrongAssetType) => "Asset is not of the type the node plays"@,
            Error::Config(ConfigError::UnknownInstrument) => "Unknown instrument index"@,
            Error::UnresolvedAsset(UnresolvedAssetError::NotStarted) => "Asset has not started loading"@,
            Error::UnresolvedAsset(UnresolvedAssetError::NotFinished) => "Asset not finished loading"@,
            Error::Duplication => "Error locking asset data"@,
            Error::NotFound(_) => "No program is stored under that number"@,
            Error::UnknownNode(_) => "No control channel for that node id"@,
            Error::NoLoadingProgram => "Internal error: checking loading state with no asset"@,
        }
    }

    /// Returns the text of the error.
    pub fn message(&self) -> (text: &'static str)
        ensures
            text@ == self.spec_message(),
    {
        match self {
            Error::Config(ConfigError::CannotParseAssetPath) => "Cannot parse asset path",
            Error::Config(ConfigError::CannotReadAssetExtension) => "Cannot read asset extension",
            Error::Config(ConfigError::UnknownAssetType) => "Unknown asset type",
            Error::Config(ConfigError::MissingAssetPath) => "Node names no asset path",
            Error::Config(ConfigError::UnexpectedAssetPath) => "Node takes no asset path",
            Error::Config(ConfigError::WrongChildCount) => "Node has the wrong number of children",
            Error::Config(ConfigError::ZeroVoices) => "Node is given no voice",
            Error::Config(ConfigError::EmptyLoopRange) => "Loop range is empty",
            Error::Config(ConfigError::MissingNodeId) => "Event receiver has no node id",
            Error::Config(ConfigError::DuplicateNodeId) => "Node id is used twice",
            Error::Config(ConfigError::WrongAssetType) => "Asset is not of the type the node plays",
            Error::Config(ConfigError::UnknownInstrument) => "Unknown instrument index",
            Error::UnresolvedAsset(UnresolvedAssetError::NotStarted) => "Asset has not started loading",
            Error::UnresolvedAsset(UnresolvedAssetError::NotFinished) => "Asset not finished loading",
            Error::Duplication => "Error locking asset data",
            Error::NotFound(_) => "No program is stored under that number",
            Error::UnknownNode(_) => "No control channel for that node id",
            Error::NoLoadingProgram => "Internal error: checking loading state with no asset",
        }
    }
}

/// Whether a step succeeded, without what it made.
pub open spec fn outcome<T>(result: Result<T, Error>) -> Result<(), Error> {
    match result {
        Ok(_) => Ok(()),
        Err(error) => Err(error),
    }
}

/// An error met while an asset is prepared for the host.
#[derive(Debug, Clone, Copy, PartialEq, Eq, Hash, Structural)]
pub struct AssetError(pub Error);

impl AssetError {
    /// Returns the text of the wrapped error.
    pub fn message(&self) -> (text: &'static str)
        ensures
            text@ == self.0.spec_message(),
    {
        self.0.message()
    }
}

} // verus!
