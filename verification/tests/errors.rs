use bevy_midi_graph::{
    AssetError, Balance, ConfigError, Error, LoopFileSettings, LoopRange, OneShotFileSettings,
    UnresolvedAssetError,
};

#[test]
fn every_error_has_its_text() {
    let texts = [
        (Error::Config(ConfigError::CannotParseAssetPath), "Cannot parse asset path"),
        (Error::Config(ConfigError::CannotReadAssetExtension), "Cannot read asset extension"),
        (Error::Config(ConfigError::UnknownAssetType), "Unknown asset type"),
        (Error::Config(ConfigError::MissingAssetPath), "Node names no asset path"),
        (Error::Config(ConfigError::UnexpectedAssetPath), "Node takes no asset path"),
        (Error::Config(ConfigError::WrongChildCount), "Node has the wrong number of children"),
        (Error::Config(ConfigError::ZeroVoices), "Node is given no voice"),
        (Error::Config(ConfigError::EmptyLoopRange), "Loop range is empty"),
        (Error::Config(ConfigError::MissingNodeId), "Event receiver has no node id"),
        (Error::Config(ConfigError::DuplicateNodeId), "Node id is used twice"),
        (Error::Config(ConfigError::WrongAssetType), "Asset is not of the type the node plays"),
        (Error::Config(ConfigError::UnknownInstrument), "Unknown instrument index"),
        (
            Error::UnresolvedAsset(UnresolvedAssetError::NotStarted),
            "Asset has not started loading",
        ),
        (Error::UnresolvedAsset(UnresolvedAssetError::NotFinished), "Asset not finished loading"),
        (Error::Duplication, "Error locking asset data"),
        (Error::NotFound(3), "No program is stored under that number"),
        (Error::UnknownNode(101), "No control channel for that node id"),
        (Error::NoLoadingProgram, "Internal error: checking loading state with no asset"),
    ];
    for (error, text) in texts {
        assert_eq!(error.message(), text);
        assert_eq!(AssetError(error).message(), text);
    }
}

#[test]
fn asset_error_wraps_its_error() {
    assert_eq!(AssetError(Error::Duplication).0, Error::Duplication);
    assert_ne!(AssetError(Error::NotFound(1)), AssetError(Error::NotFound(2)));
}

#[test]
fn loop_file_settings_default() {
    let settings = LoopFileSettings::default();
    assert_eq!(
        settings,
        LoopFileSettings { source_note: 69, loop_range: None, balance: Balance::Both }
    );
    assert_eq!(settings.frame_range(), None);
}

#[test]
fn loop_file_settings_frame_range() {
    let settings =
        LoopFileSettings { source_note: 60, loop_range: Some((10, 4410)), balance: Balance::Left };
    assert_eq!(settings.frame_range(), Some(LoopRange { start: 10, end: 4410 }));
}

#[test]
fn one_shot_file_settings_default() {
    assert_eq!(OneShotFileSettings::default(), OneShotFileSettings { balance: Balance::Both });
}

#[test]
fn error_text_names_the_asset() {
    let error = Error::Config(ConfigError::UnknownAssetType);
    assert_eq!(error.message_for("notes.amid"), "Unknown asset type: notes.amid");
    assert_eq!(
        Error::UnresolvedAsset(UnresolvedAssetError::NotStarted).message_for("demo/kick.wav"),
        "Asset has not started loading: demo/kick.wav"
    );
    assert_eq!(Error::Duplication.message_for(""), "Error locking asset data: ");
}
