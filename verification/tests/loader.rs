use bevy_midi_graph::{
    AssetData, AssetEntry, AssetLoadPayload, AssetType, ConfigError, Error, GraphAssetLoader,
    UnresolvedAssetError,
};

fn entry(path: &str, data: AssetData) -> AssetEntry {
    AssetEntry { path: path.to_string(), data, instruments: 0 }
}

fn loader() -> GraphAssetLoader {
    GraphAssetLoader::new(
        vec![entry("song.mid", AssetData::Ready(vec![77, 84, 104, 100]))],
        vec![entry("piano.sf2", AssetData::Pending)],
        vec![
            entry("kick.wav", AssetData::Ready(vec![1, 2, 3])),
            entry("snare.wav", AssetData::Poisoned),
            entry("kick.wav", AssetData::Ready(vec![9, 9])),
        ],
    )
}

#[test]
fn new_keeps_the_three_lists() {
    let loader = loader();
    assert_eq!(loader.midi_assets.len(), 1);
    assert_eq!(loader.sf2_assets.len(), 1);
    assert_eq!(loader.wave_assets.len(), 3);
    assert_eq!(loader.wave_assets[1], entry("snare.wav", AssetData::Poisoned));
}

#[test]
fn ready_asset_is_handed_out() {
    assert_eq!(
        loader().load_asset_data("song.mid"),
        Ok(AssetLoadPayload::RawAssetData(vec![77, 84, 104, 100]))
    );
}

#[test]
fn first_entry_of_a_path_wins() {
    assert_eq!(
        loader().load_asset_data("kick.wav"),
        Ok(AssetLoadPayload::RawAssetData(vec![1, 2, 3]))
    );
}

#[test]
fn handing_out_leaves_the_loader_as_it_was() {
    let loader = loader();
    let first = loader.load_asset_data("kick.wav");
    let second = loader.load_asset_data("kick.wav");
    assert_eq!(first, second);
    assert_eq!(loader.wave_assets[0], entry("kick.wav", AssetData::Ready(vec![1, 2, 3])));
}

#[test]
fn asset_never_asked_for_has_not_started() {
    assert_eq!(
        loader().load_asset_data("hat.wav"),
        Err(Error::UnresolvedAsset(UnresolvedAssetError::NotStarted))
    );
}

#[test]
fn asset_without_data_has_not_finished() {
    assert_eq!(
        loader().load_asset_data("piano.sf2"),
        Err(Error::UnresolvedAsset(UnresolvedAssetError::NotFinished))
    );
}

#[test]
fn poisoned_asset_cannot_be_copied() {
    assert_eq!(loader().load_asset_data("snare.wav"), Err(Error::Duplication));
}

#[test]
fn path_is_looked_for_among_the_assets_of_its_type_only() {
    let loader = GraphAssetLoader::new(
        vec![entry("kick.wav", AssetData::Ready(vec![5]))],
        vec![],
        vec![],
    );
    assert_eq!(
        loader.load_asset_data("kick.wav"),
        Err(Error::UnresolvedAsset(UnresolvedAssetError::NotStarted))
    );
    assert_eq!(
        loader.load_typed(AssetType::Midi, "kick.wav"),
        Ok(AssetLoadPayload::RawAssetData(vec![5]))
    );
}

#[test]
fn path_without_known_type_is_refused_before_the_lookup() {
    let loader = GraphAssetLoader::new(
        vec![entry("kick", AssetData::Ready(vec![5]))],
        vec![entry("kick", AssetData::Ready(vec![5]))],
        vec![entry("kick", AssetData::Ready(vec![5])), entry("a.txt", AssetData::Pending)],
    );
    assert_eq!(
        loader.load_asset_data("kick"),
        Err(Error::Config(ConfigError::CannotParseAssetPath))
    );
    assert_eq!(
        loader.load_asset_data("a.txt"),
        Err(Error::Config(ConfigError::UnknownAssetType))
    );
}

#[test]
fn load_typed_answers_for_each_state() {
    let loader = loader();
    assert_eq!(
        loader.load_typed(AssetType::Wave, "kick.wav"),
        Ok(AssetLoadPayload::RawAssetData(vec![1, 2, 3]))
    );
    assert_eq!(loader.load_typed(AssetType::Wave, "snare.wav"), Err(Error::Duplication));
    assert_eq!(
        loader.load_typed(AssetType::SoundFont, "piano.sf2"),
        Err(Error::UnresolvedAsset(UnresolvedAssetError::NotFinished))
    );
    assert_eq!(
        loader.load_typed(AssetType::SoundFont, "kick.wav"),
        Err(Error::UnresolvedAsset(UnresolvedAssetError::NotStarted))
    );
}

#[test]
fn empty_asset_is_handed_out_empty() {
    let loader = GraphAssetLoader::new(vec![], vec![], vec![entry("nil.wav", AssetData::Ready(vec![]))]);
    assert_eq!(loader.load_asset_data("nil.wav"), Ok(AssetLoadPayload::RawAssetData(vec![])));
}

#[test]
fn instruments_are_those_of_the_first_bank_under_the_path() {
    let bank = |path: &str, instruments| AssetEntry {
        path: path.to_string(),
        data: AssetData::Ready(vec![]),
        instruments,
    };
    let loader = GraphAssetLoader::new(
        vec![bank("a.sf2", 9)],
        vec![bank("a.sf2", 2), bank("b.sf2", 128), bank("a.sf2", 5)],
        vec![],
    );
    assert_eq!(loader.instruments("a.sf2"), 2);
    assert_eq!(loader.instruments("b.sf2"), 128);
    assert_eq!(loader.instruments("c.sf2"), 0);
}
