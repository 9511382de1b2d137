use vstd::prelude::*;

use crate::asset::loader::{simple_path, spec_infer, AssetType, GraphAssetLoader};
use crate::descriptor::{
    lemma_outline_sources, spec_outline, texts, DescriptorView, NodeDescriptor,
};
use crate::error::{ConfigError, Error};

verus! {

/// The description of a graph together with the assets it refers to, which
/// the host has to read before the graph can be built: the paths of its MIDI
/// files, of its SoundFont banks and of its wave files.
#[derive(Debug, PartialEq, Eq)]
pub struct MidiGraph {
    pub config: NodeDescriptor,
    pub midi_assets: Vec<String>,
    pub sf2_assets: Vec<String>,
    pub wave_assets: Vec<String>,
}

/// The paths among `paths` whose type is `wanted`, in their order; the type
/// of a path stands in `types` at the place of the path.
pub open spec fn paths_of_type(
    paths: Seq<Seq<char>>,
    types: Seq<AssetType>,
    wanted: AssetType,
) -> Seq<Seq<char>>
    decreases paths.len(),
{
    if paths.len() == 0 || types.len() == 0 {
        Seq::empty()
    } else {
        let before = paths_of_type(paths.drop_last(), types.drop_last(), wanted);
        if types.last() == wanted {
            before.push(paths.last())
        } else {
            before
        }
    }
}

/// Whether the lists of `graph` are the asset paths of its description,
/// sorted by the types in `types`.
pub open spec fn sorted_by(graph: MidiGraph, types: Seq<AssetType>) -> bool {
    let sources = graph.config@.asset_sources();
    &&& types.len() == sources.len()
    &&& texts(graph.midi_assets@) == paths_of_type(sources, types, AssetType::Midi)
    &&& texts(graph.sf2_assets@) == paths_of_type(sources, types, AssetType::SoundFont)
    &&& texts(graph.wave_assets@) == paths_of_type(sources, types, AssetType::Wave)
}

/// The types of `paths`, each told by the extension of its path; or the
/// error of the first path whose type cannot be told.
pub open spec fn spec_types(paths: Seq<Seq<char>>) -> Result<Seq<AssetType>, Error>
    decreases paths.len(),
{
    if paths.len() == 0 {
        Ok(Seq::empty())
    } else {
        match spec_types(paths.drop_last()) {
            Err(error) => Err(error),
            Ok(before) => match spec_infer(paths.last()) {
                Err(error) => Err(error),
                Ok(asset_type) => Ok(before.push(asset_type)),
            },
        }
    }
}

/// Where the first paths have no types, the paths have none, for the same
/// reason.
proof fn lemma_types_fail_with_prefix(paths: Seq<Seq<char>>, n: int)
    requires
        0 <= n <= paths.len(),
        spec_types(paths.take(n)) is Err,
    ensures
        spec_types(paths) == spec_types(paths.take(n)),
    decreases paths.len(),
{
    if n < paths.len() {
        assert(paths.drop_last().take(n) =~= paths.take(n));
        lemma_types_fail_with_prefix(paths.drop_last(), n);
    } else {
        assert(paths.take(n) =~= paths);
    }
}

/// Whether each of `paths` is simple, so that its type is the same on every
/// platform.
pub open spec fn all_simple(paths: Seq<Seq<char>>) -> bool {
    forall|i: int| 0 <= i < paths.len() ==> simple_path(#[trigger] paths[i])
}

/// Whether `error` tells that a path has no type.
pub open spec fn is_typing_error(error: Error) -> bool {
    error == Error::Config(ConfigError::CannotParseAssetPath) || error == Error::Config(
        ConfigError::UnknownAssetType,
    )
}

/// Tells the type of each of `sources` by its extension.
fn type_assets(sources: &Vec<String>) -> (result: Result<Vec<AssetType>, Error>)
    ensures
        all_simple(texts(sources@)) ==> match spec_types(texts(sources@)) {
            Ok(types) => result matches Ok(found) && found@ == types,
            Err(error) => result matches Err(failure) && failure == error,
        },
        result matches Ok(found) ==> found@.len() == sources@.len(),
        result matches Err(failure) ==> is_typing_error(failure),
{
    let ghost paths = texts(sources@);
    let mut types: Vec<AssetType> = Vec::new();
    let mut i: usize = 0;
    assert(paths.take(0) =~= Seq::empty());
    while i < sources.len()
        invariant
            i <= sources@.len(),
            paths == texts(sources@),
            types@.len() == i,
            all_simple(paths) ==> spec_types(paths.take(i as int)) == Ok::<Seq<AssetType>, Error>(
                types@,
            ),
        decreases sources@.len() - i,
    {
        proof {
            assert(paths.take(i + 1).drop_last() =~= paths.take(i as int));
            assert(paths.take(i + 1).last() == sources@[i as int]@);
            assert(all_simple(paths) ==> simple_path(paths[i as int]));
        }
        match GraphAssetLoader::infer_asset_type(sources[i].as_str()) {
            Ok(asset_type) => {
                types.push(asset_type);
            },
            Err(error) => {
                proof {
                    if all_simple(paths) {
                        lemma_types_fail_with_prefix(paths, i + 1);
                    }
                }
                return Err(error);
            },
        }
        i = i + 1;
    }
    assert(paths.take(i as int) =~= paths);
    Ok(types)
}

/// The three lists that the asset paths of a graph are sorted into.
struct SortedAssets {
    midi_assets: Vec<String>,
    sf2_assets: Vec<String>,
    wave_assets: Vec<String>,
}

/// Sorts `sources` by the types that stand in `types` at their places.
fn sort_assets(sources: &Vec<String>, types: &Vec<AssetType>) -> (sorted: SortedAssets)
    requires
        sources@.len() == types@.len(),
    ensures
        texts(sorted.midi_assets@) == paths_of_type(texts(sources@), types@, AssetType::Midi),
        texts(sorted.sf2_assets@) == paths_of_type(texts(sources@), types@, AssetType::SoundFont),
        texts(sorted.wave_assets@) == paths_of_type(texts(sources@), types@, AssetType::Wave),
{
    let ghost paths = texts(sources@);
    let mut midi_assets: Vec<String> = Vec::new();
    let mut sf2_assets: Vec<String> = Vec::new();
    let mut wave_assets: Vec<String> = Vec::new();
    let mut i: usize = 0;
    assert(texts(midi_assets@) =~= Seq::empty());
    assert(texts(sf2_assets@) =~= Seq::empty());
    assert(texts(wave_assets@) =~= Seq::empty());
    while i < sources.len()
        invariant
            i <= sources@.len(),
            sources@.len() == types@.len(),
            paths == texts(sources@),
            texts(midi_assets@) == paths_of_type(
                paths.take(i as int),
                types@.take(i as int),
                AssetType::Midi,
            ),
            texts(sf2_assets@) == paths_of_type(
                paths.take(i as int),
                types@.take(i as int),
                AssetType::SoundFont,
            ),
            texts(wave_assets@) == paths_of_type(
                paths.take(i as int),
                types@.take(i as int),
                AssetType::Wave,
            ),
        decreases sources@.len() - i,
    {
        proof {
            assert(paths.take(i + 1).drop_last() =~= paths.take(i as int));
            assert(types@.take(i + 1).drop_last() =~= types@.take(i as int));
            assert(paths.take(i + 1).last() == sources@[i as int]@);
        }
        let path = sources[i].clone();
        match types[i] {
            AssetType::Midi => {
                let ghost row = midi_assets@;
                midi_assets.push(path);
                assert(texts(midi_assets@) =~= texts(row).push(path@));
            },
            AssetType::SoundFont => {
                let ghost row = sf2_assets@;
                sf2_assets.push(path);
                assert(texts(sf2_assets@) =~= texts(row).push(path@));
            },
            AssetType::Wave => {
                let ghost row = wave_assets@;
                wave_assets.push(path);
                assert(texts(wave_assets@) =~= texts(row).push(path@));
            },
        }
        i = i + 1;
    }
    assert(paths.take(i as int) =~= paths);
    assert(types@.take(i as int) =~= types@);
    SortedAssets { midi_assets, sf2_assets, wave_assets }
}

impl MidiGraph {
    /// Sorts the asset paths of `config` by the given types, the type of the
    /// path that a depth-first walk meets first standing first.
    ///
    /// Returns `None` where `types` does not hold one type for each path.
    pub fn from_typed(config: NodeDescriptor, types: &Vec<AssetType>) -> (graph: Option<Self>)
        ensures
            graph is Some <==> types@.len() == config@.asset_sources().len(),
            graph matches Some(graph) ==> graph.config == config && sorted_by(graph, types@),
    {
        let sources = config.asset_sources();
        assert(texts(sources@).len() == sources@.len());
        if sources.len() != types.len() {
            return None;
        }
        let sorted = sort_assets(&sources, types);
        Some(
            MidiGraph {
                config,
                midi_assets: sorted.midi_assets,
                sf2_assets: sorted.sf2_assets,
                wave_assets: sorted.wave_assets,
            },
        )
    }

    /// Finds the assets that `config` refers to and sorts them by the type
    /// that the extension of each path tells.
    ///
    /// Fails with the error of the first path, in the order of a depth-first
    /// walk, whose type cannot be told. Where every path is simple the result
    /// is fixed; any other path is typed as the standard library reads it.
    pub fn new(config: NodeDescriptor) -> (result: Result<Self, Error>)
        ensures
            all_simple(config@.asset_sources()) ==> match spec_types(config@.asset_sources()) {
                Ok(types) => result matches Ok(graph) && graph.config == config && sorted_by(
                    graph,
                    types,
                ),
                Err(error) => result matches Err(failure) && failure == error,
            },
            result matches Ok(graph) ==> graph.config == config && exists|types: Seq<AssetType>| #[trigger]
                sorted_by(graph, types),
            result matches Err(failure) ==> is_typing_error(failure),
            config@.asset_sources().len() == 0 ==> result is Ok,
    {
        let sources = config.asset_sources();
        let types = type_assets(&sources)?;
        let sorted = sort_assets(&sources, &types);
        let graph = MidiGraph {
            config,
            midi_assets: sorted.midi_assets,
            sf2_assets: sorted.sf2_assets,
            wave_assets: sorted.wave_assets,
        };
        assert(sorted_by(graph, types@));
        Ok(graph)
    }

    /// Describes a graph of which only the assets are known, as a mixer over
    /// one player for each of `paths`, and sorts the paths by the type that
    /// the extension of each tells.
    ///
    /// Fails with the error of the first path whose type cannot be told.
    /// Where every path is simple the result is fixed; any other path is
    /// typed as the standard library reads it.
    pub fn outline(paths: &Vec<String>) -> (result: Result<Self, Error>)
        ensures
            all_simple(texts(paths@)) ==> match spec_types(texts(paths@)) {
                Ok(types) => result matches Ok(graph) && graph.config@ == spec_outline(
                    texts(paths@),
                    types,
                ) && sorted_by(graph, types),
                Err(error) => result matches Err(failure) && failure == error,
            },
            result matches Ok(graph) ==> exists|types: Seq<AssetType>|
                graph.config@ == spec_outline(texts(paths@), types) && #[trigger] sorted_by(
                    graph,
                    types,
                ),
            result matches Err(failure) ==> is_typing_error(failure),
            paths@.len() == 0 ==> result is Ok,
    {
        let types = type_assets(paths)?;
        let sorted = sort_assets(paths, &types);
        match NodeDescriptor::outline(paths, &types) {
            Some(config) => {
                proof {
                    lemma_outline_sources(texts(paths@), types@);
                }
                let graph = MidiGraph {
                    config,
                    midi_assets: sorted.midi_assets,
                    sf2_assets: sorted.sf2_assets,
                    wave_assets: sorted.wave_assets,
                };
                assert(sorted_by(graph, types@));
                Ok(graph)
            },
            None => Err(Error::Config(ConfigError::CannotParseAssetPath)),
        }
    }
}

} // verus!
