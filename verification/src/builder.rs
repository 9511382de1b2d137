use vstd::prelude::*;

use crate::asset::loader::{spec_infer, AssetLoadPayload, AssetType, GraphAssetLoader};
use crate::descriptor::{
    descriptor_views, lemma_descriptor_views_index, lemma_descriptor_views_len, DescriptorView,
    NodeDescriptor, NodeKind,
};
use crate::envelope::EnvelopeClock;
use crate::error::{ConfigError, Error};
use crate::node::{
    data_view, lemma_node_views_index, lemma_node_views_len, node_views, Node, NodeState, NodeStateView,
    NodeView,
};
use crate::playback::LoopCursor;
use crate::program::{ChannelView, ControlChannel, Program, ProgramStep, ProgramView};
use crate::voice::{PoolView, VoicePool};

verus! {

/// The state in which a node of the given kind starts: a sample player and
/// a sequence at their first frame, a polyphonic node with none of its
/// voices sounding, an envelope at the first frame of its attack.
pub open spec fn spec_initial_state(kind: NodeKind) -> NodeStateView {
    match kind {
        NodeKind::SamplePlayer { loop_range } => NodeStateView::Playback(
            LoopCursor { position: 0, loop_range, pending_seek: None },
        ),
        NodeKind::Sequence => NodeStateView::Playback(
            LoopCursor { position: 0, loop_range: None, pending_seek: None },
        ),
        NodeKind::Polyphony { max_voices } => NodeStateView::Voices(
            PoolView { max_voices: max_voices as nat, notes: Seq::empty() },
        ),
        NodeKind::SoundFont { voices, .. } => NodeStateView::Voices(
            PoolView { max_voices: voices as nat, notes: Seq::empty() },
        ),
        NodeKind::Envelope { attack, decay, release } => NodeStateView::Envelope(
            EnvelopeClock { attack, decay, release, elapsed: 0, released_at: None },
        ),
        _ => NodeStateView::Stateless,
    }
}

/// The mailboxes made for the given identifiers: one for each, in their
/// order, with nothing in it.
pub open spec fn spec_channels_for(ids: Seq<u64>) -> Seq<ChannelView> {
    ids.map_values(|node_id: u64| ChannelView { node_id, pending: Seq::empty() })
}

impl DescriptorView {
    /// The data of the asset that the node plays, as the loader hands it
    /// out for the path that the node names. A node that plays no asset has
    /// no data.
    ///
    /// Where the loader fails, its error is the answer. Data that the loader
    /// hands out is refused where the extension of the path tells another
    /// type than the node plays, and where the node asks a bank for an
    /// instrument that the bank does not have.
    pub open spec fn spec_resolve(self, loader: GraphAssetLoader) -> Result<Option<Seq<u8>>, Error> {
        match (self.kind.spec_asset_type(), self.asset_path) {
            (Some(asset_type), Some(path)) => match loader.spec_load_asset_data(path) {
                Err(error) => Err(error),
                Ok(bytes) => if spec_infer(path) != Ok::<AssetType, Error>(asset_type) {
                    Err(Error::Config(ConfigError::WrongAssetType))
                } else if self.kind matches NodeKind::SoundFont { instrument_index, .. }
                    && instrument_index >= loader.spec_instruments(path) {
                    Err(Error::Config(ConfigError::UnknownInstrument))
                } else {
                    Ok(Some(bytes))
                },
            },
            _ => Ok(None),
        }
    }

    /// The tree of nodes that the description builds into, or the first
    /// failure that a depth-first walk meets: at each node its own fault,
    /// then the failure to get its data, then the failures of its children
    /// from the first to the last.
    pub open spec fn spec_build(self, loader: GraphAssetLoader) -> Result<NodeView, Error>
        decreases self,
    {
        match self.local_fault() {
            Some(fault) => Err(Error::Config(fault)),
            None => match self.spec_resolve(loader) {
                Err(error) => Err(error),
                Ok(data) => match Self::spec_build_all(self.children, loader) {
                    Err(error) => Err(error),
                    Ok(children) => Ok(
                        NodeView {
                            kind: self.kind,
                            node_id: self.node_id,
                            data,
                            parameters: self.parameters,
                            state: spec_initial_state(self.kind),
                            children,
                        },
                    ),
                },
            },
        }
    }

    /// The trees that a row of descriptions builds into, or the failure of
    /// the first of them that fails.
    pub open spec fn spec_build_all(trees: Seq<DescriptorView>, loader: GraphAssetLoader) -> Result<
        Seq<NodeView>,
        Error,
    >
        decreases trees,
    {
        if trees.len() == 0 {
            Ok(Seq::empty())
        } else {
            match Self::spec_build_all(trees.drop_last(), loader) {
                Err(error) => Err(error),
                Ok(before) => match trees.last().spec_build(loader) {
                    Err(error) => Err(error),
                    Ok(node) => Ok(before.push(node)),
                },
            }
        }
    }

    /// The program that the description builds into: its tree of nodes and
    /// one empty mailbox for each event receiver, in the order of a
    /// depth-first walk. A tree in which two event receivers share an
    /// identifier is refused.
    pub open spec fn spec_build_program(self, loader: GraphAssetLoader) -> Result<
        ProgramView,
        Error,
    > {
        match self.spec_build(loader) {
            Err(error) => Err(error),
            Ok(root) => if root.receiver_ids().no_duplicates() {
                Ok(ProgramView { root, channels: spec_channels_for(root.receiver_ids()) })
            } else {
                Err(Error::Config(ConfigError::DuplicateNodeId))
            },
        }
    }
}

impl NodeView {
    /// Whether the tree has the shape that `description` gives it: node for
    /// node the kind, the identifier and the parameters of the description,
    /// the state in which such a node starts, and data where the description
    /// names an asset; and no node of the description has a fault of its own.
    pub open spec fn built_like(self, description: DescriptorView) -> bool
        decreases self,
    {
        &&& description.local_fault() is None
        &&& self.kind == description.kind
        &&& self.node_id == description.node_id
        &&& self.parameters == description.parameters
        &&& self.state == spec_initial_state(description.kind)
        &&& (self.data is Some) == (description.asset_path is Some)
        &&& self.children.len() == description.children.len()
        &&& forall|i: int|
            0 <= i < self.children.len() ==> (#[trigger] self.children[i]).built_like(
                description.children[i],
            )
    }
}

/// What a build came to, as a mathematical value.
pub open spec fn built_view(result: Result<Program, Error>) -> Result<ProgramView, Error> {
    match result {
        Ok(program) => Ok(program@),
        Err(error) => Err(error),
    }
}

/// What holds of every build of `description`, however its asset paths are
/// read: a node with a fault of its own at the root fails the build with
/// that fault, and a program that is built has the shape of the
/// description and one empty mailbox for each of its event receivers, no
/// two of them with one identifier.
pub open spec fn may_build(description: DescriptorView, built: Result<ProgramView, Error>) -> bool {
    &&& description.local_fault() matches Some(fault) ==> built == Err::<ProgramView, Error>(
        Error::Config(fault),
    )
    &&& built matches Ok(program) ==> {
        &&& program.root.built_like(description)
        &&& program.channels == spec_channels_for(program.root.receiver_ids())
        &&& program.root.receiver_ids().no_duplicates()
        &&& program.wf()
    }
}

/// Of every description some build may fail: with the fault of its root,
/// where the root has one.
pub proof fn lemma_some_build_fails(description: DescriptorView) -> (built: Result<
    ProgramView,
    Error,
>)
    ensures
        built is Err,
        may_build(description, built),
{
    match description.local_fault() {
        Some(fault) => Err(Error::Config(fault)),
        None => Err(Error::Duplication),
    }
}

/// Makes the state in which a node of the given kind starts.
fn initial_state(kind: &NodeKind) -> (result: Result<NodeState, Error>)
    ensures
        match result {
            Ok(state) => state@ == spec_initial_state(*kind) && kind.spec_number_fault()
                != Some(ConfigError::ZeroVoices),
            Err(error) => error == Error::Config(ConfigError::ZeroVoices)
                && kind.spec_number_fault() == Some(ConfigError::ZeroVoices),
        },
{
    match kind {
        NodeKind::SamplePlayer { loop_range } => Ok(NodeState::Playback(LoopCursor::new(*loop_range))),
        NodeKind::Sequence => Ok(NodeState::Playback(LoopCursor::new(None))),
        NodeKind::Polyphony { max_voices } => match VoicePool::new(*max_voices) {
            Ok(pool) => Ok(NodeState::Voices(pool)),
            Err(error) => Err(error),
        },
        NodeKind::SoundFont { voices, instrument_index: _ } => match VoicePool::new(*voices) {
            Ok(pool) => Ok(NodeState::Voices(pool)),
            Err(error) => Err(error),
        },
        NodeKind::Envelope { attack, decay, release } => Ok(
            NodeState::Envelope(EnvelopeClock::new(*attack, *decay, *release)),
        ),
        _ => Ok(NodeState::Stateless),
    }
}

/// Tells whether no identifier stands twice in `ids`.
fn all_distinct(ids: &Vec<u64>) -> (distinct: bool)
    ensures
        distinct == ids@.no_duplicates(),
{
    let mut i: usize = 0;
    while i < ids.len()
        invariant
            i <= ids@.len(),
            forall|a: int, b: int| 0 <= a < i && 0 <= b < ids@.len() && a != b ==> ids@[a] != ids@[b],
        decreases ids@.len() - i,
    {
        let mut k: usize = i + 1;
        while k < ids.len()
            invariant
                i < ids@.len(),
                i < k <= ids@.len(),
                forall|b: int| i < b < k ==> ids@[i as int] != ids@[b],
            decreases ids@.len() - k,
        {
            if ids[i] == ids[k] {
                return false;
            }
            k = k + 1;
        }
        i = i + 1;
    }
    true
}

/// Builds the tree of nodes that `descriptor` describes.
fn build_node(descriptor: &NodeDescriptor, loader: &GraphAssetLoader) -> (result: Result<
    Node,
    Error,
>)
    ensures
        descriptor@.simple_paths() ==> match result {
            Ok(node) => descriptor@.spec_build(*loader) == Ok::<NodeView, Error>(node@),
            Err(error) => descriptor@.spec_build(*loader) == Err::<NodeView, Error>(error),
        },
        descriptor@.local_fault() matches Some(fault) ==> result matches Err(error) && error
            == Error::Config(fault),
        result matches Ok(node) ==> node@.built_like(descriptor@),
    decreases descriptor,
{
    broadcast use
        lemma_descriptor_views_len,
        lemma_descriptor_views_index,
        lemma_node_views_len,
        lemma_node_views_index,
    ;

    if let Some(fault) = descriptor.local_fault() {
        return Err(Error::Config(fault));
    }
    let data = match (descriptor.kind.asset_type(), &descriptor.asset_path) {
        (Some(asset_type), Some(path)) => match loader.load_asset_data(path.as_str()) {
            Ok(AssetLoadPayload::RawAssetData(bytes)) => {
                match GraphAssetLoader::infer_asset_type(path.as_str()) {
                    Ok(told) if told == asset_type => {},
                    _ => {
                        return Err(Error::Config(ConfigError::WrongAssetType));
                    },
                }
                if let NodeKind::SoundFont { instrument_index, voices: _ } = descriptor.kind {
                    if instrument_index >= loader.instruments(path.as_str()) {
                        return Err(Error::Config(ConfigError::UnknownInstrument));
                    }
                }
                Some(bytes)
            },
            Err(error) => {
                return Err(error);
            },
        },
        _ => None,
    };
    let mut children: Vec<Node> = Vec::new();
    let mut i: usize = 0;
    assert(descriptor.children@.take(0) =~= Seq::empty());
    while i < descriptor.children.len()
        invariant
            i <= descriptor.children@.len(),
            children@.len() == i,
            descriptor@.local_fault() is None,
            (data is Some) == (descriptor.asset_path is Some),
            forall|j: int|
                0 <= j < i ==> (#[trigger] children@[j])@.built_like(descriptor.children@[j]@),
            descriptor@.simple_paths() ==> descriptor@.spec_resolve(*loader) == Ok::<
                Option<Seq<u8>>,
                Error,
            >(data_view(data)),
            descriptor@.simple_paths() ==> DescriptorView::spec_build_all(
                descriptor_views(descriptor.children@.take(i as int)),
                *loader,
            ) == Ok::<Seq<NodeView>, Error>(node_views(children@)),
        decreases descriptor.children@.len() - i,
    {
        broadcast use
            lemma_descriptor_views_len,
            lemma_descriptor_views_index,
            lemma_node_views_len,
            lemma_node_views_index,
        ;

        let ghost next = descriptor.children@.take(i + 1);
        proof {
            assert(next.drop_last() =~= descriptor.children@.take(i as int));
            assert(next.last() == descriptor.children@[i as int]);
            assert(descriptor_views(next).drop_last() =~= descriptor_views(next.drop_last()));
            assert(descriptor_views(next).last() == descriptor.children@[i as int]@);
            assert(descriptor@.children == descriptor_views(descriptor.children@));
            assert(descriptor@.children[i as int] == descriptor.children@[i as int]@);
        }
        match build_node(&descriptor.children[i], loader) {
            Ok(child) => {
                let ghost row = children@;
                children.push(child);
                assert(node_views(children@) =~= node_views(row).push(child@));
            },
            Err(error) => {
                proof {
                    assert(descriptor_views(descriptor.children@).take(i + 1) =~= descriptor_views(
                        next,
                    ));
                    if descriptor@.simple_paths() {
                        lemma_build_all_fails_with_prefix(
                            descriptor_views(descriptor.children@),
                            *loader,
                            i + 1,
                        );
                    }
                }
                return Err(error);
            },
        }
        i = i + 1;
    }
    assert(descriptor.children@.take(i as int) =~= descriptor.children@);
    let parameters = descriptor.parameters.clone();
    assert(parameters@ =~= descriptor.parameters@);
    match initial_state(&descriptor.kind) {
        Ok(state) => {
            let node = Node {
                kind: descriptor.kind,
                node_id: descriptor.node_id,
                data,
                parameters,
                state,
                children,
            };
            proof {
                assert(descriptor@.children == descriptor_views(descriptor.children@));
                assert(node@.children == node_views(node.children@));
                assert forall|j: int| 0 <= j < node@.children.len() implies (
                #[trigger] node@.children[j]).built_like(descriptor@.children[j]) by {
                    assert(node.children@[j]@.built_like(descriptor.children@[j]@));
                }
            }
            Ok(node)
        },
        Err(error) => Err(error),
    }
}

/// Where the first `n` of a row of descriptions fail to build, the whole row
/// fails in the same way.
pub proof fn lemma_build_all_fails_with_prefix(
    trees: Seq<DescriptorView>,
    loader: GraphAssetLoader,
    n: int,
)
    requires
        0 <= n <= trees.len(),
        DescriptorView::spec_build_all(trees.take(n), loader) is Err,
    ensures
        DescriptorView::spec_build_all(trees, loader) == DescriptorView::spec_build_all(
            trees.take(n),
            loader,
        ),
    decreases trees.len(),
{
    if n < trees.len() {
        assert(trees.drop_last().take(n) =~= trees.take(n));
        lemma_build_all_fails_with_prefix(trees.drop_last(), loader, n);
    } else {
        assert(trees.take(n) =~= trees);
    }
}

/// A tree builds only where the loader supplies every asset that the tree
/// names: one path for which the loader fails, anywhere in the tree, fails
/// the build.
pub proof fn lemma_build_needs_every_asset(descriptor: DescriptorView, loader: GraphAssetLoader)
    requires
        descriptor.spec_build(loader) is Ok,
    ensures
        forall|i: int|
            0 <= i < descriptor.asset_sources().len() ==> loader.spec_load_asset_data(
                #[trigger] descriptor.asset_sources()[i],
            ) is Ok,
    decreases descriptor,
{
    lemma_row_needs_every_asset(descriptor.children, loader);
}

/// A row of trees builds only where the loader supplies every asset that
/// the trees name.
pub proof fn lemma_row_needs_every_asset(trees: Seq<DescriptorView>, loader: GraphAssetLoader)
    requires
        DescriptorView::spec_build_all(trees, loader) is Ok,
    ensures
        forall|i: int|
            0 <= i < DescriptorView::asset_sources_of(trees).len() ==> loader.spec_load_asset_data(
                #[trigger] DescriptorView::asset_sources_of(trees)[i],
            ) is Ok,
    decreases trees,
{
    if trees.len() > 0 {
        lemma_row_needs_every_asset(trees.drop_last(), loader);
        lemma_build_needs_every_asset(trees.last(), loader);
    }
}

/// A row of trees of which one does not build does not build.
pub proof fn lemma_row_fails_with_member(trees: Seq<DescriptorView>, loader: GraphAssetLoader, i: int)
    requires
        0 <= i < trees.len(),
        trees[i].spec_build(loader) is Err,
    ensures
        DescriptorView::spec_build_all(trees, loader) is Err,
    decreases trees.len(),
{
    if i < trees.len() - 1 {
        lemma_row_fails_with_member(trees.drop_last(), loader, i);
    }
}

/// A tree does not build where any node of it, or the node with all below
/// it, does not build.
pub proof fn lemma_failing_node_fails_tree(
    tree: DescriptorView,
    node: DescriptorView,
    loader: GraphAssetLoader,
)
    requires
        tree.holds(node),
        node.spec_build(loader) is Err,
    ensures
        tree.spec_build(loader) is Err,
        tree.spec_build_program(loader) is Err,
    decreases tree,
{
    if tree != node {
        let i = choose|i: int|
            0 <= i < tree.children.len() && (#[trigger] tree.children[i]).holds(node);
        lemma_failing_node_fails_tree(tree.children[i], node, loader);
        lemma_row_fails_with_member(tree.children, loader, i);
    }
}

/// A tree builds only where every bank has the instrument that is asked of
/// it: an instrument node whose index is not below the number of instruments
/// of its bank fails the build of every tree it stands in, wherever it
/// stands.
pub proof fn lemma_unknown_instrument_fails(
    tree: DescriptorView,
    node: DescriptorView,
    loader: GraphAssetLoader,
)
    requires
        tree.holds(node),
        node.kind matches NodeKind::SoundFont { instrument_index, .. } && node.asset_path matches Some(
            path,
        ) && instrument_index >= loader.spec_instruments(path),
    ensures
        tree.spec_build(loader) is Err,
        tree.spec_build_program(loader) is Err,
{
    lemma_failing_node_fails_tree(tree, node, loader);
}

/// A polyphonic wrapper or an instrument that is given no voice fails the
/// build of every tree it stands in, wherever it stands.
pub proof fn lemma_zero_voices_fail(tree: DescriptorView, node: DescriptorView, loader: GraphAssetLoader)
    requires
        tree.holds(node),
        (node.kind matches NodeKind::Polyphony { max_voices } && max_voices == 0) || (
        node.kind matches NodeKind::SoundFont { voices, .. } && voices == 0),
    ensures
        tree.spec_build(loader) is Err,
        tree.spec_build_program(loader) is Err,
{
    lemma_failing_node_fails_tree(tree, node, loader);
}

/// A program is stored only where it builds: where the loader fails for a
/// path that the description names, nothing is built.
pub proof fn lemma_unsupplied_path_fails_build(
    descriptor: DescriptorView,
    loader: GraphAssetLoader,
    i: int,
)
    requires
        0 <= i < descriptor.asset_sources().len(),
        loader.spec_load_asset_data(descriptor.asset_sources()[i]) is Err,
    ensures
        descriptor.spec_build(loader) is Err,
        descriptor.spec_build_program(loader) is Err,
{
    if descriptor.spec_build(loader) is Ok {
        lemma_build_needs_every_asset(descriptor, loader);
    }
}

/// In a tree that was built no node sounds a voice, and every polyphonic
/// node has the bound that its description names, which is not zero.
pub proof fn lemma_built_tree_within_bound(descriptor: DescriptorView, loader: GraphAssetLoader)
    requires
        descriptor.spec_build(loader) is Ok,
    ensures
        descriptor.spec_build(loader).unwrap().voices_within_bound(),
    decreases descriptor,
{
    lemma_built_row_within_bound(descriptor.children, loader);
}

/// In a row of trees that were built no node sounds a voice, and every
/// polyphonic node has a bound that is not zero.
pub proof fn lemma_built_row_within_bound(trees: Seq<DescriptorView>, loader: GraphAssetLoader)
    requires
        DescriptorView::spec_build_all(trees, loader) is Ok,
    ensures
        DescriptorView::spec_build_all(trees, loader).unwrap().len() == trees.len(),
        forall|i: int|
            0 <= i < trees.len() ==> (#[trigger] DescriptorView::spec_build_all(
                trees,
                loader,
            ).unwrap()[i]).voices_within_bound(),
    decreases trees,
{
    if trees.len() > 0 {
        lemma_built_row_within_bound(trees.drop_last(), loader);
        lemma_built_tree_within_bound(trees.last(), loader);
    }
}

/// A program that was built stays within the bounds of its voices whatever
/// is sent to it and however it is played.
pub proof fn lemma_built_program_never_exceeds_voices(
    descriptor: DescriptorView,
    loader: GraphAssetLoader,
    steps: Seq<ProgramStep>,
)
    requires
        descriptor.spec_build_program(loader) is Ok,
    ensures
        descriptor.spec_build_program(loader).unwrap().run(steps).voices_within_bound(),
{
    lemma_built_tree_within_bound(descriptor, loader);
    descriptor.spec_build_program(loader).unwrap().lemma_run_keeps_voices_within_bound(steps);
}

/// Two descriptions that read the same, though they are two values, build
/// into programs that read the same, and the two programs stay alike
/// whatever happens to both: after the same messages and the same blocks
/// every node of the one stands where its counterpart in the other stands.
pub proof fn lemma_alike_descriptions_play_alike(
    first: NodeDescriptor,
    second: NodeDescriptor,
    loader: GraphAssetLoader,
    steps: Seq<ProgramStep>,
)
    requires
        first@ == second@,
        first@.spec_build_program(loader) is Ok,
    ensures
        second@.spec_build_program(loader) is Ok,
        first@.spec_build_program(loader).unwrap().run(steps) == second@.spec_build_program(
            loader,
        ).unwrap().run(steps),
{
}

/// A program that was built has one mailbox for each of its event receivers
/// and no identifier twice among them.
pub proof fn lemma_built_program_channels(descriptor: DescriptorView, loader: GraphAssetLoader)
    requires
        descriptor.spec_build_program(loader) is Ok,
    ensures
        descriptor.spec_build_program(loader).unwrap().channel_ids()
            == descriptor.spec_build_program(loader).unwrap().root.receiver_ids(),
        descriptor.spec_build_program(loader).unwrap().channel_ids().no_duplicates(),
        forall|i: int|
            0 <= i < descriptor.spec_build_program(loader).unwrap().channels.len() ==> (
            #[trigger] descriptor.spec_build_program(loader).unwrap().channels[i]).pending.len()
                == 0,
{
    let program = descriptor.spec_build_program(loader).unwrap();
    assert(program.channel_ids() =~= program.root.receiver_ids());
}

/// Builds the program that `descriptor` describes, with the data that
/// `loader` holds for the assets it refers to.
///
/// The tree is walked depth-first. A node that is malformed fails the build
/// with its fault; a node whose data the loader cannot hand out fails it with
/// the loader's error. The program gets one empty mailbox for each event
/// receiver; two receivers with one identifier fail the build.
///
/// Where every asset path of the description is simple the result is fixed.
/// Any other path is typed as the standard library reads it: the program,
/// if one is built, still has the shape of the description.
pub fn build(descriptor: &NodeDescriptor, loader: &GraphAssetLoader) -> (result: Result<
    Program,
    Error,
>)
    ensures
        descriptor@.simple_paths() ==> built_view(result) == descriptor@.spec_build_program(*loader),
        may_build(descriptor@, built_view(result)),
{
    let root = match build_node(descriptor, loader) {
        Ok(root) => root,
        Err(error) => {
            return Err(error);
        },
    };
    let ids = root.receiver_ids();
    if !all_distinct(&ids) {
        return Err(Error::Config(ConfigError::DuplicateNodeId));
    }
    let mut channels: Vec<ControlChannel> = Vec::new();
    let mut i: usize = 0;
    while i < ids.len()
        invariant
            i <= ids@.len(),
            channels@.len() == i,
            forall|j: int|
                0 <= j < i ==> (#[trigger] channels@[j])@ == (ChannelView {
                    node_id: ids@[j],
                    pending: Seq::empty(),
                }),
        decreases ids@.len() - i,
    {
        channels.push(ControlChannel { node_id: ids[i], pending: Vec::new() });
        i = i + 1;
    }
    let program = Program::assemble(root, channels);
    assert(program@.channels =~= spec_channels_for(ids@));
    assert(program@.channel_ids() =~= ids@);
    Ok(program)
}

} // verus!
