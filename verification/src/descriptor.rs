use vstd::prelude::*;

use crate::asset::loader::{simple_path, AssetType};
use crate::error::ConfigError;

verus! {

/// The frames between which a sample player repeats: from `start` up to,
/// and not including, `end`.
#[derive(Debug, Clone, Copy, PartialEq, Eq, Hash)]
pub struct LoopRange {
    pub start: usize,
    pub end: usize,
}

impl LoopRange {
    /// Makes the range of the frames from `start` up to `end`.
    pub fn new_frame_range(start: usize, end: usize) -> (range: Self)
        ensures
            range == (LoopRange { start, end }),
    {
        LoopRange { start, end }
    }
}

/// What a node of the graph is, with the whole numbers that shape it.
#[derive(Debug, Clone, Copy, PartialEq, Eq, Hash)]
pub enum NodeKind {
    /// A square wave generator.
    SquareWave,
    /// A triangle wave generator.
    TriangleWave,
    /// A sawtooth wave generator.
    SawtoothWave,
    /// A noise generator.
    Noise,
    /// Plays a wave asset, once or over and over between two frames.
    SamplePlayer { loop_range: Option<LoopRange> },
    /// Plays the timed events of a MIDI asset to its children.
    Sequence,
    /// Plays one instrument of a SoundFont asset on a number of voices.
    SoundFont { instrument_index: usize, voices: usize },
    /// Shapes the volume of its child over the given numbers of frames.
    Envelope { attack: usize, decay: usize, release: usize },
    /// Sums its children.
    Mixer,
    /// Fades between its children.
    Combiner,
    /// Plays copies of its child on at most `max_voices` voices.
    Polyphony { max_voices: usize },
    /// Receives the control messages sent to its identifier on behalf of
    /// its child.
    EventReceiver,
}

impl NodeKind {
    /// The type of the asset that a node of this kind plays, if it plays one.
    pub open spec fn spec_asset_type(self) -> Option<AssetType> {
        match self {
            NodeKind::SamplePlayer { .. } => Some(AssetType::Wave),
            NodeKind::Sequence => Some(AssetType::Midi),
            NodeKind::SoundFont { .. } => Some(AssetType::SoundFont),
            _ => None,
        }
    }

    /// Whether a node of this kind takes `count` children.
    pub open spec fn spec_takes_children(self, count: nat) -> bool {
        match self {
            NodeKind::SquareWave
            | NodeKind::TriangleWave
            | NodeKind::SawtoothWave
            | NodeKind::Noise
            | NodeKind::SamplePlayer { .. }
            | NodeKind::SoundFont { .. } => count == 0,
            NodeKind::Envelope { .. } | NodeKind::Polyphony { .. } | NodeKind::EventReceiver => count
                == 1,
            NodeKind::Sequence | NodeKind::Mixer | NodeKind::Combiner => true,
        }
    }

    /// What is wrong with the numbers of this kind, if anything.
    pub open spec fn spec_number_fault(self) -> Option<ConfigError> {
        match self {
            NodeKind::SoundFont { voices, .. } if voices == 0 => Some(ConfigError::ZeroVoices),
            NodeKind::Polyphony { max_voices } if max_voices == 0 => Some(ConfigError::ZeroVoices),
            NodeKind::SamplePlayer { loop_range: Some(range) } if range.start >= range.end => Some(
                ConfigError::EmptyLoopRange,
            ),
            _ => None,
        }
    }

    /// The kind of node that plays an asset of the given type with nothing
    /// set: a sample player without loop, a sequence, the first instrument
    /// of a bank on one voice.
    pub open spec fn spec_playing(asset_type: AssetType) -> NodeKind {
        match asset_type {
            AssetType::Wave => NodeKind::SamplePlayer { loop_range: None },
            AssetType::Midi => NodeKind::Sequence,
            AssetType::SoundFont => NodeKind::SoundFont { instrument_index: 0, voices: 1 },
        }
    }

    /// Returns the kind of node that plays an asset of the given type with
    /// nothing set.
    pub fn playing(asset_type: AssetType) -> (kind: NodeKind)
        ensures
            kind == Self::spec_playing(asset_type),
            kind.spec_asset_type() == Some(asset_type),
            kind.spec_number_fault() is None,
    {
        match asset_type {
            AssetType::Wave => NodeKind::SamplePlayer { loop_range: None },
            AssetType::Midi => NodeKind::Sequence,
            AssetType::SoundFont => NodeKind::SoundFont { instrument_index: 0, voices: 1 },
        }
    }

    /// Returns the type of the asset that a node of this kind plays.
    pub fn asset_type(&self) -> (asset_type: Option<AssetType>)
        ensures
            asset_type == self.spec_asset_type(),
    {
        match self {
            NodeKind::SamplePlayer { .. } => Some(AssetType::Wave),
            NodeKind::Sequence => Some(AssetType::Midi),
            NodeKind::SoundFont { .. } => Some(AssetType::SoundFont),
            _ => None,
        }
    }

    /// Tells whether a node of this kind takes `count` children.
    pub fn takes_children(&self, count: usize) -> (taken: bool)
        ensures
            taken == self.spec_takes_children(count as nat),
    {
        match self {
            NodeKind::SquareWave
            | NodeKind::TriangleWave
            | NodeKind::SawtoothWave
            | NodeKind::Noise
            | NodeKind::SamplePlayer { .. }
            | NodeKind::SoundFont { .. } => count == 0,
            NodeKind::Envelope { .. } | NodeKind::Polyphony { .. } | NodeKind::EventReceiver => count
                == 1,
            NodeKind::Sequence | NodeKind::Mixer | NodeKind::Combiner => true,
        }
    }

    /// Returns what is wrong with the numbers of this kind: an instrument or
    /// a polyphonic wrapper without a voice, a loop range that does not end
    /// after it starts.
    pub fn number_fault(&self) -> (fault: Option<ConfigError>)
        ensures
            fault == self.spec_number_fault(),
    {
        match self {
            NodeKind::SoundFont { voices, .. } => if *voices == 0 {
                Some(ConfigError::ZeroVoices)
            } else {
                None
            },
            NodeKind::Polyphony { max_voices } => if *max_voices == 0 {
                Some(ConfigError::ZeroVoices)
            } else {
                None
            },
            NodeKind::SamplePlayer { loop_range: Some(range) } => if range.start >= range.end {
                Some(ConfigError::EmptyLoopRange)
            } else {
                None
            },
            _ => None,
        }
    }
}

/// The description of one node of the graph and of the nodes below it.
///
/// External data is named by its path. Numbers that only the signal path
/// reads are carried in `parameters` as they were given.
#[derive(Debug, PartialEq, Eq)]
pub struct NodeDescriptor {
    pub kind: NodeKind,
    pub node_id: Option<u64>,
    pub asset_path: Option<String>,
    pub parameters: Vec<u32>,
    pub children: Vec<NodeDescriptor>,
}

/// A descriptor as a mathematical tree.
pub struct DescriptorView {
    pub kind: NodeKind,
    pub node_id: Option<u64>,
    pub asset_path: Option<Seq<char>>,
    pub parameters: Seq<u32>,
    pub children: Seq<DescriptorView>,
}

/// The text of a path that may be absent.
pub open spec fn path_view(path: Option<String>) -> Option<Seq<char>> {
    match path {
        Some(path) => Some(path@),
        None => None,
    }
}

/// The views of a row of descriptors, in their order.
pub open spec fn descriptor_views(descriptors: Seq<NodeDescriptor>) -> Seq<DescriptorView>
    decreases descriptors,
{
    if descriptors.len() == 0 {
        Seq::empty()
    } else {
        descriptor_views(descriptors.drop_last()).push(descriptors.last().model())
    }
}

impl NodeDescriptor {
    /// The tree that this descriptor stands for.
    pub open spec fn model(self) -> DescriptorView
        decreases self,
    {
        DescriptorView {
            kind: self.kind,
            node_id: self.node_id,
            asset_path: path_view(self.asset_path),
            parameters: self.parameters@,
            children: descriptor_views(self.children@),
        }
    }
}

impl View for NodeDescriptor {
    type V = DescriptorView;

    open spec fn view(&self) -> DescriptorView {
        self.model()
    }
}

/// A row of descriptors has as many views as it has items.
pub broadcast proof fn lemma_descriptor_views_len(descriptors: Seq<NodeDescriptor>)
    ensures
        #[trigger] descriptor_views(descriptors).len() == descriptors.len(),
    decreases descriptors.len(),
{
    if descriptors.len() > 0 {
        lemma_descriptor_views_len(descriptors.drop_last());
    }
}

/// The view at a place of a row is the view of the descriptor at that place.
pub broadcast proof fn lemma_descriptor_views_index(descriptors: Seq<NodeDescriptor>, i: int)
    requires
        0 <= i < descriptors.len(),
    ensures
        #[trigger] descriptor_views(descriptors)[i] == descriptors[i]@,
    decreases descriptors.len(),
{
    lemma_descriptor_views_len(descriptors.drop_last());
    if i < descriptors.len() - 1 {
        lemma_descriptor_views_index(descriptors.drop_last(), i);
    }
}

impl DescriptorView {
    /// The fault of this node alone, if it has one: first an asset path that
    /// is missing or not taken, then the number of children, then the numbers
    /// of the kind, then an event receiver without identifier.
    pub open spec fn local_fault(self) -> Option<ConfigError> {
        if self.kind.spec_asset_type() is Some && self.asset_path is None {
            Some(ConfigError::MissingAssetPath)
        } else if self.kind.spec_asset_type() is None && self.asset_path is Some {
            Some(ConfigError::UnexpectedAssetPath)
        } else if !self.kind.spec_takes_children(self.children.len()) {
            Some(ConfigError::WrongChildCount)
        } else if self.kind.spec_number_fault() is Some {
            self.kind.spec_number_fault()
        } else if self.kind is EventReceiver && self.node_id is None {
            Some(ConfigError::MissingNodeId)
        } else {
            None
        }
    }

    /// Whether `node` stands in the tree: as the tree itself, or anywhere
    /// below it.
    pub open spec fn holds(self, node: DescriptorView) -> bool
        decreases self,
    {
        self == node || exists|i: int|
            0 <= i < self.children.len() && (#[trigger] self.children[i]).holds(node)
    }

    /// Whether every asset path that the tree names is simple, so that its
    /// type is the same on every platform.
    pub open spec fn simple_paths(self) -> bool
        decreases self,
    {
        &&& self.asset_path matches Some(path) ==> simple_path(path)
        &&& forall|i: int|
            0 <= i < self.children.len() ==> (#[trigger] self.children[i]).simple_paths()
    }

    /// The asset paths of the tree: that of the node, then those of its
    /// children from the first to the last, each child with all below it.
    pub open spec fn asset_sources(self) -> Seq<Seq<char>>
        decreases self,
    {
        let own = match self.asset_path {
            Some(path) => seq![path],
            None => Seq::empty(),
        };
        own + Self::asset_sources_of(self.children)
    }

    /// The asset paths of a row of trees, tree after tree.
    pub open spec fn asset_sources_of(trees: Seq<DescriptorView>) -> Seq<Seq<char>>
        decreases trees,
    {
        if trees.len() == 0 {
            Seq::empty()
        } else {
            Self::asset_sources_of(trees.drop_last()) + trees.last().asset_sources()
        }
    }
}

/// The description of the node that plays the asset at `path` with nothing
/// set.
pub open spec fn spec_player(path: Seq<char>, asset_type: AssetType) -> DescriptorView {
    DescriptorView {
        kind: NodeKind::spec_playing(asset_type),
        node_id: None,
        asset_path: Some(path),
        parameters: Seq::empty(),
        children: Seq::empty(),
    }
}

/// The description of a graph of which only the assets are known: a mixer
/// over one player for each asset, in the order of the assets.
pub open spec fn spec_outline(paths: Seq<Seq<char>>, types: Seq<AssetType>) -> DescriptorView {
    DescriptorView {
        kind: NodeKind::Mixer,
        node_id: None,
        asset_path: None,
        parameters: Seq::empty(),
        children: Seq::new(paths.len(), |i: int| spec_player(paths[i], types[i])),
    }
}

/// The asset paths of an outline are the paths it was made of.
pub proof fn lemma_outline_sources(paths: Seq<Seq<char>>, types: Seq<AssetType>)
    ensures
        spec_outline(paths, types).asset_sources() == paths,
{
    let children = spec_outline(paths, types).children;
    lemma_player_sources(children, paths, types);
    assert(Seq::<Seq<char>>::empty() + paths =~= paths);
}

/// The asset paths of a row of players are the paths they play.
proof fn lemma_player_sources(
    players: Seq<DescriptorView>,
    paths: Seq<Seq<char>>,
    types: Seq<AssetType>,
)
    requires
        players.len() == paths.len(),
        forall|i: int| 0 <= i < players.len() ==> #[trigger] players[i] == spec_player(
            paths[i],
            types[i],
        ),
    ensures
        DescriptorView::asset_sources_of(players) == paths,
    decreases players.len(),
{
    if players.len() > 0 {
        lemma_player_sources(players.drop_last(), paths.drop_last(), types);
        let last = players.last();
        assert(last == spec_player(paths.last(), types[players.len() - 1]));
        assert(DescriptorView::asset_sources_of(last.children) =~= Seq::<Seq<char>>::empty());
        assert(last.asset_sources() =~= seq![paths.last()]);
        assert(paths.drop_last() + seq![paths.last()] =~= paths);
    } else {
        assert(paths =~= Seq::<Seq<char>>::empty());
    }
}

/// The texts of a row of strings.
pub open spec fn texts(strings: Seq<String>) -> Seq<Seq<char>> {
    strings.map_values(|s: String| s@)
}

impl NodeDescriptor {
    /// Describes a node of the given kind that has no identifier, names no
    /// asset, carries no parameter and has no children.
    pub fn new(kind: NodeKind) -> (descriptor: Self)
        ensures
            descriptor@ == (DescriptorView {
                kind,
                node_id: None,
                asset_path: None,
                parameters: Seq::empty(),
                children: Seq::empty(),
            }),
    {
        let descriptor = NodeDescriptor {
            kind,
            node_id: None,
            asset_path: None,
            parameters: Vec::new(),
            children: Vec::new(),
        };
        assert(descriptor@.children =~= Seq::empty());
        descriptor
    }

    /// Describes a graph of which only the assets are known, as a mixer over
    /// one player for each asset: the asset at `paths[i]` is played by a node
    /// of the kind that plays assets of the type `types[i]`.
    ///
    /// Returns `None` where `types` does not hold one type for each path.
    pub fn outline(paths: &Vec<String>, types: &Vec<AssetType>) -> (descriptor: Option<Self>)
        ensures
            descriptor is Some <==> paths@.len() == types@.len(),
            descriptor matches Some(descriptor) ==> descriptor@ == spec_outline(
                texts(paths@),
                types@,
            ),
    {
        broadcast use lemma_descriptor_views_len, lemma_descriptor_views_index;

        if paths.len() != types.len() {
            return None;
        }
        let mut children: Vec<NodeDescriptor> = Vec::new();
        let mut i: usize = 0;
        while i < paths.len()
            invariant
                i <= paths@.len(),
                paths@.len() == types@.len(),
                children@.len() == i,
                forall|j: int|
                    0 <= j < i ==> (#[trigger] children@[j])@ == spec_player(paths@[j]@, types@[j]),
            decreases paths@.len() - i,
        {
            let player = NodeDescriptor::new(NodeKind::playing(types[i])).with_asset_path(
                paths[i].as_str(),
            );
            children.push(player);
            i = i + 1;
        }
        let descriptor = NodeDescriptor {
            kind: NodeKind::Mixer,
            node_id: None,
            asset_path: None,
            parameters: Vec::new(),
            children,
        };
        assert(descriptor@.children == descriptor_views(descriptor.children@));
        assert(texts(paths@).len() == paths@.len());
        assert forall|j: int| 0 <= j < paths@.len() implies #[trigger] descriptor@.children[j]
            == spec_player(texts(paths@)[j], types@[j]) by {
            assert(descriptor.children@[j]@ == spec_player(paths@[j]@, types@[j]));
        }
        assert(descriptor@.children =~= spec_outline(texts(paths@), types@).children);
        Some(descriptor)
    }

    /// Gives the node the identifier `node_id`.
    pub fn with_node_id(self, node_id: u64) -> (descriptor: Self)
        ensures
            descriptor@ == (DescriptorView { node_id: Some(node_id), ..self@ }),
    {
        NodeDescriptor { node_id: Some(node_id), ..self }
    }

    /// Lets the node play the asset at `path`.
    pub fn with_asset_path(self, path: &str) -> (descriptor: Self)
        ensures
            descriptor@ == (DescriptorView { asset_path: Some(path@), ..self@ }),
    {
        NodeDescriptor { asset_path: Some(path.to_owned()), ..self }
    }

    /// Adds `value` behind the parameters of the node.
    pub fn with_parameter(self, value: u32) -> (descriptor: Self)
        ensures
            descriptor@ == (DescriptorView { parameters: self@.parameters.push(value), ..self@ }),
    {
        let mut descriptor = self;
        descriptor.parameters.push(value);
        descriptor
    }

    /// Adds `child` behind the children of the node.
    pub fn with_child(self, child: NodeDescriptor) -> (descriptor: Self)
        ensures
            descriptor@ == (DescriptorView { children: self@.children.push(child@), ..self@ }),
    {
        broadcast use lemma_descriptor_views_len, lemma_descriptor_views_index;

        let mut descriptor = self;
        descriptor.children.push(child);
        assert(descriptor.children@.drop_last() =~= self.children@);
        assert(descriptor@.children == descriptor_views(descriptor.children@));
        assert(self@.children == descriptor_views(self.children@));
        descriptor
    }

    /// Returns the path of the asset that this node plays, if it names one.
    pub fn asset_source(&self) -> (path: Option<&String>)
        ensures
            match path {
                Some(path) => self@.asset_path == Some(path@),
                None => self@.asset_path is None,
            },
    {
        match &self.asset_path {
            Some(path) => Some(path),
            None => None,
        }
    }

    /// Returns the fault of this node alone, whatever stands below it.
    pub fn local_fault(&self) -> (fault: Option<ConfigError>)
        ensures
            fault == self@.local_fault(),
    {
        broadcast use lemma_descriptor_views_len;

        assert(self@.children == descriptor_views(self.children@));
        let plays = self.kind.asset_type();
        if plays.is_some() && self.asset_path.is_none() {
            Some(ConfigError::MissingAssetPath)
        } else if plays.is_none() && self.asset_path.is_some() {
            Some(ConfigError::UnexpectedAssetPath)
        } else if !self.kind.takes_children(self.children.len()) {
            Some(ConfigError::WrongChildCount)
        } else {
            match self.kind.number_fault() {
                Some(fault) => Some(fault),
                None => match (&self.kind, &self.node_id) {
                    (NodeKind::EventReceiver, None) => Some(ConfigError::MissingNodeId),
                    _ => None,
                },
            }
        }
    }

    /// Appends the asset paths of this tree to `sources`.
    fn collect_asset_sources(&self, sources: &mut Vec<String>)
        ensures
            texts(final(sources)@) == texts(old(sources)@) + self@.asset_sources(),
        decreases self,
    {
        broadcast use lemma_descriptor_views_len, lemma_descriptor_views_index;

        let ghost before = texts(sources@);
        match &self.asset_path {
            Some(path) => {
                let ghost row = sources@;
                sources.push(path.clone());
                assert(texts(sources@) =~= texts(row).push(path@));
            },
            None => {},
        }
        let ghost own = match self@.asset_path {
            Some(path) => seq![path],
            None => Seq::empty(),
        };
        assert(texts(sources@) =~= before + own);
        let mut i: usize = 0;
        assert(self.children@.take(0) =~= Seq::empty());
        while i < self.children.len()
            invariant
                i <= self.children@.len(),
                texts(sources@) == before + own + DescriptorView::asset_sources_of(
                    descriptor_views(self.children@.take(i as int)),
                ),
            decreases self.children@.len() - i,
        {
            let ghost row = texts(sources@);
            self.children[i].collect_asset_sources(sources);
            proof {
                let next = self.children@.take(i + 1);
                assert(next.drop_last() =~= self.children@.take(i as int));
                assert(next.last() == self.children@[i as int]);
                let views = descriptor_views(next);
                assert(views.drop_last() =~= descriptor_views(next.drop_last()));
                assert(views.last() == self.children@[i as int]@);
                assert(texts(sources@) =~= before + own + DescriptorView::asset_sources_of(views));
            }
            i = i + 1;
        }
        assert(self.children@.take(i as int) =~= self.children@);
        assert(texts(sources@) =~= before + self@.asset_sources());
    }

    /// Returns the asset paths of the tree in the order in which a
    /// depth-first walk meets them: a node before its children, the
    /// children from the first to the last.
    pub fn asset_sources(&self) -> (sources: Vec<String>)
        ensures
            texts(sources@) == self@.asset_sources(),
    {
        let mut sources: Vec<String> = Vec::new();
        assert(texts(sources@) =~= Seq::empty());
        self.collect_asset_sources(&mut sources);
        assert(Seq::<Seq<char>>::empty() + self@.asset_sources() =~= self@.asset_sources());
        sources
    }
}

} // verus!
