use vstd::prelude::*;

use crate::descriptor::NodeKind;
use crate::envelope::EnvelopeClock;
use crate::message::ControlMessage;
use crate::playback::LoopCursor;
use crate::voice::{PoolView, VoicePool};

verus! {

/// What a node keeps between two blocks besides its signal state.
#[derive(Debug, PartialEq, Eq)]
pub enum NodeState {
    /// The node keeps nothing that the control path reads.
    Stateless,
    /// The place of a sample player or of a sequence in its data.
    Playback(LoopCursor),
    /// The voices of a polyphonic node.
    Voices(VoicePool),
    /// The time of an envelope.
    Envelope(EnvelopeClock),
}

/// The state of a node as a mathematical value.
pub enum NodeStateView {
    Stateless,
    Playback(LoopCursor),
    Voices(PoolView),
    Envelope(EnvelopeClock),
}

impl View for NodeState {
    type V = NodeStateView;

    open spec fn view(&self) -> NodeStateView {
        match self {
            NodeState::Stateless => NodeStateView::Stateless,
            NodeState::Playback(cursor) => NodeStateView::Playback(*cursor),
            NodeState::Voices(pool) => NodeStateView::Voices(pool@),
            NodeState::Envelope(clock) => NodeStateView::Envelope(*clock),
        }
    }
}

/// What a walk over a tree of nodes does at each node.
#[derive(Debug, Clone, Copy, PartialEq, Eq)]
pub enum NodeOp {
    /// Hand the message to the node and to every node below it.
    Deliver(ControlMessage),
    /// Look for the event receiver with the given identifier and hand the
    /// message to every node below it.
    Route(u64, ControlMessage),
    /// Play the given number of frames.
    Advance(usize),
}

impl NodeStateView {
    /// The state after the node was handed `message`: a polyphonic node
    /// and an envelope start and let go notes, a sample player and a
    /// sequence note down a seek, and any other message leaves the state
    /// as it is.
    pub open spec fn receive(self, message: ControlMessage) -> NodeStateView {
        match (self, message) {
            (NodeStateView::Envelope(clock), ControlMessage::NoteOn { .. }) => NodeStateView::Envelope(
                clock.spec_note_on(),
            ),
            (NodeStateView::Envelope(clock), ControlMessage::NoteOff { .. }) => NodeStateView::Envelope(
                clock.spec_note_off(),
            ),
            (NodeStateView::Voices(pool), ControlMessage::NoteOn { note, .. }) => NodeStateView::Voices(
                pool.note_on(note),
            ),
            (NodeStateView::Voices(pool), ControlMessage::NoteOff { note }) => NodeStateView::Voices(
                pool.note_off(note),
            ),
            (
                NodeStateView::Playback(cursor),
                ControlMessage::SeekWhenIdeal { target },
            ) => NodeStateView::Playback(cursor.spec_seek_when_ideal(target)),
            _ => self,
        }
    }

    /// The state after `frames` frames were played.
    pub open spec fn advance(self, frames: nat) -> NodeStateView {
        match self {
            NodeStateView::Playback(cursor) => NodeStateView::Playback(cursor.spec_advance(frames)),
            NodeStateView::Envelope(clock) => NodeStateView::Envelope(clock.spec_advance(frames)),
            _ => self,
        }
    }

    /// Whether the voices of the node, if it has any, are within their
    /// bound.
    pub open spec fn voices_within_bound(self) -> bool {
        self matches NodeStateView::Voices(pool) ==> pool.within_bound()
    }

    /// The bound on the voices of the node, if it has voices.
    pub open spec fn max_voices(self) -> Option<nat> {
        match self {
            NodeStateView::Voices(pool) => Some(pool.max_voices),
            _ => None,
        }
    }

    /// Whatever the walk does at a node, its voices stay within their bound,
    /// and the bound stays what it was.
    pub proof fn lemma_apply_keeps_voices_within_bound(self, op: NodeOp)
        requires
            self.voices_within_bound(),
        ensures
            self.apply(op).voices_within_bound(),
            self.apply(op).max_voices() == self.max_voices(),
    {
        if let NodeStateView::Voices(pool) = self {
            if let NodeOp::Deliver(message) = op {
                match message {
                    ControlMessage::NoteOn { note, .. } => {
                        pool.lemma_note_on_within_bound(note);
                    },
                    ControlMessage::NoteOff { note } => {
                        pool.lemma_note_off_within_bound(note);
                    },
                    _ => {},
                }
            }
        }
    }

    /// The state after the walk has passed the node.
    pub open spec fn apply(self, op: NodeOp) -> NodeStateView {
        match op {
            NodeOp::Deliver(message) => self.receive(message),
            NodeOp::Route(_, _) => self,
            NodeOp::Advance(frames) => self.advance(frames as nat),
        }
    }
}

impl NodeState {
    /// Hands `message` to the node.
    pub fn receive(&mut self, message: ControlMessage)
        ensures
            final(self)@ == old(self)@.receive(message),
    {
        match self {
            NodeState::Voices(pool) => match message {
                ControlMessage::NoteOn { note, velocity: _ } => {
                    pool.note_on(note);
                },
                ControlMessage::NoteOff { note } => {
                    pool.note_off(note);
                },
                _ => {},
            },
            NodeState::Playback(cursor) => match message {
                ControlMessage::SeekWhenIdeal { target } => {
                    cursor.seek_when_ideal(target);
                },
                _ => {},
            },
            NodeState::Envelope(clock) => match message {
                ControlMessage::NoteOn { note: _, velocity: _ } => {
                    clock.note_on();
                },
                ControlMessage::NoteOff { note: _ } => {
                    clock.note_off();
                },
                _ => {},
            },
            NodeState::Stateless => {},
        }
    }

    /// Plays `frames` frames.
    pub fn advance(&mut self, frames: usize)
        ensures
            final(self)@ == old(self)@.advance(frames as nat),
    {
        match self {
            NodeState::Playback(cursor) => {
                cursor.advance(frames);
            },
            NodeState::Envelope(clock) => {
                clock.advance(frames);
            },
            _ => {},
        }
    }

    /// Makes a state of its own that reads the same.
    pub fn duplicate(&self) -> (copy: Self)
        ensures
            copy@ == self@,
    {
        match self {
            NodeState::Stateless => NodeState::Stateless,
            NodeState::Playback(cursor) => NodeState::Playback(*cursor),
            NodeState::Voices(pool) => NodeState::Voices(pool.duplicate()),
            NodeState::Envelope(clock) => NodeState::Envelope(*clock),
        }
    }
}

/// One node of a built graph with the nodes below it, which it owns.
///
/// `data` holds the bytes of the asset that the node plays. Numbers that only
/// the signal path reads are carried in `parameters` as they were given.
#[derive(Debug, PartialEq, Eq)]
pub struct Node {
    pub kind: NodeKind,
    pub node_id: Option<u64>,
    pub data: Option<Vec<u8>>,
    pub parameters: Vec<u32>,
    pub state: NodeState,
    pub children: Vec<Node>,
}

/// A built node as a mathematical tree.
pub struct NodeView {
    pub kind: NodeKind,
    pub node_id: Option<u64>,
    pub data: Option<Seq<u8>>,
    pub parameters: Seq<u32>,
    pub state: NodeStateView,
    pub children: Seq<NodeView>,
}

/// The bytes of data that may be absent.
pub open spec fn data_view(data: Option<Vec<u8>>) -> Option<Seq<u8>> {
    match data {
        Some(bytes) => Some(bytes@),
        None => None,
    }
}

/// The views of a row of nodes, in their order.
pub open spec fn node_views(nodes: Seq<Node>) -> Seq<NodeView>
    decreases nodes,
{
    if nodes.len() == 0 {
        Seq::empty()
    } else {
        node_views(nodes.drop_last()).push(nodes.last().model())
    }
}

impl Node {
    /// The tree that this node stands for.
    pub open spec fn model(self) -> NodeView
        decreases self,
    {
        NodeView {
            kind: self.kind,
            node_id: self.node_id,
            data: data_view(self.data),
            parameters: self.parameters@,
            state: self.state@,
            children: node_views(self.children@),
        }
    }
}

impl View for Node {
    type V = NodeView;

    open spec fn view(&self) -> NodeView {
        self.model()
    }
}

/// A row of nodes has as many views as it has items.
pub broadcast proof fn lemma_node_views_len(nodes: Seq<Node>)
    ensures
        #[trigger] node_views(nodes).len() == nodes.len(),
    decreases nodes.len(),
{
    if nodes.len() > 0 {
        lemma_node_views_len(nodes.drop_last());
    }
}

/// The view at a place of a row is the view of the node at that place.
pub broadcast proof fn lemma_node_views_index(nodes: Seq<Node>, i: int)
    requires
        0 <= i < nodes.len(),
    ensures
        #[trigger] node_views(nodes)[i] == nodes[i]@,
    decreases nodes.len(),
{
    lemma_node_views_len(nodes.drop_last());
    if i < nodes.len() - 1 {
        lemma_node_views_index(nodes.drop_last(), i);
    }
}

impl NodeView {
    /// Whether this node is the event receiver addressed by `node_id`.
    pub open spec fn is_receiver(self, node_id: u64) -> bool {
        self.kind is EventReceiver && self.node_id == Some(node_id)
    }

    /// What the walk does below this node: under the event receiver it looks
    /// for it delivers, anywhere else it goes on as it came.
    pub open spec fn below(self, op: NodeOp) -> NodeOp {
        match op {
            NodeOp::Route(node_id, message) if self.is_receiver(node_id) => NodeOp::Deliver(
                message,
            ),
            _ => op,
        }
    }

    /// The tree after the walk has passed it.
    pub open spec fn apply(self, op: NodeOp) -> NodeView
        decreases self,
    {
        NodeView {
            state: self.state.apply(op),
            children: Self::apply_all(self.children, self.below(op)),
            ..self
        }
    }

    /// A row of trees after the walk has passed each of them.
    pub open spec fn apply_all(trees: Seq<NodeView>, op: NodeOp) -> Seq<NodeView>
        decreases trees,
    {
        if trees.len() == 0 {
            Seq::empty()
        } else {
            Self::apply_all(trees.drop_last(), op).push(trees.last().apply(op))
        }
    }

    /// Whether the bound on the voices of this node is the number that its
    /// kind names.
    pub open spec fn bound_as_described(self) -> bool {
        match self.kind {
            NodeKind::Polyphony { max_voices } => self.state.max_voices() == Some(max_voices as nat),
            NodeKind::SoundFont { voices, .. } => self.state.max_voices() == Some(voices as nat),
            _ => true,
        }
    }

    /// Whether no node of the tree sounds more voices than its bound
    /// allows, the bound of a polyphonic node being the number that its kind
    /// names.
    pub open spec fn voices_within_bound(self) -> bool
        decreases self,
    {
        &&& self.state.voices_within_bound()
        &&& self.bound_as_described()
        &&& forall|i: int|
            0 <= i < self.children.len() ==> (#[trigger] self.children[i]).voices_within_bound()
    }

    /// Whatever messages reach a tree and however many frames it plays, no
    /// node of it comes to sound more voices than its bound allows.
    pub proof fn lemma_apply_keeps_voices_within_bound(self, op: NodeOp)
        requires
            self.voices_within_bound(),
        ensures
            self.apply(op).voices_within_bound(),
        decreases self,
    {
        broadcast use lemma_apply_all_len, lemma_apply_all_index;

        self.state.lemma_apply_keeps_voices_within_bound(op);
        let after = self.apply(op);
        assert(after.children == NodeView::apply_all(self.children, self.below(op)));
        assert(after.children.len() == self.children.len());
        assert forall|i: int| 0 <= i < after.children.len() implies (
        #[trigger] after.children[i]).voices_within_bound() by {
            assert(self.children[i].voices_within_bound());
            self.children[i].lemma_apply_keeps_voices_within_bound(self.below(op));
        }
    }

    /// Whatever the walk does, the tree keeps its event receivers: their
    /// identifiers and their order.
    pub proof fn lemma_apply_keeps_receivers(self, op: NodeOp)
        ensures
            self.apply(op).receiver_ids() == self.receiver_ids(),
        decreases self,
    {
        Self::lemma_apply_all_keeps_receivers(self.children, self.below(op));
    }

    /// Whatever the walk does, a row of trees keeps its event receivers.
    pub proof fn lemma_apply_all_keeps_receivers(trees: Seq<NodeView>, op: NodeOp)
        ensures
            Self::receiver_ids_of(Self::apply_all(trees, op)) == Self::receiver_ids_of(trees),
        decreases trees,
    {
        if trees.len() > 0 {
            let after = Self::apply_all(trees, op);
            assert(after.drop_last() =~= Self::apply_all(trees.drop_last(), op));
            assert(after.last() == trees.last().apply(op));
            Self::lemma_apply_all_keeps_receivers(trees.drop_last(), op);
            trees.last().lemma_apply_keeps_receivers(op);
        }
    }

    /// The identifiers of the event receivers of the tree, in the order in
    /// which a depth-first walk meets them.
    pub open spec fn receiver_ids(self) -> Seq<u64>
        decreases self,
    {
        let own = match (self.kind, self.node_id) {
            (NodeKind::EventReceiver, Some(node_id)) => seq![node_id],
            _ => Seq::empty(),
        };
        own + Self::receiver_ids_of(self.children)
    }

    /// The identifiers of the event receivers of a row of trees.
    pub open spec fn receiver_ids_of(trees: Seq<NodeView>) -> Seq<u64>
        decreases trees,
    {
        if trees.len() == 0 {
            Seq::empty()
        } else {
            Self::receiver_ids_of(trees.drop_last()) + trees.last().receiver_ids()
        }
    }
}

/// The walk leaves a row as long as it was.
pub broadcast proof fn lemma_apply_all_len(trees: Seq<NodeView>, op: NodeOp)
    ensures
        #[trigger] NodeView::apply_all(trees, op).len() == trees.len(),
    decreases trees.len(),
{
    if trees.len() > 0 {
        lemma_apply_all_len(trees.drop_last(), op);
    }
}

/// The walk passes each tree of a row on its own.
pub broadcast proof fn lemma_apply_all_index(trees: Seq<NodeView>, op: NodeOp, i: int)
    requires
        0 <= i < trees.len(),
    ensures
        #[trigger] NodeView::apply_all(trees, op)[i] == trees[i].apply(op),
    decreases trees.len(),
{
    lemma_apply_all_len(trees.drop_last(), op);
    if i < trees.len() - 1 {
        lemma_apply_all_index(trees.drop_last(), op, i);
    }
}

impl Node {
    /// Binds the node to `node_id`, whatever it was bound to.
    pub fn set_id(&mut self, node_id: u64)
        ensures
            final(self)@ == (NodeView { node_id: Some(node_id), ..old(self)@ }),
    {
        self.node_id = Some(node_id);
    }

    /// Walks the tree, the node before its children, and does at each node
    /// what `op` asks for.
    pub fn apply(&mut self, op: NodeOp)
        ensures
            final(self)@ == old(self)@.apply(op),
        decreases *old(self),
    {
        broadcast use
            lemma_node_views_len,
            lemma_node_views_index,
            lemma_apply_all_len,
            lemma_apply_all_index,
        ;

        let below = match (op, &self.kind, self.node_id) {
            (NodeOp::Route(wanted, message), NodeKind::EventReceiver, Some(node_id)) => if node_id
                == wanted {
                NodeOp::Deliver(message)
            } else {
                op
            },
            _ => op,
        };
        assert(below == old(self)@.below(op));
        match op {
            NodeOp::Deliver(message) => {
                self.state.receive(message);
            },
            NodeOp::Route(_, _) => {},
            NodeOp::Advance(frames) => {
                self.state.advance(frames);
            },
        }
        let mut i: usize = 0;
        while i < self.children.len()
            invariant
                i <= self.children@.len(),
                self.children@.len() == old(self).children@.len(),
                self.kind == old(self).kind,
                self.node_id == old(self).node_id,
                self.data == old(self).data,
                self.parameters == old(self).parameters,
                self.state@ == old(self)@.state.apply(op),
                forall|j: int| 0 <= j < i ==> (#[trigger] self.children@[j])@ == old(
                    self,
                ).children@[j]@.apply(below),
                forall|j: int|
                    i <= j < self.children@.len() ==> #[trigger] self.children@[j] == old(
                        self,
                    ).children@[j],
            decreases self.children@.len() - i,
        {
            self.children[i].apply(below);
            i = i + 1;
        }
        assert(node_views(self.children@) =~= NodeView::apply_all(
            node_views(old(self).children@),
            below,
        ));
    }

    /// Appends the identifiers of the event receivers of this tree to `ids`.
    fn collect_receiver_ids(&self, ids: &mut Vec<u64>)
        ensures
            final(ids)@ == old(ids)@ + self@.receiver_ids(),
        decreases self,
    {
        broadcast use lemma_node_views_len, lemma_node_views_index;

        let ghost before = ids@;
        match (&self.kind, self.node_id) {
            (NodeKind::EventReceiver, Some(node_id)) => {
                ids.push(node_id);
            },
            _ => {},
        }
        let ghost own = match (self@.kind, self@.node_id) {
            (NodeKind::EventReceiver, Some(node_id)) => seq![node_id],
            _ => Seq::empty(),
        };
        assert(ids@ =~= before + own);
        let mut i: usize = 0;
        assert(self.children@.take(0) =~= Seq::empty());
        while i < self.children.len()
            invariant
                i <= self.children@.len(),
                ids@ == before + own + NodeView::receiver_ids_of(
                    node_views(self.children@.take(i as int)),
                ),
            decreases self.children@.len() - i,
        {
            self.children[i].collect_receiver_ids(ids);
            proof {
                let next = self.children@.take(i + 1);
                assert(next.drop_last() =~= self.children@.take(i as int));
                assert(next.last() == self.children@[i as int]);
                let views = node_views(next);
                assert(views.drop_last() =~= node_views(next.drop_last()));
                assert(views.last() == self.children@[i as int]@);
                assert(ids@ =~= before + own + NodeView::receiver_ids_of(views));
            }
            i = i + 1;
        }
        assert(self.children@.take(i as int) =~= self.children@);
        assert(ids@ =~= before + self@.receiver_ids());
    }

    /// Returns the identifiers of the event receivers of the tree in the
    /// order in which a depth-first walk meets them: a node before its
    /// children, the children from the first to the last.
    pub fn receiver_ids(&self) -> (ids: Vec<u64>)
        ensures
            ids@ == self@.receiver_ids(),
    {
        let mut ids: Vec<u64> = Vec::new();
        self.collect_receiver_ids(&mut ids);
        assert(Seq::<u64>::empty() + self@.receiver_ids() =~= self@.receiver_ids());
        ids
    }

    /// Makes a tree of its own that reads the same: no part of the copy is
    /// shared with this tree.
    pub fn duplicate(&self) -> (copy: Node)
        ensures
            copy@ == self@,
        decreases self,
    {
        broadcast use lemma_node_views_len, lemma_node_views_index;

        let data = match &self.data {
            Some(bytes) => {
                let copy = bytes.clone();
                assert(copy@ =~= bytes@);
                Some(copy)
            },
            None => None,
        };
        let parameters = self.parameters.clone();
        assert(parameters@ =~= self.parameters@);
        let mut children: Vec<Node> = Vec::new();
        let mut i: usize = 0;
        while i < self.children.len()
            invariant
                i <= self.children@.len(),
                children@.len() == i,
                forall|j: int| 0 <= j < i ==> (#[trigger] children@[j])@ == self.children@[j]@,
            decreases self.children@.len() - i,
        {
            let child = self.children[i].duplicate();
            children.push(child);
            i = i + 1;
        }
        assert(node_views(children@) =~= node_views(self.children@));
        Node {
            kind: self.kind,
            node_id: self.node_id,
            data,
            parameters,
            state: self.state.duplicate(),
            children,
        }
    }
}

} // verus!
