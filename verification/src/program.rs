use vstd::prelude::*;

use crate::error::Error;
use crate::first::{first_place, is_first, lemma_first_is_only, lemma_held_has_first};
use crate::message::ControlMessage;
use crate::node::{Node, NodeOp, NodeView};

verus! {

/// The mailbox of one event receiver: the messages sent to its identifier
/// that the render path has not taken yet, the oldest first.
#[derive(Debug, PartialEq, Eq)]
pub struct ControlChannel {
    pub node_id: u64,
    pub pending: Vec<ControlMessage>,
}

/// A mailbox as a mathematical value.
pub struct ChannelView {
    pub node_id: u64,
    pub pending: Seq<ControlMessage>,
}

impl View for ControlChannel {
    type V = ChannelView;

    open spec fn view(&self) -> ChannelView {
        ChannelView { node_id: self.node_id, pending: self.pending@ }
    }
}

/// The views of a row of mailboxes, in their order.
pub open spec fn channel_views(channels: Seq<ControlChannel>) -> Seq<ChannelView> {
    channels.map_values(|channel: ControlChannel| channel@)
}

/// A built graph with the mailboxes of its event receivers: what the mixer
/// stores and plays.
///
/// A program is made by the graph builder and by nothing else, so every
/// program has one mailbox for each event receiver of its tree and no two
/// mailboxes that are bound to one identifier.
#[derive(Debug, PartialEq, Eq)]
pub struct Program {
    root: Node,
    channels: Vec<ControlChannel>,
}

/// A program as a mathematical value.
pub struct ProgramView {
    pub root: NodeView,
    pub channels: Seq<ChannelView>,
}

impl View for Program {
    type V = ProgramView;

    closed spec fn view(&self) -> ProgramView {
        ProgramView { root: self.root@, channels: channel_views(self.channels@) }
    }
}

/// The identifiers that a row of mailboxes is bound to, in their order.
pub open spec fn channel_keys(channels: Seq<ChannelView>) -> Seq<u64> {
    channels.map_values(|channel: ChannelView| channel.node_id)
}

/// The tree after the event receiver `node_id` was handed `messages`, the
/// first of them first.
pub open spec fn deliver_pending(
    root: NodeView,
    node_id: u64,
    messages: Seq<ControlMessage>,
) -> NodeView
    decreases messages.len(),
{
    if messages.len() == 0 {
        root
    } else {
        deliver_pending(root, node_id, messages.drop_last()).apply(
            NodeOp::Route(node_id, messages.last()),
        )
    }
}

/// The tree after the messages of every mailbox were handed out, mailbox
/// after mailbox.
pub open spec fn deliver_all(root: NodeView, channels: Seq<ChannelView>) -> NodeView
    decreases channels.len(),
{
    if channels.len() == 0 {
        root
    } else {
        deliver_pending(
            deliver_all(root, channels.drop_last()),
            channels.last().node_id,
            channels.last().pending,
        )
    }
}

/// Handing out the messages of one mailbox keeps the voices of every node
/// within their bound.
pub proof fn lemma_deliver_pending_keeps_voices_within_bound(
    root: NodeView,
    node_id: u64,
    messages: Seq<ControlMessage>,
)
    requires
        root.voices_within_bound(),
    ensures
        deliver_pending(root, node_id, messages).voices_within_bound(),
    decreases messages.len(),
{
    if messages.len() > 0 {
        lemma_deliver_pending_keeps_voices_within_bound(root, node_id, messages.drop_last());
        deliver_pending(root, node_id, messages.drop_last()).lemma_apply_keeps_voices_within_bound(
            NodeOp::Route(node_id, messages.last()),
        );
    }
}

/// Handing out the messages of every mailbox keeps the voices of every node
/// within their bound.
pub proof fn lemma_deliver_all_keeps_voices_within_bound(root: NodeView, channels: Seq<ChannelView>)
    requires
        root.voices_within_bound(),
    ensures
        deliver_all(root, channels).voices_within_bound(),
    decreases channels.len(),
{
    if channels.len() > 0 {
        lemma_deliver_all_keeps_voices_within_bound(root, channels.drop_last());
        lemma_deliver_pending_keeps_voices_within_bound(
            deliver_all(root, channels.drop_last()),
            channels.last().node_id,
            channels.last().pending,
        );
    }
}

/// Handing out the messages of one mailbox leaves the tree its event
/// receivers.
pub proof fn lemma_deliver_pending_keeps_receivers(
    root: NodeView,
    node_id: u64,
    messages: Seq<ControlMessage>,
)
    ensures
        deliver_pending(root, node_id, messages).receiver_ids() == root.receiver_ids(),
    decreases messages.len(),
{
    if messages.len() > 0 {
        lemma_deliver_pending_keeps_receivers(root, node_id, messages.drop_last());
        deliver_pending(root, node_id, messages.drop_last()).lemma_apply_keeps_receivers(
            NodeOp::Route(node_id, messages.last()),
        );
    }
}

/// Handing out the messages of every mailbox leaves the tree its event
/// receivers.
pub proof fn lemma_deliver_all_keeps_receivers(root: NodeView, channels: Seq<ChannelView>)
    ensures
        deliver_all(root, channels).receiver_ids() == root.receiver_ids(),
    decreases channels.len(),
{
    if channels.len() > 0 {
        lemma_deliver_all_keeps_receivers(root, channels.drop_last());
        lemma_deliver_pending_keeps_receivers(
            deliver_all(root, channels.drop_last()),
            channels.last().node_id,
            channels.last().pending,
        );
    }
}

/// The mailboxes with nothing left in them.
pub open spec fn emptied(channels: Seq<ChannelView>) -> Seq<ChannelView> {
    channels.map_values(|channel: ChannelView| ChannelView { pending: Seq::empty(), ..channel })
}

impl ProgramView {
    /// Whether the program has one mailbox for each event receiver of its
    /// tree, in the order of a depth-first walk, and no two mailboxes that
    /// are bound to one identifier.
    pub open spec fn wf(self) -> bool {
        &&& self.channel_ids() == self.root.receiver_ids()
        &&& self.channel_ids().no_duplicates()
    }

    /// The identifiers that the mailboxes are bound to, in their order.
    pub open spec fn channel_ids(self) -> Seq<u64> {
        channel_keys(self.channels)
    }

    /// Whether a mailbox is bound to `node_id`.
    pub open spec fn has_channel(self, node_id: u64) -> bool {
        self.channel_ids().contains(node_id)
    }

    /// The messages that wait for `node_id`, the oldest first: those of the
    /// first mailbox that is bound to it.
    pub open spec fn pending(self, node_id: u64) -> Option<Seq<ControlMessage>> {
        if self.has_channel(node_id) {
            Some(self.channels[first_place(self.channel_ids(), node_id)].pending)
        } else {
            None
        }
    }

    /// The program after `message` was sent to `node_id`: the message is the
    /// last in the first mailbox that is bound to the identifier; a program
    /// without such a mailbox stays as it is.
    pub open spec fn send(self, node_id: u64, message: ControlMessage) -> ProgramView {
        if self.has_channel(node_id) {
            let i = first_place(self.channel_ids(), node_id);
            ProgramView {
                channels: self.channels.update(
                    i,
                    ChannelView { pending: self.channels[i].pending.push(message), ..self.channels[i] },
                ),
                ..self
            }
        } else {
            self
        }
    }

    /// The program after one block of `frames` frames: the waiting messages
    /// were handed out, mailbox after mailbox and in each the oldest message
    /// first, and then the frames were played.
    pub open spec fn process_block(self, frames: usize) -> ProgramView {
        ProgramView {
            root: deliver_all(self.root, self.channels).apply(NodeOp::Advance(frames)),
            channels: emptied(self.channels),
        }
    }
}

/// One thing that happens to a program while it is played.
pub enum ProgramStep {
    /// A message is sent to an event receiver.
    Send(u64, ControlMessage),
    /// A block of so many frames is rendered.
    Block(usize),
}

impl ProgramView {
    /// The program after one thing happened to it.
    pub open spec fn step(self, step: ProgramStep) -> ProgramView {
        match step {
            ProgramStep::Send(node_id, message) => self.send(node_id, message),
            ProgramStep::Block(frames) => self.process_block(frames),
        }
    }

    /// The program after `steps` happened to it, the first of them first.
    pub open spec fn run(self, steps: Seq<ProgramStep>) -> ProgramView
        decreases steps.len(),
    {
        if steps.len() == 0 {
            self
        } else {
            self.run(steps.drop_last()).step(steps.last())
        }
    }

    /// A message that was sent waits in its mailbox behind those sent
    /// before, and the tree is left alone until the next block.
    pub proof fn lemma_send_queues(self, node_id: u64, message: ControlMessage)
        requires
            self.has_channel(node_id),
        ensures
            self.send(node_id, message).root == self.root,
            self.send(node_id, message).pending(node_id) == Some(
                self.pending(node_id).unwrap().push(message),
            ),
            self.send(node_id, message).channel_ids() == self.channel_ids(),
    {
        let i = first_place(self.channel_ids(), node_id);
        lemma_held_has_first(self.channel_ids(), node_id);
        let sent = self.send(node_id, message);
        assert(sent.channel_ids() =~= self.channel_ids());
        lemma_first_is_only(sent.channel_ids(), node_id, i);
    }

    /// Whatever is sent to a program and however it is played, it keeps one
    /// mailbox for each of its event receivers, and no two mailboxes that
    /// are bound to one identifier.
    pub proof fn lemma_step_keeps_mailboxes(self, step: ProgramStep)
        requires
            self.wf(),
        ensures
            self.step(step).wf(),
            self.step(step).channel_ids() == self.channel_ids(),
    {
        match step {
            ProgramStep::Send(node_id, message) => {
                if self.has_channel(node_id) {
                    lemma_held_has_first(self.channel_ids(), node_id);
                }
                assert(self.send(node_id, message).channel_ids() =~= self.channel_ids());
            },
            ProgramStep::Block(frames) => {
                lemma_deliver_all_keeps_receivers(self.root, self.channels);
                deliver_all(self.root, self.channels).lemma_apply_keeps_receivers(
                    NodeOp::Advance(frames),
                );
                assert(self.process_block(frames).channel_ids() =~= self.channel_ids());
            },
        }
    }

    /// Whether no node of the program sounds more voices than its bound
    /// allows.
    pub open spec fn voices_within_bound(self) -> bool {
        self.root.voices_within_bound()
    }

    /// However many notes are sent to a program, and in whatever blocks it
    /// is played, no node of it ever sounds more voices than its bound
    /// allows.
    pub proof fn lemma_run_keeps_voices_within_bound(self, steps: Seq<ProgramStep>)
        requires
            self.voices_within_bound(),
        ensures
            self.run(steps).voices_within_bound(),
        decreases steps.len(),
    {
        if steps.len() > 0 {
            self.lemma_run_keeps_voices_within_bound(steps.drop_last());
            let before = self.run(steps.drop_last());
            match steps.last() {
                ProgramStep::Send(node_id, message) => {},
                ProgramStep::Block(frames) => {
                    lemma_deliver_all_keeps_voices_within_bound(before.root, before.channels);
                    deliver_all(before.root, before.channels).lemma_apply_keeps_voices_within_bound(
                        NodeOp::Advance(frames),
                    );
                },
            }
        }
    }

    /// A block leaves no message waiting: whatever was sent before the block
    /// has been handed out when the block is done.
    pub proof fn lemma_block_empties_mailboxes(self, frames: usize, node_id: u64)
        requires
            self.has_channel(node_id),
        ensures
            self.process_block(frames).pending(node_id) == Some(Seq::<ControlMessage>::empty()),
            self.process_block(frames).channel_ids() == self.channel_ids(),
    {
        let after = self.process_block(frames);
        assert(after.channel_ids() =~= self.channel_ids());
        lemma_held_has_first(after.channel_ids(), node_id);
    }
}

impl Program {
    /// Puts a tree and the mailboxes that the builder made for it together.
    pub(crate) fn assemble(root: Node, channels: Vec<ControlChannel>) -> (program: Self)
        ensures
            program@ == (ProgramView { root: root@, channels: channel_views(channels@) }),
    {
        Program { root, channels }
    }

    /// Returns the tree of the program.
    pub fn root(&self) -> (root: &Node)
        ensures
            root@ == self@.root,
    {
        &self.root
    }

    /// Returns the mailboxes of the program, in their order.
    pub fn channels(&self) -> (channels: &Vec<ControlChannel>)
        ensures
            channel_views(channels@) == self@.channels,
    {
        &self.channels
    }

    /// Gives up the program for its tree.
    pub fn into_root(self) -> (root: Node)
        ensures
            root@ == self@.root,
    {
        self.root
    }

    /// Finds the first mailbox that is bound to `node_id`.
    fn find_channel(&self, node_id: u64) -> (found: Option<usize>)
        ensures
            match found {
                Some(i) => is_first(self@.channel_ids(), node_id, i as int),
                None => !self@.has_channel(node_id),
            },
    {
        let mut i: usize = 0;
        while i < self.channels.len()
            invariant
                i <= self.channels@.len(),
                forall|j: int| 0 <= j < i ==> (#[trigger] self@.channels[j]).node_id != node_id,
            decreases self.channels@.len() - i,
        {
            if self.channels[i].node_id == node_id {
                return Some(i);
            }
            i = i + 1;
        }
        None
    }

    /// Tells whether a mailbox is bound to `node_id`.
    pub fn has_channel(&self, node_id: u64) -> (found: bool)
        ensures
            found == self@.has_channel(node_id),
    {
        match self.find_channel(node_id) {
            Some(i) => {
                proof {
                    lemma_first_is_only(self@.channel_ids(), node_id, i as int);
                }
                true
            },
            None => false,
        }
    }

    /// Queues `message` for the event receiver `node_id`; the render path
    /// takes it with the next block. Fails, and changes nothing, where no
    /// mailbox is bound to the identifier.
    pub fn send(&mut self, node_id: u64, message: ControlMessage) -> (result: Result<(), Error>)
        ensures
            result == if old(self)@.has_channel(node_id) {
                Ok::<(), Error>(())
            } else {
                Err::<(), Error>(Error::UnknownNode(node_id))
            },
            final(self)@ == old(self)@.send(node_id, message),
            result is Err ==> *final(self) == *old(self),
            old(self)@.wf() ==> final(self)@.wf(),
    {
        proof {
            if old(self)@.wf() {
                old(self)@.lemma_step_keeps_mailboxes(ProgramStep::Send(node_id, message));
            }
        }
        match self.find_channel(node_id) {
            Some(i) => {
                proof {
                    lemma_first_is_only(self@.channel_ids(), node_id, i as int);
                }
                self.channels[i].pending.push(message);
                assert(self@.channels =~= old(self)@.send(node_id, message).channels);
                Ok(())
            },
            None => Err(Error::UnknownNode(node_id)),
        }
    }

    /// Returns the messages that wait for `node_id`, the oldest first, or
    /// `None` where no mailbox is bound to the identifier.
    pub fn pending(&self, node_id: u64) -> (waiting: Option<Vec<ControlMessage>>)
        ensures
            match waiting {
                Some(messages) => self@.pending(node_id) == Some(messages@),
                None => self@.pending(node_id) is None,
            },
    {
        match self.find_channel(node_id) {
            Some(i) => {
                proof {
                    lemma_first_is_only(self@.channel_ids(), node_id, i as int);
                }
                let messages = self.channels[i].pending.clone();
                assert(messages@ =~= self.channels[i as int].pending@);
                Some(messages)
            },
            None => None,
        }
    }

    /// Renders the control side of one block of `frames` frames: hands the
    /// waiting messages to the event receivers they were sent to, mailbox
    /// after mailbox and in each the oldest message first, and then plays the
    /// frames. Every mailbox is empty afterwards.
    pub fn process_block(&mut self, frames: usize)
        ensures
            final(self)@ == old(self)@.process_block(frames),
            old(self)@.wf() ==> final(self)@.wf(),
    {
        proof {
            if old(self)@.wf() {
                old(self)@.lemma_step_keeps_mailboxes(ProgramStep::Block(frames));
            }
        }
        let mut i: usize = 0;
        while i < self.channels.len()
            invariant
                i <= self.channels@.len(),
                self.channels@.len() == old(self).channels@.len(),
                self.root@ == deliver_all(old(self)@.root, old(self)@.channels.take(i as int)),
                forall|j: int|
                    0 <= j < i ==> (#[trigger] self.channels@[j])@ == (ChannelView {
                        pending: Seq::empty(),
                        ..old(self).channels@[j]@
                    }),
                forall|j: int|
                    i <= j < self.channels@.len() ==> #[trigger] self.channels@[j] == old(
                        self,
                    ).channels@[j],
            decreases self.channels@.len() - i,
        {
            let node_id = self.channels[i].node_id;
            let ghost before = self.root@;
            let ghost messages = self.channels@[i as int].pending@;
            let mut k: usize = 0;
            while k < self.channels[i].pending.len()
                invariant
                    i < self.channels@.len(),
                    self.channels@.len() == old(self).channels@.len(),
                    k <= messages.len(),
                    messages == self.channels@[i as int].pending@,
                    node_id == self.channels@[i as int].node_id,
                    self.root@ == deliver_pending(before, node_id, messages.take(k as int)),
                    forall|j: int|
                        0 <= j < i ==> (#[trigger] self.channels@[j])@ == (ChannelView {
                            pending: Seq::empty(),
                            ..old(self).channels@[j]@
                        }),
                    forall|j: int|
                        i <= j < self.channels@.len() ==> #[trigger] self.channels@[j] == old(
                            self,
                        ).channels@[j],
                decreases messages.len() - k,
            {
                let message = self.channels[i].pending[k];
                proof {
                    assert(messages.take(k + 1).drop_last() =~= messages.take(k as int));
                    assert(messages.take(k + 1).last() == message);
                }
                self.root.apply(NodeOp::Route(node_id, message));
                k = k + 1;
            }
            proof {
                assert(messages.take(k as int) =~= messages);
                let done = old(self)@.channels.take(i + 1);
                assert(done.drop_last() =~= old(self)@.channels.take(i as int));
                assert(done.last() == old(self).channels@[i as int]@);
            }
            self.channels[i].pending = Vec::new();
            i = i + 1;
        }
        assert(old(self)@.channels.take(i as int) =~= old(self)@.channels);
        self.root.apply(NodeOp::Advance(frames));
        assert(self@.channels =~= emptied(old(self)@.channels));
    }
}

} // verus!
