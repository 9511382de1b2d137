use bevy_midi_graph::{
    build, AssetData, AssetEntry, ControlMessage, EnvelopePhase, GraphAssetLoader, LoopRange, Node,
    NodeDescriptor, NodeKind, NodeOp, NodeState,
};

fn of(kind: NodeKind) -> NodeDescriptor {
    NodeDescriptor::new(kind)
}

fn receiver(node_id: u64, child: NodeDescriptor) -> NodeDescriptor {
    of(NodeKind::EventReceiver).with_node_id(node_id).with_child(child)
}

fn looped(start: usize, end: usize) -> NodeDescriptor {
    of(NodeKind::SamplePlayer { loop_range: Some(LoopRange::new_frame_range(start, end)) })
        .with_asset_path("kick.wav")
}

fn voices(max_voices: usize) -> NodeDescriptor {
    of(NodeKind::Polyphony { max_voices }).with_child(of(NodeKind::Noise))
}

fn tree(descriptor: NodeDescriptor) -> Node {
    let loader = GraphAssetLoader::new(
        vec![],
        vec![],
        vec![AssetEntry {
            path: "kick.wav".to_string(),
            data: AssetData::Ready(vec![1, 2, 3]),
            instruments: 0,
        }],
    );
    build(&descriptor, &loader).unwrap().into_root()
}

fn notes(node: &Node) -> Vec<u8> {
    match &node.state {
        NodeState::Voices(pool) => pool.notes(),
        other => panic!("unexpected state {:?}", other),
    }
}

fn position(node: &Node) -> usize {
    match &node.state {
        NodeState::Playback(cursor) => cursor.position,
        other => panic!("unexpected state {:?}", other),
    }
}

fn on(note: u8) -> ControlMessage {
    ControlMessage::NoteOn { note, velocity: 100 }
}

#[test]
fn set_id_binds_and_rebinds() {
    let mut node = tree(of(NodeKind::Noise));
    assert_eq!(node.node_id, None);
    node.set_id(5);
    assert_eq!(node.node_id, Some(5));
    node.set_id(6);
    assert_eq!(node.node_id, Some(6));
    assert_eq!(node.kind, NodeKind::Noise);
}

#[test]
fn delivered_message_reaches_every_node_below() {
    let mut root = tree(
        of(NodeKind::Mixer)
            .with_child(voices(2))
            .with_child(of(NodeKind::Mixer).with_child(voices(3))),
    );
    root.apply(NodeOp::Deliver(on(60)));
    assert_eq!(notes(&root.children[0]), vec![60]);
    assert_eq!(notes(&root.children[1].children[0]), vec![60]);
}

#[test]
fn routed_message_reaches_the_nodes_below_its_receiver_only() {
    let mut root = tree(
        of(NodeKind::Mixer)
            .with_child(receiver(1, voices(2)))
            .with_child(receiver(2, voices(2)))
            .with_child(voices(2)),
    );
    root.apply(NodeOp::Route(2, on(64)));
    assert_eq!(notes(&root.children[0].children[0]), Vec::<u8>::new());
    assert_eq!(notes(&root.children[1].children[0]), vec![64]);
    assert_eq!(notes(&root.children[2]), Vec::<u8>::new());
}

#[test]
fn routed_message_for_an_unknown_receiver_changes_nothing() {
    let descriptor = of(NodeKind::Mixer).with_child(receiver(1, voices(2)));
    let mut root = tree(descriptor);
    let before = root.duplicate();
    root.apply(NodeOp::Route(9, on(64)));
    assert_eq!(root, before);
}

#[test]
fn message_to_an_outer_receiver_passes_the_inner_ones() {
    let mut root = tree(receiver(1, of(NodeKind::Mixer).with_child(receiver(2, voices(2)))));
    root.apply(NodeOp::Route(1, on(50)));
    assert_eq!(notes(&root.children[0].children[0].children[0]), vec![50]);
    root.apply(NodeOp::Route(2, on(51)));
    assert_eq!(notes(&root.children[0].children[0].children[0]), vec![50, 51]);
}

#[test]
fn identifier_of_a_node_that_is_no_receiver_routes_nothing() {
    let mut root = tree(of(NodeKind::Mixer).with_node_id(3).with_child(voices(2)));
    root.apply(NodeOp::Route(3, on(50)));
    assert_eq!(notes(&root.children[0]), Vec::<u8>::new());
}

#[test]
fn each_kind_of_state_takes_its_own_messages() {
    let mut root = tree(
        of(NodeKind::Mixer)
            .with_child(voices(2))
            .with_child(looped(0, 10))
            .with_child(
                of(NodeKind::Envelope { attack: 5, decay: 5, release: 5 }).with_child(of(NodeKind::Noise)),
            ),
    );
    root.apply(NodeOp::Advance(7));
    root.apply(NodeOp::Deliver(ControlMessage::SeekWhenIdeal { target: 4 }));
    root.apply(NodeOp::Deliver(on(60)));
    root.apply(NodeOp::Deliver(ControlMessage::NoteOff { note: 60 }));
    assert_eq!(notes(&root.children[0]), Vec::<u8>::new());
    match &root.children[1].state {
        NodeState::Playback(cursor) => {
            assert_eq!(cursor.position, 7);
            assert_eq!(cursor.pending_seek, Some(4));
        }
        other => panic!("unexpected state {:?}", other),
    }
    match &root.children[2].state {
        NodeState::Envelope(clock) => {
            assert_eq!(clock.elapsed, 0);
            assert_eq!(clock.released_at, Some(0));
            assert_eq!(clock.phase(), EnvelopePhase::Release);
        }
        other => panic!("unexpected state {:?}", other),
    }
    assert_eq!(root.state, NodeState::Stateless);
}

#[test]
fn advance_plays_the_frames_at_every_node() {
    let mut root = tree(
        of(NodeKind::Mixer)
            .with_child(looped(0, 10))
            .with_child(of(NodeKind::Combiner).with_child(looped(2, 6))),
    );
    root.apply(NodeOp::Advance(13));
    assert_eq!(position(&root.children[0]), 3);
    // 6 frames to the first boundary, then rounds of 4: 7 = 4 + 3.
    assert_eq!(position(&root.children[1].children[0]), 5);
}

#[test]
fn duplicate_reads_the_same_and_shares_nothing() {
    let mut root = tree(
        of(NodeKind::Mixer)
            .with_parameter(3)
            .with_child(receiver(1, voices(2)))
            .with_child(looped(0, 10)),
    );
    root.apply(NodeOp::Route(1, on(60)));
    root.apply(NodeOp::Advance(4));
    let mut copy = root.duplicate();
    assert_eq!(copy, root);
    copy.apply(NodeOp::Route(1, on(61)));
    copy.apply(NodeOp::Advance(1));
    copy.children[1].data = Some(vec![]);
    assert_eq!(notes(&root.children[0].children[0]), vec![60]);
    assert_eq!(position(&root.children[1]), 4);
    assert_eq!(root.children[1].data, Some(vec![1, 2, 3]));
    assert_eq!(notes(&copy.children[0].children[0]), vec![60, 61]);
    assert_eq!(position(&copy.children[1]), 5);
}

#[test]
fn duplicates_stay_alike_under_the_same_messages() {
    let mut first = tree(receiver(1, of(NodeKind::Mixer).with_child(voices(2)).with_child(looped(0, 7))));
    let mut second = first.duplicate();
    let ops = [
        NodeOp::Route(1, on(60)),
        NodeOp::Advance(5),
        NodeOp::Route(1, ControlMessage::SeekWhenIdeal { target: 3 }),
        NodeOp::Route(1, on(61)),
        NodeOp::Route(1, on(62)),
        NodeOp::Advance(100),
        NodeOp::Route(1, ControlMessage::NoteOff { note: 62 }),
    ];
    for op in ops {
        first.apply(op);
        second.apply(op);
        assert_eq!(first, second);
    }
    assert_eq!(notes(&first.children[0].children[0]), vec![61]);
}

#[test]
fn state_receives_and_advances_on_its_own() {
    let mut root = tree(looped(0, 10));
    root.state.receive(ControlMessage::SeekWhenIdeal { target: 2 });
    root.state.advance(10);
    assert_eq!(position(&root), 2);
    let copy = root.state.duplicate();
    assert_eq!(copy, root.state);
}
