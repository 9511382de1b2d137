use bevy_midi_graph::{
    build, ControlMessage, Error, GraphAssetLoader, Node, NodeDescriptor, NodeKind,
    NodeState, Program,
};

fn of(kind: NodeKind) -> NodeDescriptor {
    NodeDescriptor::new(kind)
}

fn receiver(node_id: u64, child: NodeDescriptor) -> NodeDescriptor {
    of(NodeKind::EventReceiver).with_node_id(node_id).with_child(child)
}

fn voices(max_voices: usize) -> NodeDescriptor {
    of(NodeKind::Polyphony { max_voices }).with_child(of(NodeKind::Noise))
}

fn program() -> Program {
    let descriptor = of(NodeKind::Mixer)
        .with_child(receiver(1, voices(2)))
        .with_child(receiver(2, voices(2)));
    build(&descriptor, &GraphAssetLoader::new(vec![], vec![], vec![])).unwrap()
}

fn notes(node: &Node) -> Vec<u8> {
    match &node.state {
        NodeState::Voices(pool) => pool.notes(),
        other => panic!("unexpected state {:?}", other),
    }
}

fn on(note: u8) -> ControlMessage {
    ControlMessage::NoteOn { note, velocity: 90 }
}

#[test]
fn program_knows_its_mailboxes() {
    let program = program();
    assert!(program.has_channel(1));
    assert!(program.has_channel(2));
    assert!(!program.has_channel(3));
    assert_eq!(program.pending(1), Some(vec![]));
    assert_eq!(program.pending(3), None);
}

#[test]
fn sent_messages_wait_in_the_order_they_were_sent() {
    let mut program = program();
    assert_eq!(program.send(1, on(60)), Ok(()));
    assert_eq!(program.send(2, on(70)), Ok(()));
    assert_eq!(program.send(1, ControlMessage::NoteOff { note: 60 }), Ok(()));
    assert_eq!(program.pending(1), Some(vec![on(60), ControlMessage::NoteOff { note: 60 }]));
    assert_eq!(program.pending(2), Some(vec![on(70)]));
}

#[test]
fn sending_does_not_touch_the_tree() {
    let mut program = program();
    let root = program.root().duplicate();
    program.send(1, on(60)).unwrap();
    assert_eq!(program.root(), &root);
}

#[test]
fn program_refuses_a_message_for_an_unknown_node() {
    let mut sent = program();
    assert_eq!(sent.send(9, on(60)), Err(Error::UnknownNode(9)));
    assert_eq!(sent, program());
}

#[test]
fn block_hands_out_the_messages_and_empties_the_mailboxes() {
    let mut program = program();
    program.send(1, on(60)).unwrap();
    program.send(1, on(61)).unwrap();
    program.send(1, on(62)).unwrap();
    program.send(2, on(70)).unwrap();
    program.process_block(64);
    // Three notes on two voices, in the order they were sent: 60 was stolen.
    assert_eq!(notes(&program.root().children[0].children[0]), vec![61, 62]);
    assert_eq!(notes(&program.root().children[1].children[0]), vec![70]);
    assert_eq!(program.pending(1), Some(vec![]));
    assert_eq!(program.pending(2), Some(vec![]));
}

#[test]
fn messages_are_applied_once() {
    let mut program = program();
    program.send(1, on(60)).unwrap();
    program.process_block(64);
    program.process_block(64);
    assert_eq!(notes(&program.root().children[0].children[0]), vec![60]);
}

#[test]
fn program_has_one_mailbox_for_each_receiver() {
    let program = program();
    assert_eq!(program.root().receiver_ids(), vec![1, 2]);
    let bound: Vec<u64> = program.channels().iter().map(|channel| channel.node_id).collect();
    assert_eq!(bound, vec![1, 2]);
    let tree = program.into_root();
    assert_eq!(tree.kind, NodeKind::Mixer);
}

#[test]
fn mailboxes_are_kept_whatever_is_sent_and_played() {
    let mut program = program();
    for step in 0..20u8 {
        let _ = program.send(u64::from(step % 4), on(step));
        if step % 3 == 0 {
            program.process_block(16);
        }
        let bound: Vec<u64> = program.channels().iter().map(|channel| channel.node_id).collect();
        assert_eq!(bound, vec![1, 2]);
        assert_eq!(program.root().receiver_ids(), vec![1, 2]);
    }
}
