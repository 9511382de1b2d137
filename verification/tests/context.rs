use bevy_midi_graph::{
    AssetData, AssetEntry, AudioContextState, ConfigError, ControlMessage, Error, GraphAssetLoader,
    LoadingStep, LoopRange, MidiGraph, MidiGraphAudioContext, NodeDescriptor, NodeKind, NodeState,
    UnresolvedAssetError,
};

fn of(kind: NodeKind) -> NodeDescriptor {
    NodeDescriptor::new(kind)
}

fn kick(data: AssetData) -> GraphAssetLoader {
    GraphAssetLoader::new(
        vec![],
        vec![],
        vec![
            AssetEntry { path: "kick.wav".to_string(), data, instruments: 0 },
            AssetEntry { path: "kick".to_string(), data: AssetData::Ready(vec![1]), instruments: 0 },
        ],
    )
}

fn ready() -> GraphAssetLoader {
    kick(AssetData::Ready(vec![0; 16]))
}

/// Mixer(SquareWave(amplitude = 0.5, note = 69), SampleLoop("kick.wav", 0..4410)).
fn square_and_loop() -> NodeDescriptor {
    of(NodeKind::Mixer)
        .with_child(of(NodeKind::SquareWave).with_parameter(0.5f32.to_bits()).with_parameter(69))
        .with_child(
            of(NodeKind::SamplePlayer { loop_range: Some(LoopRange::new_frame_range(0, 4410)) })
                .with_asset_path("kick.wav"),
        )
}

fn receiver(node_id: u64) -> NodeDescriptor {
    of(NodeKind::EventReceiver)
        .with_node_id(node_id)
        .with_child(of(NodeKind::Polyphony { max_voices: 2 }).with_child(of(NodeKind::Noise)))
}

fn running(result: Result<(), Error>) -> LoadingStep {
    LoadingStep { next_state: Some(AudioContextState::Running), result }
}

#[test]
fn default_context_is_empty() {
    let context = MidiGraphAudioContext::default();
    assert_eq!(context.current_program_id(), None);
    assert_eq!(context.loading_program(), None);
    assert_eq!(context.program(1), None);
}

#[test]
fn build_store_activate_leaves_the_stored_number_current() {
    for config in [square_and_loop(), receiver(3), of(NodeKind::Noise)] {
        let mut context = MidiGraphAudioContext::default();
        assert_eq!(context.store_new_program(4, &config, &ready()), Ok(false));
        assert_eq!(context.change_program(4), Ok(()));
        assert_eq!(context.current_program_id(), Some(4));
    }
}

#[test]
fn store_new_program_tells_whether_it_replaced_one() {
    let mut context = MidiGraphAudioContext::default();
    assert_eq!(context.store_new_program(1, &receiver(3), &ready()), Ok(false));
    assert_eq!(context.store_new_program(1, &square_and_loop(), &ready()), Ok(true));
    assert_eq!(context.store_new_program(2, &square_and_loop(), &ready()), Ok(false));
    assert_eq!(context.program(1), context.program(2));
}

#[test]
fn failed_build_stores_nothing() {
    let mut context = MidiGraphAudioContext::default();
    context.store_new_program(1, &receiver(3), &ready()).unwrap();
    let before = context.program(1).unwrap().root().duplicate();
    assert_eq!(
        context.store_new_program(1, &square_and_loop(), &kick(AssetData::Pending)),
        Err(Error::UnresolvedAsset(UnresolvedAssetError::NotFinished))
    );
    assert_eq!(
        context.store_new_program(2, &of(NodeKind::Polyphony { max_voices: 1 }), &ready()),
        Err(Error::Config(ConfigError::WrongChildCount))
    );
    assert_eq!(context.program(1).unwrap().root(), &before);
    assert_eq!(context.program(2), None);
}

#[test]
fn change_program_fails_for_an_unknown_number() {
    let mut context = MidiGraphAudioContext::default();
    assert_eq!(context.change_program(1), Err(Error::NotFound(1)));
    assert_eq!(context.current_program_id(), None);
}

#[test]
fn start_new_program_enters_loading() {
    let mut context = MidiGraphAudioContext::default();
    assert_eq!(context.start_new_program(5), AudioContextState::Loading);
    assert_eq!(context.loading_program(), Some(5));
    assert_eq!(context.current_program_id(), None);
    assert_eq!(context.start_new_program(6), AudioContextState::Loading);
    assert_eq!(context.loading_program(), Some(6));
}

#[test]
fn checking_with_nothing_loading_is_an_error() {
    let mut context = MidiGraphAudioContext::default();
    let graph = MidiGraph::new(square_and_loop()).unwrap();
    let step = LoadingStep { next_state: None, result: Err(Error::NoLoadingProgram) };
    assert_eq!(context.check_loading_asset(None, &ready()), step);
    assert_eq!(context.check_loading_asset(Some(&graph), &ready()), step);
    assert_eq!(context, MidiGraphAudioContext::default());
}

#[test]
fn checking_before_the_graph_is_read_waits() {
    let mut context = MidiGraphAudioContext::default();
    context.start_new_program(1);
    assert_eq!(
        context.check_loading_asset(None, &ready()),
        LoadingStep { next_state: None, result: Ok(()) }
    );
    assert_eq!(context.current_program_id(), None);
    assert_eq!(context.loading_program(), Some(1));
    assert_eq!(context.program(1), None);
}

#[test]
fn checking_once_the_graph_is_read_makes_the_program_live() {
    let mut context = MidiGraphAudioContext::default();
    context.start_new_program(1);
    let graph = MidiGraph::new(square_and_loop()).unwrap();
    assert_eq!(context.check_loading_asset(Some(&graph), &ready()), running(Ok(())));
    assert_eq!(context.current_program_id(), Some(1));
    assert!(context.program(1).is_some());
}

#[test]
fn checking_takes_the_place_of_another_live_program() {
    let mut context = MidiGraphAudioContext::default();
    context.store_new_program(1, &receiver(3), &ready()).unwrap();
    context.change_program(1).unwrap();
    context.start_new_program(2);
    let graph = MidiGraph::new(square_and_loop()).unwrap();
    assert_eq!(context.check_loading_asset(Some(&graph), &ready()), running(Ok(())));
    assert_eq!(context.current_program_id(), Some(2));
    assert!(context.program(1).is_some());
}

#[test]
fn checking_a_reload_of_the_live_program_keeps_it_live() {
    let mut context = MidiGraphAudioContext::default();
    context.store_new_program(1, &receiver(3), &ready()).unwrap();
    context.change_program(1).unwrap();
    context.start_new_program(1);
    let graph = MidiGraph::new(receiver(4)).unwrap();
    assert_eq!(context.check_loading_asset(Some(&graph), &ready()), running(Ok(())));
    assert_eq!(context.current_program_id(), Some(1));
    assert_eq!(context.send_event(4, ControlMessage::NoteOff { note: 1 }), Ok(()));
    assert_eq!(
        context.send_event(3, ControlMessage::NoteOff { note: 1 }),
        Err(Error::UnknownNode(3))
    );
}

#[test]
fn checking_a_graph_that_does_not_build_runs_with_the_error() {
    let mut context = MidiGraphAudioContext::default();
    context.start_new_program(1);
    let graph = MidiGraph::new(square_and_loop()).unwrap();
    assert_eq!(
        context.check_loading_asset(Some(&graph), &kick(AssetData::Poisoned)),
        running(Err(Error::Duplication))
    );
    assert_eq!(context.current_program_id(), None);
    assert_eq!(context.program(1), None);
    assert_eq!(context.loading_program(), Some(1));
}

#[test]
fn events_reach_the_live_program_with_the_next_block() {
    let mut context = MidiGraphAudioContext::default();
    context.store_new_program(1, &receiver(3), &ready()).unwrap();
    assert_eq!(
        context.send_event(3, ControlMessage::NoteOn { note: 60, velocity: 1 }),
        Err(Error::UnknownNode(3))
    );
    context.change_program(1).unwrap();
    let first = ControlMessage::NoteOn { note: 60, velocity: 1 };
    let second = ControlMessage::NoteOn { note: 61, velocity: 2 };
    assert_eq!(context.send_event(3, first), Ok(()));
    assert_eq!(context.send_event(3, second), Ok(()));
    assert_eq!(context.pending_events(3), Some(vec![first, second]));
    assert_eq!(context.pending_events(4), None);
    assert_eq!(context.render_block(128), Some(1));
    assert_eq!(context.pending_events(3), Some(vec![]));
    match &context.program(1).unwrap().root().children[0].state {
        NodeState::Voices(pool) => assert_eq!(pool.notes(), vec![60, 61]),
        other => panic!("unexpected state {:?}", other),
    }
}

#[test]
fn unknown_node_leaves_the_context_as_it_was() {
    let mut context = MidiGraphAudioContext::default();
    context.store_new_program(1, &receiver(3), &ready()).unwrap();
    context.change_program(1).unwrap();
    context.start_new_program(2);
    let mut same = MidiGraphAudioContext::default();
    same.store_new_program(1, &receiver(3), &ready()).unwrap();
    same.change_program(1).unwrap();
    same.start_new_program(2);
    assert_eq!(
        context.send_event(5, ControlMessage::NoteOff { note: 0 }),
        Err(Error::UnknownNode(5))
    );
    assert_eq!(context, same);
}

#[test]
fn square_wave_and_sample_loop_play_one_full_loop() {
    let mut context = MidiGraphAudioContext::default();
    assert_eq!(context.store_new_program(1, &square_and_loop(), &ready()), Ok(false));
    assert_eq!(context.change_program(1), Ok(()));
    assert_eq!(context.render_block(4409), Some(1));
    let root = &context.program(1).unwrap().root();
    match &root.children[1].state {
        NodeState::Playback(cursor) => assert_eq!(cursor.position, 4409),
        other => panic!("unexpected state {:?}", other),
    }
    assert_eq!(context.render_block(1), Some(1));
    let root = &context.program(1).unwrap().root();
    assert_eq!(root.kind, NodeKind::Mixer);
    assert_eq!(root.children[0].parameters, vec![0.5f32.to_bits(), 69]);
    assert_eq!(f32::from_bits(root.children[0].parameters[0]), 0.5);
    // 4410 frames are one full round of the loop: the player is back at its start.
    match &root.children[1].state {
        NodeState::Playback(cursor) => {
            assert_eq!(cursor.position, 0);
            assert_eq!(cursor.loop_range, Some(LoopRange { start: 0, end: 4410 }));
        }
        other => panic!("unexpected state {:?}", other),
    }
    assert_eq!(context.current_program_id(), Some(1));
}

#[test]
fn silence_is_rendered_without_a_live_program() {
    let mut context = MidiGraphAudioContext::default();
    context.store_new_program(1, &square_and_loop(), &ready()).unwrap();
    assert_eq!(context.render_block(4410), None);
    assert_eq!(
        context.program(1).unwrap().root().children[1].state,
        NodeState::Playback(bevy_midi_graph::LoopCursor::new(Some(LoopRange::new_frame_range(
            0, 4410
        ))))
    );
}

#[test]
fn path_that_the_loader_cannot_supply_stores_nothing() {
    let mut context = MidiGraphAudioContext::default();
    context.store_new_program(1, &receiver(3), &ready()).unwrap();
    context.change_program(1).unwrap();
    let before = context.program(1).unwrap().root().duplicate();
    // The wave list holds "kick", and the loader cannot tell the type of the path.
    let named = of(NodeKind::SamplePlayer { loop_range: None }).with_asset_path("kick");
    let failure = ready().load_asset_data("kick").unwrap_err();
    assert_eq!(failure, Error::Config(ConfigError::CannotParseAssetPath));
    assert_eq!(context.store_new_program(1, &named, &ready()), Err(failure));
    assert_eq!(context.store_new_program(2, &named, &ready()), Err(failure));
    assert_eq!(context.program(1).unwrap().root(), &before);
    assert_eq!(context.program(2), None);
    assert_eq!(context.current_program_id(), Some(1));
    // What was stored is kept: a later store under the number replaces it.
    assert_eq!(context.store_new_program(1, &square_and_loop(), &ready()), Ok(true));
}

#[test]
fn program_built_before_is_stored_as_it_is() {
    let mut context = MidiGraphAudioContext::default();
    let program = bevy_midi_graph::build(&receiver(3), &ready()).unwrap();
    assert!(!context.store_program(5, program));
    assert_eq!(context.program(5), Some(&bevy_midi_graph::build(&receiver(3), &ready()).unwrap()));
    let program = bevy_midi_graph::build(&square_and_loop(), &ready()).unwrap();
    assert!(context.store_program(5, program));
    assert_eq!(context.current_program_id(), None);
}

#[test]
fn plan_tells_the_step_and_changes_nothing() {
    let mut context = MidiGraphAudioContext::default();
    let graph = MidiGraph::new(square_and_loop()).unwrap();
    assert_eq!(
        context.plan_loading_asset(Some(&graph), &ready()),
        LoadingStep { next_state: None, result: Err(Error::NoLoadingProgram) }
    );
    context.start_new_program(1);
    assert_eq!(
        context.plan_loading_asset(None, &ready()),
        LoadingStep { next_state: None, result: Ok(()) }
    );
    assert_eq!(
        context.plan_loading_asset(Some(&graph), &kick(AssetData::Pending)),
        running(Err(Error::UnresolvedAsset(UnresolvedAssetError::NotFinished)))
    );
    assert_eq!(context.plan_loading_asset(Some(&graph), &ready()), running(Ok(())));
    assert_eq!(context.program(1), None);
    assert_eq!(context.current_program_id(), None);
    assert_eq!(context.check_loading_asset(Some(&graph), &ready()), running(Ok(())));
}

#[test]
fn change_can_be_made_where_the_program_is_stored() {
    let mut context = MidiGraphAudioContext::default();
    assert_eq!(context.can_change_program(1), Err(Error::NotFound(1)));
    context.store_new_program(1, &receiver(3), &ready()).unwrap();
    assert_eq!(context.can_change_program(1), Ok(()));
    assert_eq!(context.current_program_id(), None);
}
