use bevy_midi_graph::{EnvelopeClock, EnvelopePhase};

#[test]
fn new_envelope_is_at_the_start_of_its_attack() {
    let clock = EnvelopeClock::new(10, 20, 30);
    assert_eq!(
        clock,
        EnvelopeClock { attack: 10, decay: 20, release: 30, elapsed: 0, released_at: None }
    );
    assert_eq!(clock.phase(), EnvelopePhase::Attack);
}

#[test]
fn phases_follow_the_frames_played() {
    let mut clock = EnvelopeClock::new(10, 20, 30);
    clock.advance(9);
    assert_eq!(clock.phase(), EnvelopePhase::Attack);
    clock.advance(1);
    assert_eq!(clock.phase(), EnvelopePhase::Decay);
    clock.advance(19);
    assert_eq!(clock.phase(), EnvelopePhase::Decay);
    clock.advance(1);
    assert_eq!(clock.phase(), EnvelopePhase::Sustain);
    clock.advance(100_000);
    assert_eq!(clock.phase(), EnvelopePhase::Sustain);
    assert_eq!(clock.elapsed, 100_030);
}

#[test]
fn release_lasts_its_frames_from_the_note_off() {
    let mut clock = EnvelopeClock::new(10, 20, 30);
    clock.advance(50);
    clock.note_off();
    assert_eq!(clock.released_at, Some(50));
    assert_eq!(clock.phase(), EnvelopePhase::Release);
    clock.advance(29);
    assert_eq!(clock.phase(), EnvelopePhase::Release);
    clock.advance(1);
    assert_eq!(clock.phase(), EnvelopePhase::Finished);
}

#[test]
fn note_let_go_during_the_attack_is_released_at_once() {
    let mut clock = EnvelopeClock::new(10, 20, 30);
    clock.advance(3);
    clock.note_off();
    assert_eq!(clock.phase(), EnvelopePhase::Release);
    clock.advance(30);
    assert_eq!(clock.phase(), EnvelopePhase::Finished);
}

#[test]
fn second_note_off_does_not_start_the_release_again() {
    let mut clock = EnvelopeClock::new(1, 1, 10);
    clock.advance(5);
    clock.note_off();
    clock.advance(5);
    clock.note_off();
    assert_eq!(clock.released_at, Some(5));
    clock.advance(5);
    assert_eq!(clock.phase(), EnvelopePhase::Finished);
}

#[test]
fn note_on_starts_the_attack_again() {
    let mut clock = EnvelopeClock::new(10, 20, 30);
    clock.advance(50);
    clock.note_off();
    clock.advance(100);
    clock.note_on();
    assert_eq!(
        clock,
        EnvelopeClock { attack: 10, decay: 20, release: 30, elapsed: 0, released_at: None }
    );
    assert_eq!(clock.phase(), EnvelopePhase::Attack);
}

#[test]
fn phases_without_length_are_passed_over() {
    assert_eq!(EnvelopeClock::new(0, 0, 0).phase(), EnvelopePhase::Sustain);
    assert_eq!(EnvelopeClock::new(0, 5, 0).phase(), EnvelopePhase::Decay);
    let mut clock = EnvelopeClock::new(0, 0, 0);
    clock.note_off();
    assert_eq!(clock.phase(), EnvelopePhase::Finished);
}

#[test]
fn elapsed_frames_stop_where_the_machine_stops_counting() {
    let mut clock = EnvelopeClock::new(usize::MAX, usize::MAX, 1);
    clock.advance(usize::MAX - 1);
    assert_eq!(clock.phase(), EnvelopePhase::Attack);
    clock.advance(5);
    assert_eq!(clock.elapsed, usize::MAX);
    assert_eq!(clock.phase(), EnvelopePhase::Decay);
}
