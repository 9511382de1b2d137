use bevy_midi_graph::{LoopCursor, LoopRange};

fn looping(start: usize, end: usize) -> LoopCursor {
    LoopCursor::new(Some(LoopRange::new_frame_range(start, end)))
}

#[test]
fn new_cursor_stands_at_the_first_frame() {
    assert_eq!(
        LoopCursor::new(None),
        LoopCursor { position: 0, loop_range: None, pending_seek: None }
    );
    assert_eq!(looping(2, 5).loop_range, Some(LoopRange { start: 2, end: 5 }));
}

#[test]
fn player_without_loop_plays_on() {
    let mut cursor = LoopCursor::new(None);
    cursor.advance(4410);
    assert_eq!(cursor.position, 4410);
    cursor.advance(0);
    assert_eq!(cursor.position, 4410);
    cursor.advance(1);
    assert_eq!(cursor.position, 4411);
    assert_eq!(cursor.frames_to_boundary(), None);
}

#[test]
fn position_stops_where_the_machine_stops_counting() {
    let mut cursor = LoopCursor { position: usize::MAX - 2, loop_range: None, pending_seek: None };
    cursor.advance(10);
    assert_eq!(cursor.position, usize::MAX);
    cursor.advance(usize::MAX);
    assert_eq!(cursor.position, usize::MAX);
}

#[test]
fn loop_wraps_at_its_boundary() {
    let mut cursor = looping(0, 4410);
    assert_eq!(cursor.frames_to_boundary(), Some(4410));
    cursor.advance(4409);
    assert_eq!(cursor.position, 4409);
    assert_eq!(cursor.frames_to_boundary(), Some(1));
    cursor.advance(1);
    assert_eq!(cursor.position, 0);
}

#[test]
fn one_full_loop_in_one_block_comes_back_to_the_start() {
    let mut cursor = looping(0, 4410);
    cursor.advance(4410);
    assert_eq!(cursor.position, 0);
}

#[test]
fn loop_with_an_intro_wraps_to_the_start_of_the_range() {
    let mut cursor = looping(100, 300);
    cursor.advance(250);
    assert_eq!(cursor.position, 250);
    cursor.advance(50);
    assert_eq!(cursor.position, 100);
    // 200 frames a round: 1000 frames are five rounds.
    cursor.advance(1000);
    assert_eq!(cursor.position, 100);
    cursor.advance(1030);
    assert_eq!(cursor.position, 130);
}

#[test]
fn blocks_add_up() {
    let mut whole = looping(3, 11);
    whole.advance(1000);
    let mut parts = looping(3, 11);
    for _ in 0..100 {
        parts.advance(7);
        parts.advance(3);
    }
    assert_eq!(whole, parts);
    // 11 frames to the first boundary, then rounds of 8: 989 = 123 * 8 + 5.
    assert_eq!(whole.position, 8);
}

#[test]
fn loop_of_one_frame_stays_on_it() {
    let mut cursor = looping(5, 6);
    cursor.advance(6);
    assert_eq!(cursor.position, 5);
    cursor.advance(1234);
    assert_eq!(cursor.position, 5);
}

#[test]
fn seek_waits_for_the_loop_boundary() {
    let mut plain = looping(0, 100);
    let mut seeking = looping(0, 100);
    plain.advance(40);
    seeking.advance(40);
    seeking.seek_when_ideal(500);
    assert_eq!(seeking.position, 40);
    assert_eq!(seeking.pending_seek, Some(500));
    // Frame for frame the two play the same until the boundary.
    for _ in 0..59 {
        plain.advance(1);
        seeking.advance(1);
        assert_eq!(seeking.position, plain.position);
        assert_eq!(seeking.pending_seek, Some(500));
    }
    assert_eq!(seeking.position, 99);
    plain.advance(1);
    seeking.advance(1);
    assert_eq!(plain.position, 0);
    assert_eq!(seeking.position, 500);
    assert_eq!(seeking.pending_seek, None);
}

#[test]
fn seek_is_applied_in_the_middle_of_a_block() {
    let mut cursor = looping(0, 100);
    cursor.advance(40);
    cursor.seek_when_ideal(10);
    cursor.advance(75);
    // 60 frames to the boundary, 15 frames from the target.
    assert_eq!(cursor.position, 25);
    assert_eq!(cursor.pending_seek, None);
    cursor.advance(75);
    // The seek is done once: the next boundary leads to the start of the range.
    assert_eq!(cursor.position, 0);
}

#[test]
fn seek_behind_the_loop_leaves_it() {
    let mut cursor = looping(0, 10);
    cursor.seek_when_ideal(50);
    cursor.advance(10);
    assert_eq!(cursor.position, 50);
    assert_eq!(cursor.frames_to_boundary(), None);
    cursor.advance(100);
    assert_eq!(cursor.position, 150);
}

#[test]
fn later_seek_takes_the_place_of_an_earlier_one() {
    let mut cursor = looping(0, 10);
    cursor.seek_when_ideal(3);
    cursor.seek_when_ideal(7);
    cursor.advance(10);
    assert_eq!(cursor.position, 7);
}

#[test]
fn seek_without_a_loop_finds_no_boundary() {
    let mut cursor = LoopCursor::new(None);
    cursor.seek_when_ideal(3);
    cursor.advance(1000);
    assert_eq!(cursor.position, 1000);
    assert_eq!(cursor.pending_seek, Some(3));
}

#[test]
fn player_behind_its_loop_plays_on() {
    let mut cursor =
        LoopCursor { position: 20, loop_range: Some(LoopRange { start: 0, end: 10 }), pending_seek: None };
    cursor.advance(5);
    assert_eq!(cursor.position, 25);
}
