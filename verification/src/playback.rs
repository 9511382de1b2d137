use vstd::prelude::*;

use crate::descriptor::LoopRange;

verus! {

/// Where a player stands in its data, frame by frame: a sample player in
/// its samples, a sequence in its events.
///
/// `position` is the frame that is played next. With a loop range the player
/// goes back to the start of the range once it has played the last frame
/// before the end of the range: that moment is the loop boundary. A seek that
/// was asked for waits in `pending_seek` for the boundary and then takes the
/// place of the start of the range, once. A player that stands at or behind
/// the end of its range, or has none, plays on and meets no boundary.
#[derive(Debug, Clone, Copy, PartialEq, Eq, Hash)]
pub struct LoopCursor {
    pub position: usize,
    pub loop_range: Option<LoopRange>,
    pub pending_seek: Option<usize>,
}

impl LoopCursor {
    /// The number of frames that are played before the loop boundary is
    /// crossed, the frame at `position` being the first of them; `None` where
    /// no boundary lies ahead.
    pub open spec fn spec_frames_to_boundary(self) -> Option<nat> {
        match self.loop_range {
            Some(range) if self.position < range.end => Some((range.end - self.position) as nat),
            _ => None,
        }
    }

    /// The frame at which playing goes on behind the loop boundary.
    pub open spec fn spec_boundary_target(self) -> usize {
        match (self.pending_seek, self.loop_range) {
            (Some(target), _) => target,
            (None, Some(range)) => range.start,
            (None, None) => self.position,
        }
    }

    /// The cursor after one frame was played.
    pub open spec fn spec_step(self) -> Self {
        if self.spec_frames_to_boundary() == Some(1nat) {
            LoopCursor {
                position: self.spec_boundary_target(),
                loop_range: self.loop_range,
                pending_seek: None,
            }
        } else if self.position < usize::MAX {
            LoopCursor { position: (self.position + 1) as usize, ..self }
        } else {
            self
        }
    }

    /// The cursor after `frames` frames were played.
    pub open spec fn spec_advance(self, frames: nat) -> Self
        decreases frames,
    {
        if frames == 0 {
            self
        } else {
            self.spec_step().spec_advance((frames - 1) as nat)
        }
    }

    /// The cursor with a seek to `target` waiting for the loop boundary.
    pub open spec fn spec_seek_when_ideal(self, target: usize) -> Self {
        LoopCursor { pending_seek: Some(target), ..self }
    }

    /// Playing `first` frames and then `then` frames is playing them all.
    pub proof fn lemma_advance_split(self, first: nat, then: nat)
        ensures
            self.spec_advance(first + then) == self.spec_advance(first).spec_advance(then),
        decreases first,
    {
        if first > 0 {
            self.spec_step().lemma_advance_split((first - 1) as nat, then);
        }
    }

    /// With no boundary ahead the position grows by one with each frame played,
    /// as far as the machine can count, and nothing else changes.
    pub proof fn lemma_advance_without_boundary(self, frames: nat)
        requires
            self.spec_frames_to_boundary() is None,
        ensures
            self.spec_advance(frames) == (LoopCursor {
                position: if self.position + frames <= usize::MAX {
                    (self.position + frames) as usize
                } else {
                    usize::MAX
                },
                ..self
            }),
        decreases frames,
    {
        if frames > 0 {
            self.spec_step().lemma_advance_without_boundary((frames - 1) as nat);
        }
    }

    /// Before the boundary is crossed the position grows by one with each
    /// frame played, and nothing else changes.
    pub proof fn lemma_advance_before_boundary(self, frames: nat)
        requires
            self.spec_frames_to_boundary() matches Some(left) && frames < left,
        ensures
            self.spec_advance(frames) == (LoopCursor {
                position: (self.position + frames) as usize,
                ..self
            }),
        decreases frames,
    {
        if frames > 0 {
            self.spec_step().lemma_advance_before_boundary((frames - 1) as nat);
        }
    }

    /// Playing just the frames that are left before the boundary crosses it:
    /// playing goes on at the target, and no seek is left waiting.
    pub proof fn lemma_advance_to_boundary(self)
        requires
            self.spec_frames_to_boundary() is Some,
        ensures
            self.spec_advance(self.spec_frames_to_boundary().unwrap()) == (LoopCursor {
                position: self.spec_boundary_target(),
                loop_range: self.loop_range,
                pending_seek: None,
            }),
    {
        let left = self.spec_frames_to_boundary().unwrap();
        let before = (left - 1) as nat;
        self.lemma_advance_before_boundary(before);
        self.lemma_advance_split(before, 1);
        let last = self.spec_advance(before);
        assert(last.spec_advance(1) == last.spec_step()) by {
            assert(last.spec_step().spec_advance(0) == last.spec_step());
        }
    }

    /// A seek that is asked for in the middle of a loop changes nothing of
    /// what is played before the loop boundary: frame for frame the player
    /// stands where it would stand without the seek, the seek still waiting.
    /// With the frame that crosses the boundary playing goes on at the target
    /// of the seek, and the seek is done.
    pub proof fn lemma_seek_waits_for_boundary(self, target: usize, frames: nat)
        requires
            self.spec_frames_to_boundary() is Some,
            frames <= self.spec_frames_to_boundary().unwrap(),
        ensures
            frames < self.spec_frames_to_boundary().unwrap() ==> {
                &&& self.spec_seek_when_ideal(target).spec_advance(frames).position
                    == self.spec_advance(frames).position
                &&& self.spec_seek_when_ideal(target).spec_advance(frames).pending_seek == Some(
                    target,
                )
            },
            frames == self.spec_frames_to_boundary().unwrap() ==> {
                &&& self.spec_seek_when_ideal(target).spec_advance(frames).position == target
                &&& self.spec_seek_when_ideal(target).spec_advance(frames).pending_seek is None
            },
    {
        let seeking = self.spec_seek_when_ideal(target);
        if frames < self.spec_frames_to_boundary().unwrap() {
            self.lemma_advance_before_boundary(frames);
            seeking.lemma_advance_before_boundary(frames);
        } else {
            seeking.lemma_advance_to_boundary();
        }
    }

    /// Makes the cursor of a player that stands at its first frame.
    pub fn new(loop_range: Option<LoopRange>) -> (cursor: Self)
        ensures
            cursor == (LoopCursor { position: 0, loop_range, pending_seek: None }),
    {
        LoopCursor { position: 0, loop_range, pending_seek: None }
    }

    /// Returns the number of frames that are played before the loop boundary
    /// is crossed, `None` where no boundary lies ahead.
    pub fn frames_to_boundary(&self) -> (left: Option<usize>)
        ensures
            match left {
                Some(left) => self.spec_frames_to_boundary() == Some(left as nat),
                None => self.spec_frames_to_boundary() is None,
            },
    {
        match self.loop_range {
            Some(range) => if self.position < range.end {
                Some(range.end - self.position)
            } else {
                None
            },
            None => None,
        }
    }

    /// Asks for playing to go on at `target` behind the next loop boundary,
    /// in place of the start of the loop. A seek asked for earlier and still
    /// waiting is given up.
    pub fn seek_when_ideal(&mut self, target: usize)
        ensures
            *final(self) == old(self).spec_seek_when_ideal(target),
    {
        self.pending_seek = Some(target);
    }

    /// Plays `frames` frames.
    pub fn advance(&mut self, frames: usize)
        ensures
            *final(self) == old(self).spec_advance(frames as nat),
    {
        let mut remaining: usize = frames;
        while remaining > 0
            invariant
                old(self).spec_advance(frames as nat) == self.spec_advance(remaining as nat),
            decreases remaining,
        {
            let ghost here = *self;
            match self.frames_to_boundary() {
                Some(left) => {
                    if remaining < left {
                        proof {
                            here.lemma_advance_before_boundary(remaining as nat);
                        }
                        self.position = self.position + remaining;
                        remaining = 0;
                    } else {
                        proof {
                            here.lemma_advance_to_boundary();
                            here.lemma_advance_split(left as nat, (remaining - left) as nat);
                        }
                        self.position = match (self.pending_seek, self.loop_range) {
                            (Some(target), _) => target,
                            (None, Some(range)) => range.start,
                            (None, None) => self.position,
                        };
                        self.pending_seek = None;
                        remaining = remaining - left;
                    }
                },
                None => {
                    proof {
                        here.lemma_advance_without_boundary(remaining as nat);
                    }
                    self.position = if remaining <= usize::MAX - self.position {
                        self.position + remaining
                    } else {
                        usize::MAX
                    };
                    remaining = 0;
                },
            }
        }
    }
}

} // verus!
