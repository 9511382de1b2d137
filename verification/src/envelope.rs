use vstd::prelude::*;

verus! {

/// The stretch of its course that an envelope is in.
#[derive(Debug, Clone, Copy, PartialEq, Eq, Hash, Structural)]
pub enum EnvelopePhase {
    /// The volume rises.
    Attack,
    /// The volume falls to the level at which it is held.
    Decay,
    /// The volume is held until the note is let go.
    Sustain,
    /// The note was let go and the volume falls to nothing.
    Release,
    /// The release has run out.
    Finished,
}

/// The time of an envelope, counted in frames that were played: how long its
/// phases last, how many frames were played since the note started, and at
/// which of them the note was let go.
///
/// Nothing but frames played moves an envelope from one phase to the next.
#[derive(Debug, Clone, Copy, PartialEq, Eq, Hash)]
pub struct EnvelopeClock {
    pub attack: usize,
    pub decay: usize,
    pub release: usize,
    pub elapsed: usize,
    pub released_at: Option<usize>,
}

impl EnvelopeClock {
    /// The phase that the envelope is in.
    ///
    /// Until the note is let go the attack lasts for the first `attack`
    /// frames, the decay for the next `decay` frames, and the sustain from
    /// then on. Once the note is let go the release lasts for `release`
    /// frames from that moment, whatever phase was left.
    pub open spec fn spec_phase(self) -> EnvelopePhase {
        match self.released_at {
            Some(released_at) => if self.elapsed - released_at < self.release {
                EnvelopePhase::Release
            } else {
                EnvelopePhase::Finished
            },
            None => if self.elapsed < self.attack {
                EnvelopePhase::Attack
            } else if self.elapsed - self.attack < self.decay {
                EnvelopePhase::Decay
            } else {
                EnvelopePhase::Sustain
            },
        }
    }

    /// The clock after `frames` frames were played: that many more frames
    /// have gone by, as far as the machine can count.
    pub open spec fn spec_advance(self, frames: nat) -> Self {
        EnvelopeClock {
            elapsed: if self.elapsed + frames <= usize::MAX {
                (self.elapsed + frames) as usize
            } else {
                usize::MAX
            },
            ..self
        }
    }

    /// The clock after a note was started: the envelope is at the first
    /// frame of its attack.
    pub open spec fn spec_note_on(self) -> Self {
        EnvelopeClock { elapsed: 0, released_at: None, ..self }
    }

    /// The clock after the note was let go: the release starts here, unless
    /// it has started before.
    pub open spec fn spec_note_off(self) -> Self {
        match self.released_at {
            Some(_) => self,
            None => EnvelopeClock { released_at: Some(self.elapsed), ..self },
        }
    }

    /// How far along its course a phase stands.
    pub open spec fn rank(phase: EnvelopePhase) -> nat {
        match phase {
            EnvelopePhase::Attack => 0,
            EnvelopePhase::Decay => 1,
            EnvelopePhase::Sustain => 2,
            EnvelopePhase::Release => 3,
            EnvelopePhase::Finished => 4,
        }
    }

    /// Whether the note was let go at a frame that has been played.
    pub open spec fn wf(self) -> bool {
        self.released_at matches Some(released_at) ==> released_at <= self.elapsed
    }

    /// Playing frames never takes an envelope back to an earlier phase.
    pub proof fn lemma_phases_follow_render_time(self, frames: nat)
        requires
            self.wf(),
        ensures
            self.spec_advance(frames).wf(),
            Self::rank(self.spec_phase()) <= Self::rank(self.spec_advance(frames).spec_phase()),
    {
    }

    /// Playing frames in two blocks moves the envelope as far as playing
    /// them in one.
    pub proof fn lemma_advance_split(self, first: nat, then: nat)
        ensures
            self.spec_advance(first + then) == self.spec_advance(first).spec_advance(then),
    {
    }

    /// Makes the clock of an envelope with the given lengths of its phases,
    /// at the first frame of its attack.
    pub fn new(attack: usize, decay: usize, release: usize) -> (clock: Self)
        ensures
            clock == (EnvelopeClock { attack, decay, release, elapsed: 0, released_at: None }),
            clock.wf(),
    {
        EnvelopeClock { attack, decay, release, elapsed: 0, released_at: None }
    }

    /// Returns the phase that the envelope is in.
    pub fn phase(&self) -> (phase: EnvelopePhase)
        ensures
            phase == self.spec_phase(),
    {
        match self.released_at {
            Some(released_at) => if self.elapsed < released_at || self.elapsed - released_at
                < self.release {
                EnvelopePhase::Release
            } else {
                EnvelopePhase::Finished
            },
            None => if self.elapsed < self.attack {
                EnvelopePhase::Attack
            } else if self.elapsed - self.attack < self.decay {
                EnvelopePhase::Decay
            } else {
                EnvelopePhase::Sustain
            },
        }
    }

    /// Plays `frames` frames.
    pub fn advance(&mut self, frames: usize)
        ensures
            *final(self) == old(self).spec_advance(frames as nat),
            old(self).wf() ==> final(self).wf(),
    {
        self.elapsed = if frames <= usize::MAX - self.elapsed {
            self.elapsed + frames
        } else {
            usize::MAX
        };
    }

    /// Starts a note.
    pub fn note_on(&mut self)
        ensures
            *final(self) == old(self).spec_note_on(),
            final(self).wf(),
    {
        self.elapsed = 0;
        self.released_at = None;
    }

    /// Lets the note go.
    pub fn note_off(&mut self)
        ensures
            *final(self) == old(self).spec_note_off(),
            old(self).wf() ==> final(self).wf(),
    {
        if self.released_at.is_none() {
            self.released_at = Some(self.elapsed);
        }
    }
}

} // verus!
