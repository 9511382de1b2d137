use vstd::prelude::*;

use crate::error::{ConfigError, Error};

verus! {

/// The voices of a polyphonic wrapper as a mathematical value: the bound,
/// and the notes that sound, the oldest first.
pub struct PoolView {
    pub max_voices: nat,
    pub notes: Seq<u8>,
}

impl PoolView {
    /// Whether every voice is taken.
    pub open spec fn is_full(self) -> bool {
        self.notes.len() >= self.max_voices
    }

    /// The note whose voice a new note would take over: the oldest one, where
    /// every voice is taken.
    pub open spec fn stolen(self) -> Option<u8> {
        if self.is_full() && self.notes.len() > 0 {
            Some(self.notes[0])
        } else {
            None
        }
    }

    /// The voices after `note` was asked for: the note is the youngest, and
    /// the oldest has left where every voice was taken.
    pub open spec fn note_on(self, note: u8) -> PoolView {
        if self.is_full() && self.notes.len() > 0 {
            PoolView { notes: self.notes.drop_first().push(note), ..self }
        } else {
            PoolView { notes: self.notes.push(note), ..self }
        }
    }

    /// The voices after `note` was let go: the oldest voice that sounds the
    /// note has left.
    pub open spec fn note_off(self, note: u8) -> PoolView {
        PoolView { notes: self.notes.remove_value(note), ..self }
    }

    /// The voices after each of `notes` was asked for in turn.
    pub open spec fn notes_on(self, notes: Seq<u8>) -> PoolView
        decreases notes.len(),
    {
        if notes.len() == 0 {
            self
        } else {
            self.notes_on(notes.drop_last()).note_on(notes.last())
        }
    }

    /// Whether the voices are within their bound, which is not zero.
    pub open spec fn within_bound(self) -> bool {
        0 < self.max_voices && self.notes.len() <= self.max_voices
    }

    /// Asking for a note keeps the voices within their bound.
    pub proof fn lemma_note_on_within_bound(self, note: u8)
        requires
            self.within_bound(),
        ensures
            self.note_on(note).within_bound(),
            self.note_on(note).max_voices == self.max_voices,
    {
    }

    /// However many notes are asked for, no more voices sound than the bound
    /// allows.
    pub proof fn lemma_never_more_than_bound(self, notes: Seq<u8>)
        requires
            self.within_bound(),
        ensures
            self.notes_on(notes).within_bound(),
            self.notes_on(notes).max_voices == self.max_voices,
        decreases notes.len(),
    {
        if notes.len() > 0 {
            self.lemma_never_more_than_bound(notes.drop_last());
            self.notes_on(notes.drop_last()).lemma_note_on_within_bound(notes.last());
        }
    }

    /// When every voice is taken, one more note takes over the voice of the
    /// oldest: that note leaves, every other stays in its order, and the new
    /// note is the youngest.
    pub proof fn lemma_one_more_steals_oldest(self, note: u8)
        requires
            self.within_bound(),
            self.notes.len() == self.max_voices,
        ensures
            self.stolen() == Some(self.notes[0]),
            self.note_on(note).notes.len() == self.max_voices,
            self.note_on(note).notes.last() == note,
            forall|i: int|
                0 <= i < self.max_voices - 1 ==> #[trigger] self.note_on(note).notes[i]
                    == self.notes[i + 1],
    {
    }

    /// Letting a note go never adds a voice.
    pub proof fn lemma_note_off_within_bound(self, note: u8)
        requires
            self.within_bound(),
        ensures
            self.note_off(note).within_bound(),
            self.note_off(note).notes.len() == if self.notes.contains(note) {
                self.notes.len() - 1
            } else {
                self.notes.len() as int
            },
    {
        self.notes.index_of_first_ensures(note);
    }
}

/// The voices of a polyphonic wrapper: which notes sound, and in which order
/// they were asked for. There are never more of them than the bound the
/// wrapper was made with.
#[derive(Debug, PartialEq, Eq)]
pub struct VoicePool {
    max_voices: usize,
    notes: Vec<u8>,
}

impl View for VoicePool {
    type V = PoolView;

    closed spec fn view(&self) -> PoolView {
        PoolView { max_voices: self.max_voices as nat, notes: self.notes@ }
    }
}

impl VoicePool {
    #[verifier::type_invariant]
    spec fn bounded(self) -> bool {
        0 < self.max_voices && self.notes@.len() <= self.max_voices
    }

    /// Makes the voices of a wrapper that may sound `max_voices` notes at a
    /// time, none sounding yet. A wrapper without a voice is refused.
    pub fn new(max_voices: usize) -> (result: Result<Self, Error>)
        ensures
            match result {
                Ok(pool) => max_voices > 0 && pool@ == (PoolView {
                    max_voices: max_voices as nat,
                    notes: Seq::empty(),
                }),
                Err(error) => max_voices == 0 && error == Error::Config(ConfigError::ZeroVoices),
            },
    {
        if max_voices == 0 {
            Err(Error::Config(ConfigError::ZeroVoices))
        } else {
            Ok(VoicePool { max_voices, notes: Vec::new() })
        }
    }

    /// Returns the bound on the voices.
    pub fn max_voices(&self) -> (max_voices: usize)
        ensures
            max_voices == self@.max_voices,
            max_voices > 0,
    {
        proof {
            use_type_invariant(self);
        }
        self.max_voices
    }

    /// Returns the number of voices that sound, which is never above the
    /// bound.
    pub fn active_voices(&self) -> (active: usize)
        ensures
            active == self@.notes.len(),
            active <= self@.max_voices,
            self@.within_bound(),
    {
        proof {
            use_type_invariant(self);
        }
        self.notes.len()
    }

    /// Returns the notes that sound, the oldest first.
    pub fn notes(&self) -> (notes: Vec<u8>)
        ensures
            notes@ == self@.notes,
    {
        let notes = self.notes.clone();
        assert(notes@ =~= self.notes@);
        notes
    }

    /// Gives `note` a voice. Where every voice is taken, the voice of the
    /// oldest note is taken over, and that note is returned.
    pub fn note_on(&mut self, note: u8) -> (stolen: Option<u8>)
        ensures
            final(self)@ == old(self)@.note_on(note),
            stolen == old(self)@.stolen(),
            final(self)@.within_bound(),
    {
        proof {
            use_type_invariant(&*self);
        }
        let mut notes = self.notes.clone();
        assert(notes@ =~= self.notes@);
        if notes.len() >= self.max_voices {
            let oldest = notes.remove(0);
            notes.push(note);
            assert(notes@ =~= old(self).notes@.drop_first().push(note));
            self.notes = notes;
            Some(oldest)
        } else {
            notes.push(note);
            self.notes = notes;
            None
        }
    }

    /// Takes the voice from the oldest of the voices that sound `note`, and
    /// tells whether there was one.
    pub fn note_off(&mut self, note: u8) -> (released: bool)
        ensures
            final(self)@ == old(self)@.note_off(note),
            released == old(self)@.notes.contains(note),
            final(self)@.within_bound(),
    {
        proof {
            use_type_invariant(&*self);
            self.notes@.index_of_first_ensures(note);
        }
        let mut i: usize = 0;
        while i < self.notes.len() && self.notes[i] != note
            invariant
                i <= self.notes@.len(),
                forall|j: int| 0 <= j < i ==> self.notes@[j] != note,
            decreases self.notes@.len() - i,
        {
            i = i + 1;
        }
        if i < self.notes.len() {
            let mut notes = self.notes.clone();
            assert(notes@ =~= self.notes@);
            notes.remove(i);
            self.notes = notes;
            true
        } else {
            false
        }
    }

    /// Makes a pool of its own with the same bound and the same voices.
    pub fn duplicate(&self) -> (copy: Self)
        ensures
            copy@ == self@,
    {
        proof {
            use_type_invariant(self);
        }
        let notes = self.notes.clone();
        assert(notes@ =~= self.notes@);
        VoicePool { max_voices: self.max_voices, notes }
    }
}

} // verus!
