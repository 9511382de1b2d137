use vstd::prelude::*;

use crate::error::{outcome, Error};
use crate::first::{first_place, is_first, lemma_first_is_only, lemma_held_has_first};
use crate::message::ControlMessage;
use crate::program::{Program, ProgramView};

verus! {

/// One stored program under its number.
#[derive(Debug, PartialEq, Eq)]
struct ProgramSlot {
    number: usize,
    program: Program,
}

/// The programs of the audio engine, each stored under a number, and the one
/// of them that is being played.
///
/// The mixer owns every tree it stores. At most one program is live at any
/// time; a program becomes live as a whole, with one call, and every block
/// rendered after that call is pulled from it.
#[derive(Debug, PartialEq, Eq)]
pub struct Mixer {
    slots: Vec<ProgramSlot>,
    current: Option<usize>,
}

/// A mixer as a mathematical value: the stored programs by their numbers,
/// and the number of the live one.
pub struct MixerView {
    pub programs: Map<usize, ProgramView>,
    pub current: Option<usize>,
}

impl MixerView {
    /// Whether the live program, if there is one, is stored.
    pub open spec fn wf(self) -> bool {
        self.current matches Some(number) ==> self.programs.contains_key(number)
    }

    /// Whether every stored program has one mailbox for each of its event
    /// receivers and no two mailboxes that are bound to one identifier.
    pub open spec fn programs_wf(self) -> bool {
        forall|number: usize|
            self.programs.contains_key(number) ==> (#[trigger] self.programs[number]).wf()
    }

    /// The live program, if one is live and stored.
    pub open spec fn playing(self) -> Option<ProgramView> {
        match self.current {
            Some(number) if self.programs.contains_key(number) => Some(self.programs[number]),
            _ => None,
        }
    }

    /// The number of the program that the next block is pulled from.
    pub open spec fn playing_number(self) -> Option<usize> {
        match self.current {
            Some(number) if self.programs.contains_key(number) => Some(number),
            _ => None,
        }
    }

    /// The mixer after `program` was stored under `number`, in place of what
    /// was stored there.
    pub open spec fn store(self, number: usize, program: ProgramView) -> MixerView {
        MixerView { programs: self.programs.insert(number, program), ..self }
    }

    /// The mixer after the program `number` was made the live one; fails
    /// where nothing is stored under the number.
    pub open spec fn activate(self, number: usize) -> Result<MixerView, Error> {
        if self.programs.contains_key(number) {
            Ok(MixerView { current: Some(number), ..self })
        } else {
            Err(Error::NotFound(number))
        }
    }

    /// The mixer after `message` was queued for the event receiver `node_id`
    /// of the live program; fails where no program is live or the live one
    /// has no mailbox bound to the identifier.
    pub open spec fn send(self, node_id: u64, message: ControlMessage) -> Result<MixerView, Error> {
        match self.playing() {
            Some(program) if program.has_channel(node_id) => Ok(
                MixerView {
                    programs: self.programs.insert(
                        self.current.unwrap(),
                        program.send(node_id, message),
                    ),
                    ..self
                },
            ),
            _ => Err(Error::UnknownNode(node_id)),
        }
    }

    /// The mixer after one block of `frames` frames was rendered: the live
    /// program has taken its messages and played the frames, and no other
    /// program was touched.
    pub open spec fn render_block(self, frames: usize) -> MixerView {
        match self.playing() {
            Some(program) => MixerView {
                programs: self.programs.insert(
                    self.current.unwrap(),
                    program.process_block(frames),
                ),
                ..self
            },
            None => self,
        }
    }

    /// Storing a program and then making it the live one succeeds, whatever
    /// was stored or live before, and leaves its number as that of the live
    /// program.
    pub proof fn lemma_store_then_activate(self, number: usize, program: ProgramView)
        ensures
            self.store(number, program).activate(number) is Ok,
            self.store(number, program).activate(number).unwrap().current == Some(number),
            self.store(number, program).activate(number).unwrap().playing() == Some(program),
            self.store(number, program).activate(number).unwrap().wf(),
    {
    }

    /// A number is taken from the moment a program is stored under it: a
    /// second program stored under the number takes the place of the first.
    pub proof fn lemma_store_takes_number(self, number: usize, program: ProgramView)
        ensures
            self.store(number, program).programs.contains_key(number),
            forall|other: usize|
                other != number ==> self.store(number, program).programs.contains_key(other)
                    == self.programs.contains_key(other),
    {
    }

    /// A message for an identifier that the live program has no mailbox for
    /// is refused.
    pub proof fn lemma_send_unknown_node(self, node_id: u64, message: ControlMessage)
        requires
            self.playing() matches Some(program) ==> !program.has_channel(node_id),
        ensures
            self.send(node_id, message) == Err::<MixerView, Error>(Error::UnknownNode(node_id)),
    {
    }

    /// The mixer after blocks of the given numbers of frames were rendered,
    /// the first of them first.
    pub open spec fn render_blocks(self, blocks: Seq<usize>) -> MixerView
        decreases blocks.len(),
    {
        if blocks.len() == 0 {
            self
        } else {
            self.render_blocks(blocks.drop_last()).render_block(blocks.last())
        }
    }

    /// Rendering changes neither which programs are stored nor which of
    /// them is live: every block that follows a call that made a program
    /// the live one is pulled from that program, until another is made live.
    pub proof fn lemma_blocks_keep_the_live_program(self, blocks: Seq<usize>)
        ensures
            self.render_blocks(blocks).current == self.current,
            self.render_blocks(blocks).programs.dom() == self.programs.dom(),
            self.render_blocks(blocks).playing_number() == self.playing_number(),
        decreases blocks.len(),
    {
        if blocks.len() > 0 {
            self.lemma_blocks_keep_the_live_program(blocks.drop_last());
            let before = self.render_blocks(blocks.drop_last());
            assert(before.render_block(blocks.last()).programs.dom() =~= before.programs.dom());
        }
    }

    /// Once a program was made the live one, the next block is pulled from
    /// it and from no other: every other program is left as it was.
    pub proof fn lemma_block_after_activate(self, number: usize, frames: usize)
        requires
            self.activate(number) is Ok,
        ensures
            self.activate(number).unwrap().playing_number() == Some(number),
            forall|other: usize|
                other != number && self.programs.contains_key(other) ==> #[trigger] self.activate(
                    number,
                ).unwrap().render_block(frames).programs[other] == self.programs[other],
            self.activate(number).unwrap().render_block(frames).programs[number]
                == self.programs[number].process_block(frames),
    {
    }
}

/// The numbers of a row of slots, in their order.
spec fn slot_numbers(slots: Seq<ProgramSlot>) -> Seq<usize> {
    slots.map_values(|slot: ProgramSlot| slot.number)
}

/// The programs of a row of slots by their numbers, the first slot of a
/// number standing for it.
spec fn programs_of(slots: Seq<ProgramSlot>) -> Map<usize, ProgramView> {
    Map::new(
        |number: usize| slot_numbers(slots).contains(number),
        |number: usize| slots[first_place(slot_numbers(slots), number)].program@,
    )
}

/// A row in which the program of the first slot of `number` was exchanged
/// stands for the same programs but for the one under `number`.
proof fn lemma_replace_in_slot(before: Seq<ProgramSlot>, after: Seq<ProgramSlot>, number: usize, i: int)
    requires
        is_first(slot_numbers(before), number, i),
        after.len() == before.len(),
        after[i].number == number,
        forall|j: int| 0 <= j < before.len() && j != i ==> #[trigger] after[j] == before[j],
    ensures
        programs_of(after) == programs_of(before).insert(number, after[i].program@),
{
    let numbers = slot_numbers(before);
    let wanted = programs_of(before).insert(number, after[i].program@);
    assert(slot_numbers(after) =~= numbers);
    lemma_first_is_only(numbers, number, i);
    assert forall|n: usize| programs_of(after).contains_key(n) implies #[trigger] programs_of(
        after,
    )[n] == wanted[n] by {
        lemma_held_has_first(numbers, n);
    }
    assert(programs_of(after) =~= wanted);
}

/// A row to which a slot was added for a number that no slot held stands
/// for the same programs and the one of the new slot.
proof fn lemma_append_slot(before: Seq<ProgramSlot>, after: Seq<ProgramSlot>, number: usize)
    requires
        !slot_numbers(before).contains(number),
        after.len() == before.len() + 1,
        after.last().number == number,
        forall|j: int| 0 <= j < before.len() ==> #[trigger] after[j] == before[j],
    ensures
        programs_of(after) == programs_of(before).insert(number, after.last().program@),
{
    let numbers = slot_numbers(before);
    let wanted = programs_of(before).insert(number, after.last().program@);
    let last = before.len() as int;
    assert(slot_numbers(after) =~= numbers.push(number));
    assert(is_first(slot_numbers(after), number, last)) by {
        assert forall|j: int| 0 <= j < last implies #[trigger] slot_numbers(after)[j] != number by {
            assert(numbers[j] != number);
        }
    }
    lemma_first_is_only(slot_numbers(after), number, last);
    assert forall|n: usize| #[trigger] programs_of(after).contains_key(n) == wanted.contains_key(
        n,
    ) by {
        if slot_numbers(after).contains(n) && n != number {
            let k = choose|k: int| 0 <= k < after.len() && slot_numbers(after)[k] == n;
            assert(numbers[k] == n);
        }
        if numbers.contains(n) {
            let k = choose|k: int| 0 <= k < numbers.len() && numbers[k] == n;
            assert(slot_numbers(after)[k] == n);
        }
    }
    assert forall|n: usize| programs_of(after).contains_key(n) implies #[trigger] programs_of(
        after,
    )[n] == wanted[n] by {
        assert(wanted.contains_key(n));
        if n != number {
            lemma_held_has_first(numbers, n);
            let k = first_place(numbers, n);
            assert(is_first(slot_numbers(after), n, k)) by {
                assert(forall|j: int| 0 <= j <= k ==> #[trigger] slot_numbers(after)[j] == numbers[j]);
            }
            lemma_first_is_only(slot_numbers(after), n, k);
        }
    }
    assert(programs_of(after) =~= wanted);
}

impl View for Mixer {
    type V = MixerView;

    closed spec fn view(&self) -> MixerView {
        MixerView { programs: programs_of(self.slots@), current: self.current }
    }
}

impl Mixer {
    /// Makes a mixer that stores no program and plays none.
    pub fn new() -> (mixer: Self)
        ensures
            mixer@ == (MixerView { programs: Map::empty(), current: None }),
            mixer@.wf(),
            mixer@.programs_wf(),
    {
        let mixer = Mixer { slots: Vec::new(), current: None };
        assert(mixer@.programs =~= Map::empty());
        mixer
    }

    /// Finds the first slot that holds `number`.
    fn find_slot(&self, number: usize) -> (found: Option<usize>)
        ensures
            match found {
                Some(i) => is_first(slot_numbers(self.slots@), number, i as int),
                None => !slot_numbers(self.slots@).contains(number),
            },
    {
        let mut i: usize = 0;
        while i < self.slots.len()
            invariant
                i <= self.slots@.len(),
                forall|j: int| 0 <= j < i ==> (#[trigger] self.slots@[j]).number != number,
            decreases self.slots@.len() - i,
        {
            if self.slots[i].number == number {
                return Some(i);
            }
            i = i + 1;
        }
        None
    }

    /// Tells whether a program is stored under `number`.
    pub fn has_program(&self, number: usize) -> (stored: bool)
        ensures
            stored == self@.programs.contains_key(number),
    {
        match self.find_slot(number) {
            Some(i) => {
                proof {
                    lemma_first_is_only(slot_numbers(self.slots@), number, i as int);
                }
                true
            },
            None => false,
        }
    }

    /// Returns the program stored under `number`, if there is one.
    pub fn program(&self, number: usize) -> (stored: Option<&Program>)
        ensures
            match stored {
                Some(program) => self@.programs.contains_key(number) && self@.programs[number]
                    == program@,
                None => !self@.programs.contains_key(number),
            },
    {
        match self.find_slot(number) {
            Some(i) => {
                proof {
                    lemma_first_is_only(slot_numbers(self.slots@), number, i as int);
                }
                Some(&self.slots[i].program)
            },
            None => None,
        }
    }

    /// Returns the number of the program that is being played, if any.
    pub fn current_program_id(&self) -> (current: Option<usize>)
        ensures
            current == self@.current,
    {
        self.current
    }

    /// Stores `program` under `number` and tells whether it took the place
    /// of a program that was stored there before.
    pub fn store_program(&mut self, number: usize, program: Program) -> (replaced: bool)
        ensures
            replaced == old(self)@.programs.contains_key(number),
            final(self)@ == old(self)@.store(number, program@),
            old(self)@.wf() ==> final(self)@.wf(),
            old(self)@.programs_wf() && program@.wf() ==> final(self)@.programs_wf(),
    {
        let ghost before = self.slots@;
        match self.find_slot(number) {
            Some(i) => {
                self.slots[i].program = program;
                proof {
                    lemma_first_is_only(slot_numbers(before), number, i as int);
                    lemma_replace_in_slot(before, self.slots@, number, i as int);
                }
                true
            },
            None => {
                self.slots.push(ProgramSlot { number, program });
                proof {
                    lemma_append_slot(before, self.slots@, number);
                }
                false
            },
        }
    }

    /// Makes the program stored under `number` the one that is played, as a
    /// whole and at once. Fails, and changes nothing, where no program is
    /// stored under the number.
    pub fn change_program(&mut self, number: usize) -> (result: Result<(), Error>)
        ensures
            result == outcome(old(self)@.activate(number)),
            old(self)@.activate(number) matches Ok(mixer) ==> final(self)@ == mixer,
            result is Err ==> *final(self) == *old(self),
            old(self)@.wf() ==> final(self)@.wf(),
    {
        if self.has_program(number) {
            self.current = Some(number);
            Ok(())
        } else {
            Err(Error::NotFound(number))
        }
    }

    /// Finds the slot of the program that is being played.
    fn find_playing(&self) -> (found: Option<usize>)
        ensures
            match found {
                Some(i) => self.current is Some && is_first(
                    slot_numbers(self.slots@),
                    self.current.unwrap(),
                    i as int,
                ) && self@.playing() == Some(self.slots@[i as int].program@),
                None => self@.playing() is None,
            },
    {
        match self.current {
            Some(number) => match self.find_slot(number) {
                Some(i) => {
                    proof {
                        lemma_first_is_only(slot_numbers(self.slots@), number, i as int);
                    }
                    Some(i)
                },
                None => None,
            },
            None => None,
        }
    }

    /// Queues `message` for the event receiver `node_id` of the program that
    /// is being played. The message is not applied here: the render path
    /// takes it before it plays the next block, after every message that was
    /// sent to the receiver earlier.
    ///
    /// Fails, and changes nothing, where no program is being played or the
    /// one that is has no mailbox bound to the identifier.
    pub fn send(&mut self, node_id: u64, message: ControlMessage) -> (result: Result<(), Error>)
        ensures
            result == outcome(old(self)@.send(node_id, message)),
            old(self)@.send(node_id, message) matches Ok(mixer) ==> final(self)@ == mixer,
            result is Err ==> *final(self) == *old(self),
            old(self)@.wf() ==> final(self)@.wf(),
            old(self)@.programs_wf() ==> final(self)@.programs_wf(),
    {
        let ghost before = self.slots@;
        match self.find_playing() {
            Some(i) => {
                if self.slots[i].program.has_channel(node_id) {
                    let sent = self.slots[i].program.send(node_id, message);
                    proof {
                        lemma_replace_in_slot(before, self.slots@, self.current.unwrap(), i as int);
                    }
                    Ok(())
                } else {
                    Err(Error::UnknownNode(node_id))
                }
            },
            None => Err(Error::UnknownNode(node_id)),
        }
    }

    /// Returns the messages that wait for the event receiver `node_id` of
    /// the program that is being played, the oldest first; `None` where no
    /// program is being played or no mailbox is bound to the identifier.
    pub fn pending(&self, node_id: u64) -> (waiting: Option<Vec<ControlMessage>>)
        ensures
            match waiting {
                Some(messages) => self@.playing() matches Some(program) && program.pending(node_id)
                    == Some(messages@),
                None => self@.playing() matches Some(program) ==> program.pending(node_id) is None,
            },
    {
        match self.find_playing() {
            Some(i) => self.slots[i].program.pending(node_id),
            None => None,
        }
    }

    /// Renders the control side of one block of `frames` frames and returns
    /// the number of the program that the block was pulled from, `None`
    /// where no program is being played.
    ///
    /// The block is pulled from one program only, the one that was made the
    /// live one last: it takes the messages that wait for its event
    /// receivers and plays the frames. No other program is touched.
    pub fn render_block(&mut self, frames: usize) -> (played: Option<usize>)
        ensures
            played == old(self)@.playing_number(),
            final(self)@ == old(self)@.render_block(frames),
            old(self)@.wf() ==> final(self)@.wf(),
            old(self)@.programs_wf() ==> final(self)@.programs_wf(),
    {
        let ghost before = self.slots@;
        match self.find_playing() {
            Some(i) => {
                self.slots[i].program.process_block(frames);
                proof {
                    lemma_replace_in_slot(before, self.slots@, self.current.unwrap(), i as int);
                }
                self.current
            },
            None => None,
        }
    }
}

} // verus!
