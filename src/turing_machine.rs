//! The stepping engine: a tape, a head, a current state and a transition
//! table, with halting at a fixed point.
use vstd::prelude::*;
use crate::head::{can_move, moved, Head, TuringHead};
use crate::symbol::{same_cell, Tapeable};
use crate::table::{Cause, Effect, State, TransitionTable};
use crate::tape::{Tape, TapeModel};

verus! {

/// What a machine is: its configured starting state, its current state, its
/// tape, the position of its head, and its transition table.
#[verifier::reject_recursive_types(V)]
pub struct MachineModel<V> {
    pub starting: State,
    pub current: State,
    pub tape: TapeModel<V>,
    pub head: int,
    pub table: Map<Cause<V>, Effect<V>>,
}

impl<V> MachineModel<V> {
    /// The cell under the head.
    pub open spec fn under_head(self) -> Option<V> {
        self.tape.cell(self.head)
    }

    /// The transition bound to the current state and the cell under the head.
    pub open spec fn next(self) -> Option<Effect<V>> {
        let k = (self.current, self.under_head());
        if self.table.contains_key(k) {
            Some(self.table[k])
        } else {
            None
        }
    }

    /// Whether `e` would change neither the state nor the cell under the head.
    pub open spec fn is_fixed_point(self, e: Effect<V>) -> bool {
        e.0 == self.current && e.1 == self.under_head()
    }

    /// The machine after it performs `e`: it takes the next state, writes the
    /// cell under the head, then moves the head.
    pub open spec fn after(self, e: Effect<V>) -> MachineModel<V> {
        MachineModel {
            current: e.0,
            tape: self.tape.write(self.head, e.1),
            head: moved(self.head, e.2),
            ..self
        }
    }

    /// Whether the head can take any one step without leaving the range of
    /// `isize`.
    pub open spec fn head_in_range(self) -> bool {
        isize::MIN < self.head < isize::MAX
    }
}

/// A machine steps by its transition table until the transition it finds
/// would change nothing.
pub trait Transitionable<V> {
    /// What the machine is.
    spec fn model(&self) -> MachineModel<V>;

    /// Whether the machine's parts are consistent.
    spec fn valid(&self) -> bool;

    /// Reset the machine to its starting state, so that a calculation starts
    /// over. The tape and the head stay as they are.
    fn reset(&mut self)
        requires
            old(self).valid(),
        ensures
            final(self).valid(),
            final(self).model() == (MachineModel { current: old(self).model().starting, ..old(self).model() }),
    ;

    /// The next transition, without performing it; `None` where the table has
    /// no transition for the current state and the cell under the head.
    fn peek_transition(&self) -> (r: Option<Effect<V>>)
        requires
            self.valid(),
        ensures
            r == self.model().next(),
    ;

    /// Perform the next transition. Returns `false`, changing nothing, where
    /// that transition would change neither the state nor the cell under the
    /// head; returns `true` once it has been performed.
    fn step(&mut self) -> (r: bool)
        requires
            old(self).valid(),
            old(self).model().next() is Some,
            old(self).model().head_in_range(),
        ensures
            final(self).valid(),
            ({
                let m = old(self).model();
                let e = m.next()->0;
                if m.is_fixed_point(e) {
                    !r && final(self).model() == m
                } else {
                    r && final(self).model() == m.after(e)
                }
            }),
    ;
}

/// A single-tape deterministic Turing machine.
pub struct TuringMachine<V> {
    starting_state: State,
    current_state: State,
    tape: Tape<V>,
    head: Head,
    transitions: TransitionTable<V>,
}

impl<V: Tapeable> TuringMachine<V> {
    /// A machine with `tape` inserted, an empty transition table, and
    /// starting state 0.
    pub fn new(tape: Tape<V>) -> (r: TuringMachine<V>)
        ensures
            r.valid(),
            r.model() == (MachineModel {
                starting: 0,
                current: 0,
                tape: tape@,
                head: 0,
                table: Map::<Cause<V>, Effect<V>>::empty(),
            }),
    {
        TuringMachine {
            starting_state: 0,
            current_state: 0,
            tape,
            head: Head::new(),
            transitions: TransitionTable::new(),
        }
    }

    /// A machine with `tape` inserted, an empty transition table, and the
    /// given starting state.
    pub fn with_starting_state(tape: Tape<V>, starting_state: State) -> (r: TuringMachine<V>)
        ensures
            r.valid(),
            r.model() == (MachineModel {
                starting: starting_state,
                current: starting_state,
                tape: tape@,
                head: 0,
                table: Map::<Cause<V>, Effect<V>>::empty(),
            }),
    {
        TuringMachine {
            starting_state,
            current_state: starting_state,
            tape,
            head: Head::new(),
            transitions: TransitionTable::new(),
        }
    }

    /// A machine with the tape holding its input, its full transition table,
    /// and the state it starts from.
    pub fn init_fully(tape: Tape<V>, transitions: TransitionTable<V>, starting_state: State) -> (r: TuringMachine<V>)
        requires
            transitions.wf(),
        ensures
            r.valid(),
            r.model() == (MachineModel {
                starting: starting_state,
                current: starting_state,
                tape: tape@,
                head: 0,
                table: transitions@,
            }),
    {
        TuringMachine {
            starting_state,
            current_state: starting_state,
            tape,
            head: Head::new(),
            transitions,
        }
    }

    /// Replace the tape. The head starts over at position 0 of the new tape.
    pub fn insert_tape(&mut self, tape: Tape<V>)
        requires
            old(self).valid(),
        ensures
            final(self).valid(),
            final(self).model() == (MachineModel { tape: tape@, head: 0, ..old(self).model() }),
    {
        self.tape = tape;
        self.head = Head::new();
    }

    /// Add a transition. Where `cause` was already bound, that binding is
    /// replaced and returned.
    pub fn add_transition(&mut self, cause: Cause<V>, effect: Effect<V>) -> (r: Option<Effect<V>>)
        requires
            old(self).valid(),
        ensures
            final(self).valid(),
            final(self).model() == (MachineModel {
                table: old(self).model().table.insert(cause, effect),
                ..old(self).model()
            }),
            r == (if old(self).model().table.contains_key(cause) {
                Some(old(self).model().table[cause])
            } else {
                None
            }),
    {
        self.transitions.insert(cause, effect)
    }

    /// The tape.
    pub fn tape(&self) -> (r: &Tape<V>)
        ensures
            r@ == self.model().tape,
    {
        &self.tape
    }

    /// The transition table.
    pub fn transitions(&self) -> (r: &TransitionTable<V>)
        requires
            self.valid(),
        ensures
            r.wf(),
            r@ == self.model().table,
    {
        &self.transitions
    }

    /// The state the machine is in.
    pub fn current_state(&self) -> (r: State)
        ensures
            r == self.model().current,
    {
        self.current_state
    }

    /// The state the machine starts from, and returns to on reset.
    pub fn starting_state(&self) -> (r: State)
        ensures
            r == self.model().starting,
    {
        self.starting_state
    }

    /// The position of the head.
    pub fn head_pos(&self) -> (r: isize)
        ensures
            r == self.model().head,
    {
        self.head.pos()
    }

    /// The `2 * radius + 1` cells centred on the head, each blank where
    /// nothing has been materialised.
    pub fn contents_around_head(&self, radius: usize) -> (r: Vec<Option<V>>)
        requires
            self.model().head - radius >= isize::MIN,
            self.model().head + radius <= isize::MAX,
        ensures
            r@ == self.model().tape.around(self.model().head, radius as int),
    {
        self.tape.contents_around(self.head.pos(), radius)
    }
}

impl<V: Tapeable> Transitionable<V> for TuringMachine<V> {
    closed spec fn model(&self) -> MachineModel<V> {
        MachineModel {
            starting: self.starting_state,
            current: self.current_state,
            tape: self.tape@,
            head: self.head.position(),
            table: self.transitions@,
        }
    }

    closed spec fn valid(&self) -> bool {
        &&& self.transitions.wf()
        &&& isize::MIN <= self.head.position() <= isize::MAX
    }

    fn reset(&mut self) {
        self.current_state = self.starting_state;
    }

    fn peek_transition(&self) -> (r: Option<Effect<V>>) {
        let cause: Cause<V> = (self.current_state, self.head.read(&self.tape));
        self.transitions.get(&cause)
    }

    fn step(&mut self) -> (r: bool) {
        let (new_state, value, dir) = self.peek_transition().unwrap();
        let under = self.head.read(&self.tape);
        if self.current_state == new_state && same_cell(&under, &value) {
            return false;
        }
        self.current_state = new_state;
        self.head.write(&mut self.tape, value);
        self.head.mv(dir);
        true
    }
}

} // verus!
