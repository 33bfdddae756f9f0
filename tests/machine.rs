use turing::head::Direction;
use turing::tape::Tape;
use turing::table::TransitionTable;
use turing::turing_machine::{Transitionable, TuringMachine};

fn flipper(tape: Tape<bool>) -> TuringMachine<bool> {
    let mut tm = TuringMachine::new(tape);
    tm.add_transition((0, Some(true)), (0, Some(false), Direction::Right));
    tm.add_transition((0, Some(false)), (0, Some(true), Direction::Right));
    tm.add_transition((0, None), (0, None, Direction::Hold));
    tm
}

#[test]
fn simple_turing_machine() {
    let tape = Tape::tape(vec![Some(true), Some(false), Some(true), Some(false), Some(true), Some(false)]);
    let mut tm = TuringMachine::new(tape);

    tm.add_transition((0, Some(true)), (0, Some(false), Direction::Right));
    tm.add_transition((0, Some(false)), (0, Some(true), Direction::Right));
    tm.add_transition((0, None), (0, None, Direction::Hold));

    while tm.step() {
        println!("Stepping TM");
    }

    println!("TM finished: {:?}", tm.tape().contents());

    assert_eq!(tm.tape().contents_trim_blanks(), vec![Some(false), Some(true), Some(false), Some(true), Some(false), Some(true)]);
}

#[test]
fn add_transition_returns_previous_effect() {
    let mut tm: TuringMachine<u8> = TuringMachine::new(Tape::new());
    assert_eq!(tm.add_transition((0, Some(1)), (1, Some(2), Direction::Left)), None);
    assert_eq!(tm.add_transition((0, None), (3, None, Direction::Hold)), None);
    assert_eq!(
        tm.add_transition((0, Some(1)), (4, None, Direction::Right)),
        Some((1, Some(2), Direction::Left))
    );
    assert_eq!(tm.add_transition((1, Some(1)), (0, None, Direction::Right)), None);
    assert_eq!(tm.peek_transition(), Some((3, None, Direction::Hold)));
    assert_eq!(tm.transitions().entries().len(), 3);
}

#[test]
fn reset_restores_starting_state_only() {
    let mut tm = TuringMachine::with_starting_state(Tape::tape(vec![Some(1u8), Some(2)]), 5);
    tm.add_transition((5, Some(1)), (6, Some(9), Direction::Right));
    assert!(tm.step());
    assert_eq!(tm.current_state(), 6);
    assert_eq!(tm.head_pos(), 1);
    tm.reset();
    assert_eq!(tm.current_state(), 5);
    assert_eq!(tm.starting_state(), 5);
    assert_eq!(tm.head_pos(), 1);
    assert_eq!(tm.tape().contents(), vec![Some(9), Some(2)]);
}

#[test]
fn step_halts_at_fixed_point_without_change() {
    let mut tm = TuringMachine::new(Tape::tape(vec![Some('a')]));
    tm.add_transition((0, Some('a')), (0, Some('a'), Direction::Right));
    assert!(!tm.step());
    assert_eq!(tm.head_pos(), 0);
    assert_eq!(tm.current_state(), 0);
    assert_eq!(tm.tape().contents(), vec![Some('a')]);
}

#[test]
fn step_runs_when_only_the_state_changes() {
    let mut tm = TuringMachine::new(Tape::tape(vec![Some('a')]));
    tm.add_transition((0, Some('a')), (1, Some('a'), Direction::Left));
    tm.add_transition((1, None), (1, Some('b'), Direction::Hold));
    assert!(tm.step());
    assert_eq!(tm.current_state(), 1);
    assert_eq!(tm.head_pos(), -1);
    assert!(tm.step());
    assert_eq!(tm.tape().contents(), vec![Some('b'), Some('a')]);
    assert_eq!(tm.peek_transition(), None);
}

#[test]
fn peek_transition_reports_missing_entry() {
    let tm: TuringMachine<bool> = TuringMachine::new(Tape::tape(vec![Some(true)]));
    assert_eq!(tm.peek_transition(), None);
    let tm = flipper(Tape::tape(vec![Some(true)]));
    assert_eq!(tm.peek_transition(), Some((0, Some(false), Direction::Right)));
}

#[test]
fn insert_tape_replaces_tape_and_head() {
    let mut tm = flipper(Tape::tape(vec![Some(true), Some(true)]));
    assert!(tm.step());
    assert_eq!(tm.head_pos(), 1);
    tm.insert_tape(Tape::tape(vec![Some(false)]));
    assert_eq!(tm.head_pos(), 0);
    assert_eq!(tm.tape().contents(), vec![Some(false)]);
    while tm.step() {}
    assert_eq!(tm.tape().contents(), vec![Some(true)]);
    assert_eq!(tm.head_pos(), 1);
}

#[test]
fn init_fully_uses_given_table() {
    let mut table = TransitionTable::new();
    assert_eq!(table.insert((2, None), (2, Some(7u8), Direction::Right)), None);
    assert_eq!(table.get(&(2, None)), Some((2, Some(7), Direction::Right)));
    assert_eq!(table.get(&(2, Some(7))), None);
    let mut tm = TuringMachine::init_fully(Tape::new(), table, 2);
    assert!(tm.step());
    assert_eq!(tm.tape().contents(), vec![Some(7)]);
    assert_eq!(tm.head_pos(), 1);
}

#[test]
fn contents_around_head_follows_head() {
    let mut tm = flipper(Tape::tape(vec![Some(true), Some(false)]));
    assert_eq!(tm.contents_around_head(1), vec![None, Some(true), Some(false)]);
    assert!(tm.step());
    assert_eq!(tm.contents_around_head(1), vec![Some(false), Some(false), None]);
}
