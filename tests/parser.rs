use turing::head::Direction;
use turing::lexicaliser::{LexError, State};
use turing::parser::{between_brackets, parse_simple_turing_machine, ParseError};
use turing::tape::Tape;
use turing::turing_machine::{Transitionable, TuringMachine};

const FLIP: &str = "
        () -> (1)
        (1, true) -> (1, false, Right)
        (1, false) -> (1, true, Right)
        (1, None) -> (1, None, Hold)
        ";

fn parse_err(src: &str) -> ParseError {
    match parse_simple_turing_machine::<bool>(src) {
        Ok(_) => panic!("parsed: {}", src),
        Err(e) => e,
    }
}

#[test]
fn test_simple_tm_parse() {
    let source = FLIP.to_string();
    let tape = Tape::tape(vec![Some(true), Some(false), Some(true), Some(false), Some(true), Some(false)]);
    let mut tm = parse_simple_turing_machine(&source).expect("Could not parse turing machine");
    tm.insert_tape(tape);

    while tm.step() {
        println!("Stepping TM");
    }

    println!("TM finished: {:?}", tm.tape().contents());

    assert_eq!(tm.tape().contents_trim_blanks(), vec![Some(false), Some(true), Some(false), Some(true), Some(false), Some(true)]);
}

#[test]
fn parse_sets_starting_state_and_table() {
    let tm: TuringMachine<bool> = parse_simple_turing_machine(FLIP).unwrap();
    assert_eq!(tm.starting_state(), 1);
    assert_eq!(tm.current_state(), 1);
    assert_eq!(tm.head_pos(), 0);
    assert_eq!(tm.tape().contents(), vec![]);
    assert_eq!(tm.transitions().entries().len(), 3);
    assert_eq!(tm.transitions().get(&(1, None)), Some((1, None, Direction::Hold)));
}

#[test]
fn parse_defaults_starting_state_to_zero() {
    let tm: TuringMachine<u8> = parse_simple_turing_machine("(0, 1) -> (2, None, left)").unwrap();
    assert_eq!(tm.starting_state(), 0);
    assert_eq!(tm.transitions().get(&(0, Some(1))), Some((2, None, Direction::Left)));
    let tm: TuringMachine<u8> = parse_simple_turing_machine("").unwrap();
    assert_eq!(tm.starting_state(), 0);
    assert_eq!(tm.transitions().entries().len(), 0);
}

#[test]
fn parse_later_clauses_win() {
    let tm: TuringMachine<char> = parse_simple_turing_machine(
        "() -> (3) (3, a) -> (4, b, Right) () -> (+7) (3, a) -> (5, None, HOLD)",
    )
    .unwrap();
    assert_eq!(tm.starting_state(), 7);
    assert_eq!(tm.transitions().get(&(3, Some('a'))), Some((5, None, Direction::Hold)));
    assert_eq!(tm.transitions().entries().len(), 1);
}

#[test]
fn parse_errors() {
    assert_eq!(parse_err("(1, true)"), ParseError::ImplyingNothing);
    assert_eq!(parse_err("->"), ParseError::NotImplicationForm);
    assert_eq!(parse_err("(1, true) ->"), ParseError::ImplyingNothing);
    assert_eq!(parse_err("(1, true) (1, true, Left)"), ParseError::NotImplicationForm);
    assert_eq!(parse_err("-> -> (1)"), ParseError::NotImplicationForm);
    assert_eq!(parse_err("() -> ->"), ParseError::NotImplicationForm);
    assert_eq!(parse_err("() ->"), ParseError::ImplyingNothing);
    assert_eq!(parse_err("(1) -> (1)"), ParseError::WrongNumberOfArguments);
    assert_eq!(parse_err("(1, true) -> (1, false)"), ParseError::WrongNumberOfArguments);
    assert_eq!(parse_err("() -> (None)"), ParseError::MustHaveStartingState);
    assert_eq!(parse_err("() -> (-1)"), ParseError::InvalidType);
    assert_eq!(parse_err("(q, true) -> (1, false, Right)"), ParseError::InvalidType);
    assert_eq!(parse_err("(None, true) -> (1, false, Right)"), ParseError::InvalidType);
    assert_eq!(parse_err("(1, yes) -> (1, false, Right)"), ParseError::InvalidType);
    assert_eq!(parse_err("(1, true) -> (1, false, Up)"), ParseError::InvalidType);
    assert_eq!(parse_err("(1, true) -> (1, false, None)"), ParseError::MissingDirection);
    assert_eq!(parse_err("(1, true) -> (1, false, Right) )"), ParseError::SyntaxError(LexError::UnexpectedToken(')')));
    assert_eq!(parse_err("(1, true) -> (1"), ParseError::SyntaxError(LexError::InvalidHoldState(State::InsideTuple)));
}

#[test]
fn parse_reports_the_first_bad_field() {
    assert_eq!(parse_err("(1, yes) -> (1, false, None)"), ParseError::InvalidType);
    assert_eq!(parse_err("(1, true) -> (x, false, None)"), ParseError::InvalidType);
    assert_eq!(parse_err("() -> (1) (1, true)"), ParseError::ImplyingNothing);
    assert_eq!(parse_err("() -> (1)\n(1, true) ->"), ParseError::ImplyingNothing);
    assert_eq!(parse_err("(1, true) -> (1, false, Up) (9) -> (9)"), ParseError::InvalidType);
}

#[test]
fn between_brackets_takes_the_inner_text() {
    assert_eq!(between_brackets("(abc)"), Some("abc".to_string()));
    assert_eq!(between_brackets("  (1, true)\n"), Some("1, true".to_string()));
    assert_eq!(between_brackets("()"), Some(String::new()));
    assert_eq!(between_brackets("(a)("), None);
    assert_eq!(between_brackets(" (1, a) "), Some("1, a".to_string()));
    assert_eq!(between_brackets("x(a)"), None);
    assert_eq!(between_brackets("(a)x"), None);
    assert_eq!(between_brackets("((a))"), None);
    assert_eq!(between_brackets("(a"), None);
    assert_eq!(between_brackets("a)"), None);
    assert_eq!(between_brackets(""), None);
}
