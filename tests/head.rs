use turing::head::{Direction, Head, TuringHead};
use turing::tape::Tape;

#[test]
fn direction_from_str() {
    assert_eq!(Direction::from_str("Left"), Some(Direction::Left));
    assert_eq!(Direction::from_str("Hello, world"), None);
}

#[test]
fn direction_from_str_ignores_case() {
    assert_eq!(Direction::from_str("LEFT"), Some(Direction::Left));
    assert_eq!(Direction::from_str("hOlD"), Some(Direction::Hold));
    assert_eq!(Direction::from_str("right"), Some(Direction::Right));
    assert_eq!(Direction::from_str("rIgHt"), Some(Direction::Right));
    assert_eq!(Direction::from_str("up"), None);
    assert_eq!(Direction::from_str(""), None);
    assert_eq!(Direction::from_str("lef"), None);
    assert_eq!(Direction::from_str(" left"), None);
}

#[test]
fn head_default_pos() {
    assert_eq!(Head::new().pos(), 0);
}

#[test]
fn head_mv() {
    let mut head = Head::new();
    head.mv(Direction::Left);
    head.mv(Direction::Right);
    head.mv(Direction::Hold);
    assert_eq!(head.pos(), 0);
}

#[test]
fn head_mv_right() {
    let mut head = Head::new();
    head.mv_right();
    assert_eq!(head.pos(), 1);
}

#[test]
fn head_mv_left() {
    let mut head = Head::new();
    head.mv_left();
    assert_eq!(head.pos(), -1);
}

#[test]
fn head_read() {
    let mut head = Head::new();
    head.mv_right();
    let tape = Tape::tape(vec![Some(true), Some(false), None]);
    assert_eq!(head.read(&tape), Some(false));
}

#[test]
fn head_write() {
    let mut head = Head::new();
    head.mv_left();
    let mut tape = Tape::tape(vec![Some(false), None, Some(true)]);
    head.write(&mut tape, Some(false));
    assert_eq!(head.read(&tape), Some(false));
}

#[test]
fn head_mv_read_reads_after_moving() {
    let mut head = Head::new();
    let tape = Tape::tape(vec![Some(10u8), Some(20), Some(30)]);
    assert_eq!(head.mv_read(Direction::Right, &tape), Some(20));
    assert_eq!(head.mv_read(Direction::Hold, &tape), Some(20));
    assert_eq!(head.mv_read(Direction::Left, &tape), Some(10));
    assert_eq!(head.mv_read(Direction::Left, &tape), None);
    assert_eq!(head.pos(), -1);
}
