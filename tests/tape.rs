use turing::tape::Tape;

#[test]
fn tape_contents_trim_blanks() {
    let tape = Tape::tape(vec![None, None, Some(true), None, None, Some(true), None, None]);
    assert_eq!(tape.contents_trim_blanks(), vec![Some(true), None, None, Some(true)]);
}

#[test]
fn tape_default_empty() {
    let tape: Tape<u8> = Tape::new();
    assert_eq!(tape.contents(), vec![]);
}

#[test]
fn tape_contents() {
    let tape = Tape::tape(vec![Some(1010), None, None, Some(68), None]);
    assert_eq!(tape.contents(), vec![Some(1010), None, None, Some(68), None]);
}

#[test]
fn tape_read_positive() {
    let tape = Tape::tape(vec![Some(-191), None, Some(1)]);
    assert_eq!(tape.read(2), Some(1));
}

#[test]
fn tape_read_oob_neg() {
    let tape = Tape::tape(vec![Some("Hello"), Some(","), Some("there")]);
    assert_eq!(tape.read(-15701), None);
}

#[test]
fn tape_read_oob_pos() {
    let tape = Tape::tape(vec![Some("Is"), None, Some("this"), None, Some("the"), None, Some("end?")]);
    assert_eq!(tape.read(4000), None);
}

#[test]
fn tape_write_oob_neg() {
    let mut tape = Tape::new();
    tape.write(-42, Some(42));
    assert_eq!(tape.read(-42), Some(42));
}

#[test]
fn tape_write_oob_pos() {
    let mut tape = Tape::new();
    tape.write(1337, Some("body once told me"));
    assert_eq!(tape.read(1337), Some("body once told me"));
}

#[test]
fn unwritten_positions_read_blank() {
    let mut tape: Tape<u8> = Tape::new();
    for p in [0isize, -1, 1, -1000, 1000, isize::MIN, isize::MAX] {
        assert_eq!(tape.read(p), None);
    }
    tape.write(3, Some(7));
    tape.write(-5, Some(9));
    for p in [0isize, 1, 2, 4, -1, -4, -6, isize::MIN, isize::MAX] {
        assert_eq!(tape.read(p), None);
    }
}

#[test]
fn write_then_read_at_boundaries() {
    let mut tape: Tape<i32> = Tape::new();
    for (p, v) in [(0isize, 1), (-1, 2), (-42, 3), (1337, 4)] {
        tape.write(p, Some(v));
        assert_eq!(tape.read(p), Some(v));
    }
    assert_eq!(tape.read(0), Some(1));
    assert_eq!(tape.read(-1), Some(2));
    tape.write(0, None);
    assert_eq!(tape.read(0), None);
    assert_eq!(tape.read(-1), Some(2));
}

#[test]
fn write_grows_window_with_blanks() {
    let mut tape: Tape<u8> = Tape::new();
    tape.write(2, Some(1));
    assert_eq!(tape.contents(), vec![None, None, Some(1)]);
    tape.write(-2, Some(5));
    assert_eq!(tape.contents(), vec![Some(5), None, None, None, Some(1)]);
    tape.write(0, Some(3));
    assert_eq!(tape.contents(), vec![Some(5), None, Some(3), None, Some(1)]);
}

#[test]
fn trim_keeps_interior_blanks_across_origin() {
    let mut tape: Tape<char> = Tape::new();
    tape.write(-4, None);
    tape.write(-2, Some('x'));
    tape.write(1, Some('y'));
    tape.write(5, None);
    assert_eq!(tape.contents().len(), 10);
    assert_eq!(tape.contents_trim_blanks(), vec![Some('x'), None, None, Some('y')]);
}

#[test]
fn trim_of_all_blanks_is_empty() {
    let tape: Tape<u8> = Tape::tape(vec![None, None, None]);
    assert_eq!(tape.contents_trim_blanks(), vec![]);
    let empty: Tape<u8> = Tape::new();
    assert_eq!(empty.contents_trim_blanks(), vec![]);
}

#[test]
fn contents_around_reads_a_window() {
    let tape = Tape::tape(vec![Some(1u8), Some(2), Some(3)]);
    assert_eq!(tape.contents_around(0, 2), vec![None, None, Some(1), Some(2), Some(3)]);
    assert_eq!(tape.contents_around(2, 0), vec![Some(3)]);
    assert_eq!(tape.contents_around(isize::MAX, 0), vec![None]);
    assert_eq!(tape.contents(), vec![Some(1), Some(2), Some(3)]);
}
