//! Head movement: directions and a head that holds an absolute position.
use vstd::prelude::*;
use crate::tape::Tape;
use crate::text::chars_of;

verus! {

/// The direction in which the head moves after a transition.
#[derive(PartialEq, Eq, Structural, Clone, Copy, Debug)]
pub enum Direction {
    Left,
    Hold,
    Right,
}

/// The lower-case form of an ASCII letter; every other character is kept.
pub open spec fn ascii_lower(c: char) -> char {
    if 'A' <= c && c <= 'Z' {
        ((c as u8) + 32) as char
    } else {
        c
    }
}

/// Whether `s` equals `word` when ASCII letters are compared without case.
pub open spec fn same_ignoring_case(s: Seq<char>, word: Seq<char>) -> bool {
    &&& s.len() == word.len()
    &&& forall|i: int| 0 <= i < s.len() ==> ascii_lower(#[trigger] s[i]) == word[i]
}

/// The direction that a text names, compared without case: `left`, `hold`
/// or `right`.
pub open spec fn direction_of(s: Seq<char>) -> Option<Direction> {
    if same_ignoring_case(s, seq!['l', 'e', 'f', 't']) {
        Some(Direction::Left)
    } else if same_ignoring_case(s, seq!['h', 'o', 'l', 'd']) {
        Some(Direction::Hold)
    } else if same_ignoring_case(s, seq!['r', 'i', 'g', 'h', 't']) {
        Some(Direction::Right)
    } else {
        None
    }
}

fn lower_char(c: char) -> (r: char)
    ensures
        r == ascii_lower(c),
{
    if 'A' <= c && c <= 'Z' {
        ((c as u8) + 32) as char
    } else {
        c
    }
}

/// Whether the characters of `s` spell the lower-case `word`, ignoring the
/// case of ASCII letters.
fn matches_word(s: &Vec<char>, word: &str) -> (r: bool)
    ensures
        r == same_ignoring_case(s@, word@),
{
    let n = word.unicode_len();
    if s.len() != n {
        return false;
    }
    let mut i: usize = 0;
    while i < n
        invariant
            n == s.len(),
            n == word@.len(),
            i <= n,
            forall|j: int| 0 <= j < i ==> ascii_lower(#[trigger] s@[j]) == word@[j],
        decreases n - i,
    {
        if lower_char(s[i]) != word.get_char(i) {
            return false;
        }
        i = i + 1;
    }
    true
}

impl Direction {
    /// The change of position this direction stands for: -1, 0 or +1.
    pub open spec fn delta(self) -> int {
        match self {
            Direction::Left => -1,
            Direction::Hold => 0,
            Direction::Right => 1,
        }
    }

    /// Parse a direction, ignoring case. Returns `None` for any text that is
    /// not `left`, `hold` or `right`.
    pub fn from_str(s: &str) -> (r: Option<Direction>)
        ensures
            r == direction_of(s@),
    {
        let chars = chars_of(s);
        proof {
            reveal_strlit("left");
            reveal_strlit("hold");
            reveal_strlit("right");
        }
        if matches_word(&chars, "left") {
            Some(Direction::Left)
        } else if matches_word(&chars, "hold") {
            Some(Direction::Hold)
        } else if matches_word(&chars, "right") {
            Some(Direction::Right)
        } else {
            None
        }
    }
}

/// The position a head at `pos` reaches by moving in `direction`.
pub open spec fn moved(pos: int, direction: Direction) -> int {
    pos + direction.delta()
}

/// Whether a head at `pos` can move in `direction` without leaving the range
/// of `isize`.
pub open spec fn can_move(pos: int, direction: Direction) -> bool {
    isize::MIN <= moved(pos, direction) <= isize::MAX
}

/// A turing head may only move one position left or right at a time to read
/// from or write to a tape.
pub trait TuringHead {
    /// The position the head is at.
    spec fn position(&self) -> int;

    /// Move the head in a direction, or hold it.
    fn mv(&mut self, direction: Direction)
        requires
            can_move(old(self).position(), direction),
        ensures
            final(self).position() == moved(old(self).position(), direction),
    ;

    /// Move the head one position left.
    fn mv_left(&mut self)
        requires
            can_move(old(self).position(), Direction::Left),
        ensures
            final(self).position() == old(self).position() - 1,
    ;

    /// Move the head one position right.
    fn mv_right(&mut self)
        requires
            can_move(old(self).position(), Direction::Right),
        ensures
            final(self).position() == old(self).position() + 1,
    ;

    /// The cell under the head.
    fn read<V: Copy>(&self, tape: &Tape<V>) -> (r: Option<V>)
        ensures
            r == tape@.cell(self.position()),
    ;

    /// Write `val` at the head's position.
    fn write<V: Copy>(&self, tape: &mut Tape<V>, val: Option<V>)
        ensures
            final(tape)@ == old(tape)@.write(self.position(), val),
    ;

    /// The position the head is at.
    fn pos(&self) -> (r: isize)
        ensures
            r == self.position(),
    ;
}

/// A simple turing head that holds its absolute position.
pub struct Head {
    /// The position the head is currently at. Starts at 0.
    pos: isize,
}

impl Head {
    /// Create a new head at position 0.
    pub fn new() -> (r: Head)
        ensures
            r.position() == 0,
    {
        Head { pos: 0 }
    }

    /// Move the head in `direction` and return the cell now under it.
    pub fn mv_read<V: Copy>(&mut self, direction: Direction, tape: &Tape<V>) -> (r: Option<V>)
        requires
            can_move(old(self).position(), direction),
        ensures
            final(self).position() == moved(old(self).position(), direction),
            r == tape@.cell(final(self).position()),
    {
        self.mv(direction);
        self.read(tape)
    }
}

impl TuringHead for Head {
    closed spec fn position(&self) -> int {
        self.pos as int
    }

    fn mv(&mut self, direction: Direction) {
        match direction {
            Direction::Left => self.pos = self.pos - 1,
            Direction::Hold => {},
            Direction::Right => self.pos = self.pos + 1,
        }
    }

    fn mv_left(&mut self) {
        self.mv(Direction::Left)
    }

    fn mv_right(&mut self) {
        self.mv(Direction::Right)
    }

    fn read<V: Copy>(&self, tape: &Tape<V>) -> (r: Option<V>) {
        tape.read(self.pos)
    }

    fn write<V: Copy>(&self, tape: &mut Tape<V>, val: Option<V>) {
        tape.write(self.pos, val);
    }

    fn pos(&self) -> (r: isize) {
        self.pos
    }
}

/// Moving left, then right, then holding brings a head back to where it
/// started.
pub proof fn lemma_move_round_trip(pos: int)
    ensures
        moved(moved(moved(pos, Direction::Left), Direction::Right), Direction::Hold) == pos,
{
}

} // verus!
