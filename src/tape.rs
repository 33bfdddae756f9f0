//! The unbounded two-sided tape.
use vstd::prelude::*;

verus! {

/// What a tape holds: the cells at positions 0, 1, 2, ... in `pos`, and the
/// cells at positions -1, -2, -3, ... in `neg` (position `-(i + 1)` at index
/// `i`). Only these cells have been materialised; every other cell is blank.
pub struct TapeModel<V> {
    pub neg: Seq<Option<V>>,
    pub pos: Seq<Option<V>>,
}

/// `s` extended with blanks to at least `n` cells.
pub open spec fn grown<V>(s: Seq<Option<V>>, n: int) -> Seq<Option<V>> {
    if n <= s.len() {
        s
    } else {
        s + Seq::new((n - s.len()) as nat, |i: int| None)
    }
}

impl<V> TapeModel<V> {
    /// The tape on which nothing has been materialised.
    pub open spec fn empty() -> TapeModel<V> {
        TapeModel { neg: Seq::empty(), pos: Seq::empty() }
    }

    /// The cell at position `p`: blank outside the materialised window.
    pub open spec fn cell(self, p: int) -> Option<V> {
        if p >= 0 {
            if p < self.pos.len() {
                self.pos[p]
            } else {
                None
            }
        } else {
            if -p - 1 < self.neg.len() {
                self.neg[-p - 1]
            } else {
                None
            }
        }
    }

    /// The tape after `v` is written at `p`: the window grows to hold `p`
    /// and never shrinks.
    pub open spec fn write(self, p: int, v: Option<V>) -> TapeModel<V> {
        if p >= 0 {
            TapeModel { neg: self.neg, pos: grown(self.pos, p + 1).update(p, v) }
        } else {
            TapeModel { neg: grown(self.neg, -p).update(-p - 1, v), pos: self.pos }
        }
    }

    /// The lowest materialised position.
    pub open spec fn low(self) -> int {
        -(self.neg.len() as int)
    }

    /// One past the highest materialised position.
    pub open spec fn high(self) -> int {
        self.pos.len() as int
    }

    /// The materialised cells in ascending order of position.
    pub open spec fn contents(self) -> Seq<Option<V>> {
        self.neg.reverse() + self.pos
    }

    /// The `2 * radius + 1` cells from `center - radius` to `center + radius`.
    pub open spec fn around(self, center: int, radius: int) -> Seq<Option<V>> {
        Seq::new((2 * radius + 1) as nat, |i: int| self.cell(center - radius + i))
    }
}

/// The number of blanks at the start of `s`.
pub open spec fn leading_blanks<V>(s: Seq<Option<V>>) -> nat
    decreases s.len(),
{
    if s.len() > 0 && s[0] is None {
        1 + leading_blanks(s.drop_first())
    } else {
        0
    }
}

/// The number of blanks at the end of `s`.
pub open spec fn trailing_blanks<V>(s: Seq<Option<V>>) -> nat
    decreases s.len(),
{
    if s.len() > 0 && s.last() is None {
        1 + trailing_blanks(s.drop_last())
    } else {
        0
    }
}

/// `s` without its leading and trailing runs of blanks; blanks between
/// symbols stay.
pub open spec fn trim_blanks<V>(s: Seq<Option<V>>) -> Seq<Option<V>> {
    let t = s.subrange(leading_blanks(s) as int, s.len() as int);
    t.subrange(0, t.len() - trailing_blanks(t))
}

/// `a` blanks open `s`, and the cell after them (if any) holds a symbol.
proof fn lemma_leading_blanks<V>(s: Seq<Option<V>>, a: int)
    requires
        0 <= a <= s.len(),
        forall|i: int| 0 <= i < a ==> s[i] is None,
        a < s.len() ==> s[a] is Some,
    ensures
        leading_blanks(s) == a,
    decreases a,
{
    if a > 0 {
        lemma_leading_blanks(s.drop_first(), a - 1);
    }
}

/// `k` blanks close `s`, and the cell before them (if any) holds a symbol.
proof fn lemma_trailing_blanks<V>(s: Seq<Option<V>>, k: int)
    requires
        0 <= k <= s.len(),
        forall|i: int| s.len() - k <= i < s.len() ==> s[i] is None,
        k < s.len() ==> s[s.len() - k - 1] is Some,
    ensures
        trailing_blanks(s) == k,
    decreases k,
{
    if k > 0 {
        lemma_trailing_blanks(s.drop_last(), k - 1);
    }
}

/// The tape after each `(position, value)` of `writes` is written, in order.
pub open spec fn after_writes<V>(t: TapeModel<V>, writes: Seq<(int, Option<V>)>) -> TapeModel<V>
    decreases writes.len(),
{
    if writes.len() == 0 {
        t
    } else {
        let w = writes.last();
        after_writes(t, writes.drop_last()).write(w.0, w.1)
    }
}

/// Reading a position just written gives the value written there, and no
/// other position changes.
pub proof fn lemma_write_read<V>(t: TapeModel<V>, p: int, v: Option<V>)
    ensures
        t.write(p, v).cell(p) == v,
        forall|q: int| q != p ==> #[trigger] t.write(p, v).cell(q) == t.cell(q),
{
}

/// On a tape that starts empty, every position that no write names reads
/// blank, whatever its sign or magnitude.
pub proof fn lemma_unwritten_is_blank<V>(writes: Seq<(int, Option<V>)>, p: int)
    requires
        forall|i: int| 0 <= i < writes.len() ==> (#[trigger] writes[i]).0 != p,
    ensures
        after_writes(TapeModel::<V>::empty(), writes).cell(p) is None,
    decreases writes.len(),
{
    if writes.len() > 0 {
        let rest = writes.drop_last();
        assert forall|i: int| 0 <= i < rest.len() implies (#[trigger] rest[i]).0 != p by {
            assert(rest[i] == writes[i]);
        }
        lemma_unwritten_is_blank(rest, p);
        lemma_write_read(after_writes(TapeModel::<V>::empty(), rest), writes.last().0, writes.last().1);
    }
}

/// A tape of cells that each hold a symbol or are blank (`None`).
pub struct Tape<V> {
    /// Positions 0, 1, 2, ...
    positive_tape: Vec<Option<V>>,
    /// Positions -1, -2, -3, ...
    negative_tape: Vec<Option<V>>,
}

impl<V> View for Tape<V> {
    type V = TapeModel<V>;

    closed spec fn view(&self) -> TapeModel<V> {
        TapeModel { neg: self.negative_tape@, pos: self.positive_tape@ }
    }
}

/// Extend `v` with blanks until it has more than `index` cells.
fn fill_until<V>(v: &mut Vec<Option<V>>, index: usize)
    ensures
        final(v)@ == grown(old(v)@, index + 1),
{
    if index >= v.len() {
        let ghost start = v@;
        while v.len() <= index
            invariant
                start.len() <= v.len() <= index + 1,
                v@ == grown(start, v.len() as int),
            decreases index + 1 - v.len(),
        {
            v.push(None);
            assert(v@ =~= grown(start, v.len() as int));
        }
    } else {
        assert(v@ =~= grown(v@, index + 1));
    }
}

impl<V: Copy> Tape<V> {
    /// Create a new, empty tape.
    pub fn new() -> (r: Tape<V>)
        ensures
            r@ == TapeModel::<V>::empty(),
            r@.contents() == Seq::<Option<V>>::empty(),
    {
        let r = Tape { positive_tape: Vec::new(), negative_tape: Vec::new() };
        assert(r@.contents() =~= Seq::<Option<V>>::empty());
        r
    }

    /// Create a tape whose cells from position 0 on hold `tape`.
    pub fn tape(tape: Vec<Option<V>>) -> (r: Tape<V>)
        ensures
            r@ == (TapeModel { neg: Seq::<Option<V>>::empty(), pos: tape@ }),
    {
        Tape { positive_tape: tape, negative_tape: Vec::new() }
    }

    /// The cell at `head_pos`; blank where nothing has been materialised.
    pub fn read(&self, head_pos: isize) -> (r: Option<V>)
        ensures
            r == self@.cell(head_pos as int),
    {
        if head_pos >= 0 {
            let i = head_pos as usize;
            if i < self.positive_tape.len() {
                self.positive_tape[i]
            } else {
                None
            }
        } else {
            let i = (-(head_pos + 1)) as usize;
            if i < self.negative_tape.len() {
                self.negative_tape[i]
            } else {
                None
            }
        }
    }

    /// Write `val` at `head_pos`, growing the materialised window with
    /// blanks as far as needed.
    pub fn write(&mut self, head_pos: isize, val: Option<V>)
        ensures
            final(self)@ == old(self)@.write(head_pos as int, val),
    {
        self.fill_with_nones(head_pos);
        if head_pos >= 0 {
            let i = head_pos as usize;
            self.positive_tape.set(i, val);
        } else {
            let i = (-(head_pos + 1)) as usize;
            self.negative_tape.set(i, val);
        }
    }

    /// Fill with blanks up to and including `until`, where it lies beyond
    /// the materialised window.
    fn fill_with_nones(&mut self, until: isize)
        ensures
            until >= 0 ==> final(self)@ == (TapeModel {
                neg: old(self)@.neg,
                pos: grown(old(self)@.pos, until + 1),
            }),
            until < 0 ==> final(self)@ == (TapeModel {
                neg: grown(old(self)@.neg, -until),
                pos: old(self)@.pos,
            }),
    {
        if until >= 0 {
            fill_until(&mut self.positive_tape, until as usize);
        } else {
            fill_until(&mut self.negative_tape, (-(until + 1)) as usize);
        }
    }

    /// The materialised cells in ascending order of position; may start or
    /// end with blanks.
    pub fn contents(&self) -> (r: Vec<Option<V>>)
        ensures
            r@ == self@.contents(),
    {
        let mut r: Vec<Option<V>> = Vec::new();
        let n = self.negative_tape.len();
        let mut i: usize = n;
        while i > 0
            invariant
                i <= n,
                n == self.negative_tape.len(),
                r@ == self@.neg.reverse().subrange(0, (n - i) as int),
            decreases i,
        {
            i = i - 1;
            r.push(self.negative_tape[i]);
            assert(r@ =~= self@.neg.reverse().subrange(0, (n - i) as int));
        }
        let m = self.positive_tape.len();
        let mut j: usize = 0;
        while j < m
            invariant
                j <= m,
                m == self.positive_tape.len(),
                r@ == self@.neg.reverse() + self@.pos.subrange(0, j as int),
            decreases m - j,
        {
            r.push(self.positive_tape[j]);
            j = j + 1;
            assert(r@ =~= self@.neg.reverse() + self@.pos.subrange(0, j as int));
        }
        assert(self@.pos.subrange(0, m as int) =~= self@.pos);
        r
    }

    /// Like `contents`, without the leading and trailing blanks; blanks
    /// between symbols stay.
    pub fn contents_trim_blanks(&self) -> (r: Vec<Option<V>>)
        ensures
            r@ == trim_blanks(self@.contents()),
    {
        let c = self.contents();
        let n = c.len();
        let mut a: usize = 0;
        while a < n && c[a].is_none()
            invariant
                a <= n,
                n == c@.len(),
                forall|i: int| 0 <= i < a ==> c@[i] is None,
            decreases n - a,
        {
            a = a + 1;
        }
        proof {
            lemma_leading_blanks(c@, a as int);
        }
        let mut b: usize = n;
        while b > a && c[b - 1].is_none()
            invariant
                a <= b <= n,
                n == c@.len(),
                forall|i: int| b <= i < n ==> c@[i] is None,
            decreases b,
        {
            b = b - 1;
        }
        let ghost t = c@.subrange(a as int, n as int);
        proof {
            lemma_trailing_blanks(t, (n - b) as int);
        }
        let mut r: Vec<Option<V>> = Vec::new();
        let mut k: usize = a;
        while k < b
            invariant
                a <= k <= b <= n,
                n == c@.len(),
                r@ == c@.subrange(a as int, k as int),
            decreases b - k,
        {
            r.push(c[k]);
            k = k + 1;
            assert(r@ =~= c@.subrange(a as int, k as int));
        }
        assert(r@ =~= t.subrange(0, t.len() - trailing_blanks(t)));
        r
    }

    /// The `2 * radius + 1` cells centred on `center`, each blank where
    /// nothing has been materialised. The tape is left as it is.
    pub fn contents_around(&self, center: isize, radius: usize) -> (r: Vec<Option<V>>)
        requires
            center - radius >= isize::MIN,
            center + radius <= isize::MAX,
        ensures
            r@ == self@.around(center as int, radius as int),
    {
        let mut r: Vec<Option<V>> = Vec::new();
        let low: isize = (center - radius as isize) as isize;
        let high: isize = (center + radius as isize) as isize;
        let mut p: isize = low;
        loop
            invariant_except_break
                r@ =~= self@.around(center as int, radius as int).subrange(0, p - low),
            invariant
                low == center - radius,
                high == center + radius,
                low <= p <= high,
            ensures
                r@ =~= self@.around(center as int, radius as int),
            decreases high - p,
        {
            r.push(self.read(p));
            if p == high {
                break;
            }
            p = p + 1;
        }
        r
    }
}

} // verus!
