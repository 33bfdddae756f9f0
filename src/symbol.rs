//! Symbols that a tape can hold and a transition table can name, and the
//! texts they are written as.
use vstd::prelude::*;
use crate::text::chars_of;

verus! {

/// Whether `c` is an ASCII decimal digit.
pub open spec fn is_digit(c: char) -> bool {
    '0' <= c && c <= '9'
}

/// Whether `s` is one or more ASCII decimal digits.
pub open spec fn all_digits(s: Seq<char>) -> bool {
    &&& s.len() > 0
    &&& forall|i: int| 0 <= i < s.len() ==> is_digit(#[trigger] s[i])
}

/// The number that the decimal digits of `s` stand for.
pub open spec fn decimal_value(s: Seq<char>) -> int
    decreases s.len(),
{
    if s.len() == 0 {
        0
    } else {
        10 * decimal_value(s.drop_last()) + (s.last() as int - '0' as int)
    }
}

/// The number an unsigned decimal text stands for: an optional `+`, then
/// one or more digits.
pub open spec fn unsigned_text(s: Seq<char>) -> Option<int> {
    let d = if s.len() > 0 && s[0] == '+' { s.drop_first() } else { s };
    if all_digits(d) {
        Some(decimal_value(d))
    } else {
        None
    }
}

/// The number a signed decimal text stands for: an optional `+` or `-`,
/// then one or more digits.
pub open spec fn signed_text(s: Seq<char>) -> Option<int> {
    if s.len() > 0 && s[0] == '-' {
        if all_digits(s.drop_first()) {
            Some(-decimal_value(s.drop_first()))
        } else {
            None
        }
    } else {
        unsigned_text(s)
    }
}

/// The number `text` stands for where it lies within `lo..=hi`.
pub open spec fn within(text: Option<int>, lo: int, hi: int) -> Option<int> {
    if text is Some && lo <= text->0 <= hi {
        text
    } else {
        None
    }
}

/// A value that can stand in a cell of a tape and in a transition table.
pub trait Tapeable: Copy + Sized {
    /// The symbol that the text `s` denotes, if any.
    spec fn parsed(s: Seq<char>) -> Option<Self>;

    /// Read a symbol from its text.
    fn from_text(s: &str) -> (r: Option<Self>)
        ensures
            r == Self::parsed(s@),
    ;

    /// Whether two symbols are the same.
    fn same(&self, other: &Self) -> (r: bool)
        ensures
            r == (*self == *other),
    ;
}

/// Whether two cells hold the same symbol, or are both blank.
pub fn same_cell<V: Tapeable>(a: &Option<V>, b: &Option<V>) -> (r: bool)
    ensures
        r == (*a == *b),
{
    match (a, b) {
        (Some(x), Some(y)) => x.same(y),
        (None, None) => true,
        _ => false,
    }
}

/// Decimal digits never stand for a negative number.
proof fn lemma_decimal_nonneg(s: Seq<char>)
    requires
        forall|i: int| 0 <= i < s.len() ==> is_digit(#[trigger] s[i]),
    ensures
        decimal_value(s) >= 0,
    decreases s.len(),
{
    if s.len() > 0 {
        lemma_decimal_nonneg(s.drop_last());
    }
}

/// Among the prefixes of a string of digits, a longer one never has a
/// smaller value.
proof fn lemma_decimal_prefix(s: Seq<char>, j: int, k: int)
    requires
        0 <= j <= k <= s.len(),
        forall|i: int| 0 <= i < s.len() ==> is_digit(#[trigger] s[i]),
    ensures
        decimal_value(s.subrange(0, j)) <= decimal_value(s.subrange(0, k)),
    decreases k - j,
{
    if j < k {
        lemma_decimal_prefix(s, j, k - 1);
        assert(s.subrange(0, k).drop_last() =~= s.subrange(0, k - 1));
        lemma_decimal_nonneg(s.subrange(0, k - 1));
    }
}

/// The value of the digits of `s` from `start` on, where they are one or
/// more digits whose value is at most `limit`.
fn digits_from(s: &Vec<char>, start: usize, limit: u128) -> (r: Option<u128>)
    requires
        start <= s.len(),
        limit <= u64::MAX,
    ensures
        ({
            let d = s@.subrange(start as int, s.len() as int);
            &&& all_digits(d) ==> decimal_value(d) >= 0
            &&& r is Some <==> all_digits(d) && decimal_value(d) <= limit
            &&& r is Some ==> r->0 == decimal_value(d)
        }),
{
    let ghost d = s@.subrange(start as int, s.len() as int);
    let n = s.len();
    proof {
        if all_digits(d) {
            lemma_decimal_nonneg(d);
        }
    }
    if start == n {
        return None;
    }
    let mut v: u128 = 0;
    let mut i: usize = start;
    while i < n
        invariant
            start <= i <= n,
            n == s.len(),
            d == s@.subrange(start as int, n as int),
            limit <= u64::MAX,
            v <= limit,
            v == decimal_value(d.subrange(0, i - start)),
            forall|k: int| 0 <= k < i - start ==> is_digit(#[trigger] d[k]),
        decreases n - i,
    {
        let c = s[i];
        if !('0' <= c && c <= '9') {
            assert(!is_digit(d[i - start]));
            return None;
        }
        assert(d.subrange(0, i - start + 1).drop_last() =~= d.subrange(0, i - start));
        v = v * 10 + ((c as u32) - ('0' as u32)) as u128;
        i = i + 1;
        if v > limit {
            proof {
                if all_digits(d) {
                    lemma_decimal_prefix(d, i - start, d.len() as int);
                    assert(d.subrange(0, d.len() as int) =~= d);
                }
            }
            return None;
        }
    }
    assert(d.subrange(0, d.len() as int) =~= d);
    Some(v)
}

/// Read an unsigned decimal text whose value is at most `max`.
fn parse_unsigned(s: &str, max: u128) -> (r: Option<u128>)
    requires
        max <= u64::MAX,
    ensures
        r is Some <==> within(unsigned_text(s@), 0, max as int) is Some,
        r is Some ==> r->0 == within(unsigned_text(s@), 0, max as int)->0,
{
    let c = chars_of(s);
    if c.len() > 0 && c[0] == '+' {
        assert(c@.subrange(1, c@.len() as int) =~= s@.drop_first());
        digits_from(&c, 1, max)
    } else {
        assert(c@.subrange(0, c@.len() as int) =~= s@);
        digits_from(&c, 0, max)
    }
}

/// Read a signed decimal text whose value lies within `min..=max`.
fn parse_signed(s: &str, min: i128, max: i128) -> (r: Option<i128>)
    requires
        -u64::MAX <= min <= 0 <= max <= u64::MAX,
    ensures
        r is Some <==> within(signed_text(s@), min as int, max as int) is Some,
        r is Some ==> r->0 == within(signed_text(s@), min as int, max as int)->0,
{
    let c = chars_of(s);
    if c.len() > 0 && c[0] == '-' {
        assert(c@.subrange(1, c@.len() as int) =~= s@.drop_first());
        match digits_from(&c, 1, (-min) as u128) {
            Some(m) => Some(-(m as i128)),
            None => None,
        }
    } else {
        let start: usize = if c.len() > 0 && c[0] == '+' { 1 } else { 0 };
        assert(c@.subrange(start as int, c@.len() as int) =~= (if s@.len() > 0 && s@[0] == '+' {
            s@.drop_first()
        } else {
            s@
        }));
        match digits_from(&c, start, max as u128) {
            Some(m) => Some(m as i128),
            None => None,
        }
    }
}

impl Tapeable for bool {
    /// `true` and `false`.
    open spec fn parsed(s: Seq<char>) -> Option<bool> {
        if s == seq!['t', 'r', 'u', 'e'] {
            Some(true)
        } else if s == seq!['f', 'a', 'l', 's', 'e'] {
            Some(false)
        } else {
            None
        }
    }

    fn from_text(s: &str) -> (r: Option<bool>) {
        let c = chars_of(s);
        if c.len() == 4 && c[0] == 't' && c[1] == 'r' && c[2] == 'u' && c[3] == 'e' {
            assert(c@ =~= seq!['t', 'r', 'u', 'e']);
            Some(true)
        } else if c.len() == 5 && c[0] == 'f' && c[1] == 'a' && c[2] == 'l' && c[3] == 's' && c[4]
            == 'e' {
            assert(c@ =~= seq!['f', 'a', 'l', 's', 'e']);
            Some(false)
        } else {
            assert(c@ != seq!['t', 'r', 'u', 'e'] ==> c@.len() != 4 || c@[0] != 't' || c@[1] != 'r'
                || c@[2] != 'u' || c@[3] != 'e');
            None
        }
    }

    fn same(&self, other: &bool) -> (r: bool) {
        *self == *other
    }
}

impl Tapeable for char {
    /// Exactly one character.
    open spec fn parsed(s: Seq<char>) -> Option<char> {
        if s.len() == 1 {
            Some(s[0])
        } else {
            None
        }
    }

    fn from_text(s: &str) -> (r: Option<char>) {
        let c = chars_of(s);
        if c.len() == 1 {
            Some(c[0])
        } else {
            None
        }
    }

    fn same(&self, other: &char) -> (r: bool) {
        *self == *other
    }
}

impl Tapeable for u8 {
    /// An unsigned decimal number up to `u8::MAX`.
    open spec fn parsed(s: Seq<char>) -> Option<u8> {
        let v = within(unsigned_text(s), 0, u8::MAX as int);
        if v is Some {
            Some(v->0 as u8)
        } else {
            None
        }
    }

    fn from_text(s: &str) -> (r: Option<u8>) {
        match parse_unsigned(s, u8::MAX as u128) {
            Some(v) => Some(v as u8),
            None => None,
        }
    }

    fn same(&self, other: &u8) -> (r: bool) {
        *self == *other
    }
}

impl Tapeable for u16 {
    /// An unsigned decimal number up to `u16::MAX`.
    open spec fn parsed(s: Seq<char>) -> Option<u16> {
        let v = within(unsigned_text(s), 0, u16::MAX as int);
        if v is Some {
            Some(v->0 as u16)
        } else {
            None
        }
    }

    fn from_text(s: &str) -> (r: Option<u16>) {
        match parse_unsigned(s, u16::MAX as u128) {
            Some(v) => Some(v as u16),
            None => None,
        }
    }

    fn same(&self, other: &u16) -> (r: bool) {
        *self == *other
    }
}

impl Tapeable for u32 {
    /// An unsigned decimal number up to `u32::MAX`.
    open spec fn parsed(s: Seq<char>) -> Option<u32> {
        let v = within(unsigned_text(s), 0, u32::MAX as int);
        if v is Some {
            Some(v->0 as u32)
        } else {
            None
        }
    }

    fn from_text(s: &str) -> (r: Option<u32>) {
        match parse_unsigned(s, u32::MAX as u128) {
            Some(v) => Some(v as u32),
            None => None,
        }
    }

    fn same(&self, other: &u32) -> (r: bool) {
        *self == *other
    }
}

impl Tapeable for u64 {
    /// An unsigned decimal number up to `u64::MAX`.
    open spec fn parsed(s: Seq<char>) -> Option<u64> {
        let v = within(unsigned_text(s), 0, u64::MAX as int);
        if v is Some {
            Some(v->0 as u64)
        } else {
            None
        }
    }

    fn from_text(s: &str) -> (r: Option<u64>) {
        match parse_unsigned(s, u64::MAX as u128) {
            Some(v) => Some(v as u64),
            None => None,
        }
    }

    fn same(&self, other: &u64) -> (r: bool) {
        *self == *other
    }
}

impl Tapeable for usize {
    /// An unsigned decimal number up to `usize::MAX`.
    open spec fn parsed(s: Seq<char>) -> Option<usize> {
        let v = within(unsigned_text(s), 0, usize::MAX as int);
        if v is Some {
            Some(v->0 as usize)
        } else {
            None
        }
    }

    fn from_text(s: &str) -> (r: Option<usize>) {
        match parse_unsigned(s, usize::MAX as u128) {
            Some(v) => Some(v as usize),
            None => None,
        }
    }

    fn same(&self, other: &usize) -> (r: bool) {
        *self == *other
    }
}

impl Tapeable for i8 {
    /// A signed decimal number within `i8::MIN..=i8::MAX`.
    open spec fn parsed(s: Seq<char>) -> Option<i8> {
        let v = within(signed_text(s), i8::MIN as int, i8::MAX as int);
        if v is Some {
            Some(v->0 as i8)
        } else {
            None
        }
    }

    fn from_text(s: &str) -> (r: Option<i8>) {
        match parse_signed(s, i8::MIN as i128, i8::MAX as i128) {
            Some(v) => Some(v as i8),
            None => None,
        }
    }

    fn same(&self, other: &i8) -> (r: bool) {
        *self == *other
    }
}

impl Tapeable for i16 {
    /// A signed decimal number within `i16::MIN..=i16::MAX`.
    open spec fn parsed(s: Seq<char>) -> Option<i16> {
        let v = within(signed_text(s), i16::MIN as int, i16::MAX as int);
        if v is Some {
            Some(v->0 as i16)
        } else {
            None
        }
    }

    fn from_text(s: &str) -> (r: Option<i16>) {
        match parse_signed(s, i16::MIN as i128, i16::MAX as i128) {
            Some(v) => Some(v as i16),
            None => None,
        }
    }

    fn same(&self, other: &i16) -> (r: bool) {
        *self == *other
    }
}

impl Tapeable for i32 {
    /// A signed decimal number within `i32::MIN..=i32::MAX`.
    open spec fn parsed(s: Seq<char>) -> Option<i32> {
        let v = within(signed_text(s), i32::MIN as int, i32::MAX as int);
        if v is Some {
            Some(v->0 as i32)
        } else {
            None
        }
    }

    fn from_text(s: &str) -> (r: Option<i32>) {
        match parse_signed(s, i32::MIN as i128, i32::MAX as i128) {
            Some(v) => Some(v as i32),
            None => None,
        }
    }

    fn same(&self, other: &i32) -> (r: bool) {
        *self == *other
    }
}

impl Tapeable for i64 {
    /// A signed decimal number within `i64::MIN..=i64::MAX`.
    open spec fn parsed(s: Seq<char>) -> Option<i64> {
        let v = within(signed_text(s), i64::MIN as int, i64::MAX as int);
        if v is Some {
            Some(v->0 as i64)
        } else {
            None
        }
    }

    fn from_text(s: &str) -> (r: Option<i64>) {
        match parse_signed(s, i64::MIN as i128, i64::MAX as i128) {
            Some(v) => Some(v as i64),
            None => None,
        }
    }

    fn same(&self, other: &i64) -> (r: bool) {
        *self == *other
    }
}

impl Tapeable for isize {
    /// A signed decimal number within `isize::MIN..=isize::MAX`.
    open spec fn parsed(s: Seq<char>) -> Option<isize> {
        let v = within(signed_text(s), isize::MIN as int, isize::MAX as int);
        if v is Some {
            Some(v->0 as isize)
        } else {
            None
        }
    }

    fn from_text(s: &str) -> (r: Option<isize>) {
        match parse_signed(s, isize::MIN as i128, isize::MAX as i128) {
            Some(v) => Some(v as isize),
            None => None,
        }
    }

    fn same(&self, other: &isize) -> (r: bool) {
        *self == *other
    }
}

} // verus!
