//! The lexicaliser: a three-state automaton that turns the text of a
//! transition table into tuples and implication arrows.
use vstd::prelude::*;
use crate::text::chars_of;

verus! {

/// A token of the transition-table language.
#[derive(Debug, Clone, PartialEq, Eq)]
pub enum Lex {
    /// A tuple of fields, to be read according to their position; a field
    /// written `None` is blank.
    Tuple(Vec<Option<String>>),
    /// The implication arrow `->` between a cause and its effect.
    Implication,
}

/// What a token is, with its texts as character sequences.
pub enum LexModel {
    Tuple(Seq<Option<Seq<char>>>),
    Implication,
}

/// The characters of a field, or blank.
pub open spec fn field_view(f: Option<String>) -> Option<Seq<char>> {
    match f {
        Some(s) => Some(s@),
        None => None,
    }
}

/// The fields of a tuple as character sequences.
pub open spec fn fields_view(t: Seq<Option<String>>) -> Seq<Option<Seq<char>>> {
    t.map_values(|f: Option<String>| field_view(f))
}

impl View for Lex {
    type V = LexModel;

    open spec fn view(&self) -> LexModel {
        match self {
            Lex::Tuple(t) => LexModel::Tuple(fields_view(t@)),
            Lex::Implication => LexModel::Implication,
        }
    }
}

/// The tokens of a sequence as models.
pub open spec fn tokens_view(s: Seq<Lex>) -> Seq<LexModel> {
    s.map_values(|l: Lex| l@)
}

/// Why a text could not be lexicalised.
#[derive(Debug, Copy, Clone, PartialEq, Eq, Structural)]
pub enum LexError {
    /// A character that cannot stand where it stands.
    UnexpectedToken(char),
    /// The text ended while the automaton was in this state, with a tuple
    /// left open or an arrow left unfinished.
    InvalidHoldState(State),
}

/// The state the lexicalisation automaton is in. Errors end the scan at
/// once, so there is no failure state.
#[derive(Debug, Copy, Clone, PartialEq, Eq, Structural)]
pub enum State {
    /// Between tokens.
    Blank,
    /// Reading the fields of a tuple.
    InsideTuple,
    /// After a `-`, which must be followed by `>`.
    ImplicationStart,
}

/// Whether `c` is white space in the sense of Unicode's `White_Space`.
pub open spec fn is_whitespace(c: char) -> bool {
    ||| '\u{9}' <= c && c <= '\u{d}'
    ||| c == ' '
    ||| c == '\u{85}'
    ||| c == '\u{a0}'
    ||| c == '\u{1680}'
    ||| '\u{2000}' <= c && c <= '\u{200a}'
    ||| c == '\u{2028}'
    ||| c == '\u{2029}'
    ||| c == '\u{202f}'
    ||| c == '\u{205f}'
    ||| c == '\u{3000}'
}

/// The number of white-space characters at the start of `s`.
pub open spec fn leading_ws(s: Seq<char>) -> nat
    decreases s.len(),
{
    if s.len() > 0 && is_whitespace(s[0]) {
        1 + leading_ws(s.drop_first())
    } else {
        0
    }
}

/// The number of white-space characters at the end of `s`.
pub open spec fn trailing_ws(s: Seq<char>) -> nat
    decreases s.len(),
{
    if s.len() > 0 && is_whitespace(s.last()) {
        1 + trailing_ws(s.drop_last())
    } else {
        0
    }
}

/// `s` without leading and trailing white space.
pub open spec fn trim(s: Seq<char>) -> Seq<char> {
    let t = s.subrange(leading_ws(s) as int, s.len() as int);
    t.subrange(0, t.len() - trailing_ws(t))
}

/// The field that the text `buf` of a tuple stands for: its trimmed text,
/// or blank where that text is `None`.
pub open spec fn field_of(buf: Seq<char>) -> Option<Seq<char>> {
    let t = trim(buf);
    if t == seq!['N', 'o', 'n', 'e'] {
        None
    } else {
        Some(t)
    }
}

/// Where the automaton is after part of a text: its state, the tokens
/// emitted, the fields of the open tuple, and the text of the open field.
pub struct Scan {
    pub state: State,
    pub tokens: Seq<LexModel>,
    pub fields: Seq<Option<Seq<char>>>,
    pub buffer: Seq<char>,
}

/// Where the automaton starts.
pub open spec fn scan_start() -> Scan {
    Scan { state: State::Blank, tokens: Seq::empty(), fields: Seq::empty(), buffer: Seq::empty() }
}

/// The state that follows `Blank` on `c`.
pub open spec fn blank_step(c: char) -> Result<State, LexError> {
    if c == ' ' || c == '\n' {
        Ok(State::Blank)
    } else if c == '(' {
        Ok(State::InsideTuple)
    } else if c == '-' {
        Ok(State::ImplicationStart)
    } else {
        Err(LexError::UnexpectedToken(c))
    }
}

/// The automaton inside a tuple, on `c`: `)` closes the tuple (with its last
/// field, unless that field is empty once trimmed), `,` closes a field, and
/// any other character joins the open field.
pub open spec fn inside_step(sc: Scan, c: char) -> Scan {
    if c == ')' {
        let fields = if trim(sc.buffer).len() != 0 {
            sc.fields.push(field_of(sc.buffer))
        } else {
            sc.fields
        };
        Scan {
            state: State::Blank,
            tokens: sc.tokens.push(LexModel::Tuple(fields)),
            fields: Seq::empty(),
            buffer: Seq::empty(),
        }
    } else if c == ',' {
        Scan { fields: sc.fields.push(field_of(sc.buffer)), buffer: Seq::empty(), ..sc }
    } else {
        Scan { buffer: sc.buffer.push(c), ..sc }
    }
}

/// One step of the automaton.
pub open spec fn scan_char(sc: Scan, c: char) -> Result<Scan, LexError> {
    match sc.state {
        State::Blank => match blank_step(c) {
            Ok(st) => Ok(Scan { state: st, ..sc }),
            Err(e) => Err(e),
        },
        State::InsideTuple => Ok(inside_step(sc, c)),
        State::ImplicationStart => if c == '>' {
            Ok(Scan { state: State::Blank, tokens: sc.tokens.push(LexModel::Implication), ..sc })
        } else {
            Err(LexError::UnexpectedToken(c))
        },
    }
}

/// The automaton after reading all of `s`, or the first error.
pub open spec fn scan(s: Seq<char>) -> Result<Scan, LexError>
    decreases s.len(),
{
    if s.len() == 0 {
        Ok(scan_start())
    } else {
        match scan(s.drop_last()) {
            Ok(sc) => scan_char(sc, s.last()),
            Err(e) => Err(e),
        }
    }
}

/// The tokens of `s`: the text must end with the automaton between tokens.
pub open spec fn lexed(s: Seq<char>) -> Result<Seq<LexModel>, LexError> {
    match scan(s) {
        Ok(sc) => if sc.state == State::Blank {
            Ok(sc.tokens)
        } else {
            Err(LexError::InvalidHoldState(sc.state))
        },
        Err(e) => Err(e),
    }
}

/// An error on a prefix is the error of the whole text.
proof fn lemma_scan_error(s: Seq<char>, k: int)
    requires
        0 <= k <= s.len(),
        scan(s.subrange(0, k)) is Err,
    ensures
        scan(s) == scan(s.subrange(0, k)),
    decreases s.len() - k,
{
    if k < s.len() {
        assert(s.drop_last().subrange(0, k) =~= s.subrange(0, k));
        lemma_scan_error(s.drop_last(), k);
    } else {
        assert(s.subrange(0, k) =~= s);
    }
}

/// `a` white-space characters open `s`, and the character after them (if
/// any) is not white space.
proof fn lemma_leading_ws(s: Seq<char>, a: int)
    requires
        0 <= a <= s.len(),
        forall|i: int| 0 <= i < a ==> is_whitespace(#[trigger] s[i]),
        a < s.len() ==> !is_whitespace(s[a]),
    ensures
        leading_ws(s) == a,
    decreases a,
{
    if a > 0 {
        lemma_leading_ws(s.drop_first(), a - 1);
    }
}

/// `k` white-space characters close `s`, and the character before them (if
/// any) is not white space.
proof fn lemma_trailing_ws(s: Seq<char>, k: int)
    requires
        0 <= k <= s.len(),
        forall|i: int| s.len() - k <= i < s.len() ==> is_whitespace(#[trigger] s[i]),
        k < s.len() ==> !is_whitespace(s[s.len() - k - 1]),
    ensures
        trailing_ws(s) == k,
    decreases k,
{
    if k > 0 {
        lemma_trailing_ws(s.drop_last(), k - 1);
    }
}

fn is_ws(c: char) -> (r: bool)
    ensures
        r == is_whitespace(c),
{
    ('\u{9}' <= c && c <= '\u{d}') || c == ' ' || c == '\u{85}' || c == '\u{a0}' || c == '\u{1680}'
        || ('\u{2000}' <= c && c <= '\u{200a}') || c == '\u{2028}' || c == '\u{2029}' || c
        == '\u{202f}' || c == '\u{205f}' || c == '\u{3000}'
}

/// The bounds of the trimmed text of `v`.
pub(crate) fn trim_bounds(v: &Vec<char>) -> (r: (usize, usize))
    ensures
        r.0 <= r.1 <= v@.len(),
        trim(v@) == v@.subrange(r.0 as int, r.1 as int),
{
    let n = v.len();
    let mut a: usize = 0;
    while a < n && is_ws(v[a])
        invariant
            a <= n,
            n == v@.len(),
            forall|i: int| 0 <= i < a ==> is_whitespace(#[trigger] v@[i]),
        decreases n - a,
    {
        a = a + 1;
    }
    proof {
        lemma_leading_ws(v@, a as int);
    }
    let mut b: usize = n;
    while b > a && is_ws(v[b - 1])
        invariant
            a <= b <= n,
            n == v@.len(),
            forall|i: int| b <= i < n ==> is_whitespace(#[trigger] v@[i]),
        decreases b,
    {
        b = b - 1;
    }
    let ghost t = v@.subrange(a as int, n as int);
    proof {
        lemma_trailing_ws(t, (n - b) as int);
        assert(t.subrange(0, t.len() - trailing_ws(t)) =~= v@.subrange(a as int, b as int));
    }
    (a, b)
}

/// Relies on `String::push`: it appends one character.
#[verifier::external_body]
fn push_char(s: &mut String, c: char)
    ensures
        final(s)@ == old(s)@.push(c),
{
    s.push(c);
}

/// The characters of `v` from `a` up to `b`, as a string.
pub(crate) fn string_of(v: &Vec<char>, a: usize, b: usize) -> (r: String)
    requires
        a <= b <= v@.len(),
    ensures
        r@ == v@.subrange(a as int, b as int),
{
    let mut r = String::new();
    let mut i: usize = a;
    while i < b
        invariant
            a <= i <= b <= v@.len(),
            r@ == v@.subrange(a as int, i as int),
        decreases b - i,
    {
        push_char(&mut r, v[i]);
        i = i + 1;
        assert(r@ =~= v@.subrange(a as int, i as int));
    }
    r
}

/// The field that the text `v` stands for, and whether that text is empty
/// once trimmed.
fn close_field(v: &Vec<char>) -> (r: (Option<String>, bool))
    ensures
        field_view(r.0) == field_of(v@),
        r.1 == (trim(v@).len() == 0),
{
    let (a, b) = trim_bounds(v);
    let ghost none = seq!['N', 'o', 'n', 'e'];
    if b - a == 4 && v[a] == 'N' && v[a + 1] == 'o' && v[a + 2] == 'n' && v[a + 3] == 'e' {
        assert(trim(v@) =~= none);
        (None, false)
    } else {
        assert(trim(v@) != none) by {
            if trim(v@) == none {
                let w = v@.subrange(a as int, b as int);
                assert(none.len() == 4 && none[0] == 'N' && none[1] == 'o' && none[2] == 'n' && none[3]
                    == 'e');
                assert(w.len() == 4);
                assert(w[0] == v@[a as int] && w[1] == v@[a + 1] && w[2] == v@[a + 2] && w[3] == v@[a
                    + 3]);
            }
        }
        (Some(string_of(v, a, b)), a == b)
    }
}

fn handle_blank(c: char) -> (r: Result<State, LexError>)
    ensures
        r == blank_step(c),
{
    match c {
        ' ' | '\n' => Ok(State::Blank),
        '(' => Ok(State::InsideTuple),
        '-' => Ok(State::ImplicationStart),
        other => Err(LexError::UnexpectedToken(other)),
    }
}

/// The automaton inside a tuple: `res` holds the tokens emitted, `t` the
/// fields of the open tuple, `v` the text of the open field.
fn handle_inside_tuple(
    c: char,
    res: &mut Vec<Lex>,
    t: &mut Vec<Option<String>>,
    v: &mut Vec<char>,
) -> (r: Result<State, LexError>)
    ensures
        r is Ok,
        (Scan {
            state: r->Ok_0,
            tokens: tokens_view(final(res)@),
            fields: fields_view(final(t)@),
            buffer: final(v)@,
        }) == inside_step(
            Scan {
                state: State::InsideTuple,
                tokens: tokens_view(old(res)@),
                fields: fields_view(old(t)@),
                buffer: old(v)@,
            },
            c,
        ),
{
    if c == ')' {
        let (field, empty) = close_field(v);
        if !empty {
            t.push(field);
            assert(fields_view(t@) =~= fields_view(old(t)@).push(field_of(old(v)@)));
        }
        let mut fields: Vec<Option<String>> = Vec::new();
        std::mem::swap(t, &mut fields);
        let ghost done = fields@;
        res.push(Lex::Tuple(fields));
        v.clear();
        assert(tokens_view(res@) =~= tokens_view(old(res)@).push(LexModel::Tuple(fields_view(done))));
        assert(fields_view(t@) =~= Seq::<Option<Seq<char>>>::empty());
        assert(v@ =~= Seq::<char>::empty());
        Ok(State::Blank)
    } else if c == ',' {
        let (field, _) = close_field(v);
        t.push(field);
        v.clear();
        assert(fields_view(t@) =~= fields_view(old(t)@).push(field_of(old(v)@)));
        assert(v@ =~= Seq::<char>::empty());
        Ok(State::InsideTuple)
    } else {
        v.push(c);
        Ok(State::InsideTuple)
    }
}

fn handle_implication_start(c: char, res: &mut Vec<Lex>) -> (r: Result<State, LexError>)
    ensures
        c == '>' ==> r == Ok::<State, LexError>(State::Blank) && tokens_view(final(res)@) == tokens_view(
            old(res)@,
        ).push(LexModel::Implication),
        c != '>' ==> r == Err::<State, LexError>(LexError::UnexpectedToken(c)) && final(res)@ == old(res)@,
{
    match c {
        '>' => {
            res.push(Lex::Implication);
            assert(tokens_view(res@) =~= tokens_view(old(res)@).push(LexModel::Implication));
            Ok(State::Blank)
        },
        other => Err(LexError::UnexpectedToken(other)),
    }
}

/// Turn the text of a transition table into tokens. Fails on the first
/// character that cannot stand where it stands, and where the text ends
/// inside a tuple or after a lone `-`.
pub fn lexicalise(s: &str) -> (r: Result<Vec<Lex>, LexError>)
    ensures
        match r {
            Ok(v) => lexed(s@) == Ok::<Seq<LexModel>, LexError>(tokens_view(v@)),
            Err(e) => lexed(s@) == Err::<Seq<LexModel>, LexError>(e),
        },
{
    let chars = chars_of(s);
    let n = chars.len();
    let mut state = State::Blank;
    let mut res: Vec<Lex> = Vec::new();
    let mut current_tuple: Vec<Option<String>> = Vec::new();
    let mut current_value: Vec<char> = Vec::new();
    let mut i: usize = 0;
    assert(tokens_view(res@) =~= Seq::<LexModel>::empty());
    assert(fields_view(current_tuple@) =~= Seq::<Option<Seq<char>>>::empty());
    assert(chars@.subrange(0, 0) =~= Seq::<char>::empty());
    while i < n
        invariant
            i <= n,
            n == chars@.len(),
            chars@ == s@,
            scan(chars@.subrange(0, i as int)) == Ok::<Scan, LexError>(
                Scan {
                    state: state,
                    tokens: tokens_view(res@),
                    fields: fields_view(current_tuple@),
                    buffer: current_value@,
                },
            ),
        decreases n - i,
    {
        let c = chars[i];
        let ghost before = Scan {
            state: state,
            tokens: tokens_view(res@),
            fields: fields_view(current_tuple@),
            buffer: current_value@,
        };
        assert(chars@.subrange(0, i + 1).drop_last() =~= chars@.subrange(0, i as int));
        let next = match state {
            State::Blank => handle_blank(c),
            State::InsideTuple => handle_inside_tuple(
                c,
                &mut res,
                &mut current_tuple,
                &mut current_value,
            ),
            State::ImplicationStart => handle_implication_start(c, &mut res),
        };
        match next {
            Ok(st) => {
                state = st;
            },
            Err(e) => {
                proof {
                    lemma_scan_error(chars@, i + 1);
                }
                return Err(e);
            },
        }
        i = i + 1;
    }
    assert(chars@.subrange(0, n as int) =~= chars@);
    if state != State::Blank {
        Err(LexError::InvalidHoldState(state))
    } else {
        Ok(res)
    }
}

} // verus!
