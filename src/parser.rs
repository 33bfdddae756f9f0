//! The parser: turns the tokens of a transition-table text into a starting
//! state and a transition table, and builds a machine from them.
use vstd::prelude::*;
use crate::head::{direction_of, Direction};
use crate::lexicaliser::{
    field_view, fields_view, lexed, lexicalise, tokens_view, trim, trim_bounds, string_of, Lex, LexError, LexModel,
};
use crate::symbol::Tapeable;
use crate::table::{Cause, Effect, State, TransitionTable};
use crate::tape::{Tape, TapeModel};
use crate::text::chars_of;
use crate::turing_machine::{MachineModel, Transitionable, TuringMachine};

verus! {

/// Why a transition-table text could not be parsed.
#[derive(Debug, Copy, Clone, PartialEq, Eq, Structural)]
pub enum ParseError {
    /// A clause is not of the form `cause -> effect`.
    NotImplicationForm,
    /// The cause or the effect of a clause has a number of fields that no
    /// clause has.
    WrongNumberOfArguments,
    /// A field does not read as what its position calls for.
    InvalidType,
    /// An implication arrow with nothing after it.
    ImplyingNothing,
    /// The starting-state clause names a blank state.
    MustHaveStartingState,
    /// A transition's effect has a blank direction.
    MissingDirection,
    /// The text could not be lexicalised.
    SyntaxError(LexError),
}

/// The starting state and the transition table a text describes.
pub type Parsed<G> = (State, Map<Cause<G>, Effect<G>>);

/// The state a field names.
pub open spec fn state_field(f: Option<Seq<char>>) -> Result<State, ParseError> {
    if f is Some && <usize as Tapeable>::parsed(f->0) is Some {
        Ok(<usize as Tapeable>::parsed(f->0)->0)
    } else {
        Err(ParseError::InvalidType)
    }
}

/// The cell a field names: a symbol, or blank where the field is blank.
pub open spec fn symbol_field<G: Tapeable>(f: Option<Seq<char>>) -> Result<Option<G>, ParseError> {
    if f is None {
        Ok(None)
    } else if G::parsed(f->0) is Some {
        Ok(Some(G::parsed(f->0)->0))
    } else {
        Err(ParseError::InvalidType)
    }
}

/// The direction a field names.
pub open spec fn direction_field(f: Option<Seq<char>>) -> Result<Direction, ParseError> {
    if f is None {
        Err(ParseError::MissingDirection)
    } else if direction_of(f->0) is Some {
        Ok(direction_of(f->0)->0)
    } else {
        Err(ParseError::InvalidType)
    }
}

/// The starting state and table after one clause `cause -> effect`: `() ->
/// (q)` sets the starting state, `(q, a) -> (q', a', d)` binds a transition,
/// replacing an earlier one for the same cause.
pub open spec fn clause<G: Tapeable>(
    cause: Seq<Option<Seq<char>>>,
    effect: Seq<Option<Seq<char>>>,
    acc: Parsed<G>,
) -> Result<Parsed<G>, ParseError> {
    if cause.len() == 0 && effect.len() == 1 {
        if effect[0] is None {
            Err(ParseError::MustHaveStartingState)
        } else {
            match state_field(effect[0]) {
                Ok(q) => Ok((q, acc.1)),
                Err(e) => Err(e),
            }
        }
    } else if cause.len() == 2 && effect.len() == 3 {
        let q = state_field(cause[0]);
        let a = symbol_field::<G>(cause[1]);
        let q_next = state_field(effect[0]);
        let a_next = symbol_field::<G>(effect[1]);
        let d = direction_field(effect[2]);
        if q is Err {
            Err(q->Err_0)
        } else if a is Err {
            Err(a->Err_0)
        } else if q_next is Err {
            Err(q_next->Err_0)
        } else if a_next is Err {
            Err(a_next->Err_0)
        } else if d is Err {
            Err(d->Err_0)
        } else {
            Ok((acc.0, acc.1.insert((q->Ok_0, a->Ok_0), (q_next->Ok_0, a_next->Ok_0, d->Ok_0))))
        }
    } else {
        Err(ParseError::WrongNumberOfArguments)
    }
}

/// The starting state and table after the clauses of `toks`, each a tuple,
/// an arrow and a tuple, starting from `acc`. A tuple with nothing after it
/// implies nothing; any other break in that shape is not an implication.
pub open spec fn clauses<G: Tapeable>(toks: Seq<LexModel>, acc: Parsed<G>) -> Result<Parsed<G>, ParseError>
    decreases toks.len(),
{
    if toks.len() == 0 {
        Ok(acc)
    } else if toks.len() == 1 {
        if toks[0] is Tuple {
            Err(ParseError::ImplyingNothing)
        } else {
            Err(ParseError::NotImplicationForm)
        }
    } else if !(toks[1] is Implication) {
        Err(ParseError::NotImplicationForm)
    } else if toks.len() < 3 {
        Err(ParseError::ImplyingNothing)
    } else {
        match (toks[0], toks[2]) {
            (LexModel::Tuple(c), LexModel::Tuple(e)) => match clause::<G>(c, e, acc) {
                Ok(next) => clauses::<G>(toks.subrange(3, toks.len() as int), next),
                Err(err) => Err(err),
            },
            _ => Err(ParseError::NotImplicationForm),
        }
    }
}

/// The starting state (0 unless a clause sets it) and the transition table
/// that the text `src` describes.
pub open spec fn parsed<G: Tapeable>(src: Seq<char>) -> Result<Parsed<G>, ParseError> {
    match lexed(src) {
        Ok(toks) => clauses::<G>(toks, (0, Map::empty())),
        Err(e) => Err(ParseError::SyntaxError(e)),
    }
}

fn parse_state(f: &Option<String>) -> (r: Result<State, ParseError>)
    ensures
        r == state_field(field_view(*f)),
{
    match f {
        Some(s) => match <usize as Tapeable>::from_text(s.as_str()) {
            Some(q) => Ok(q),
            None => Err(ParseError::InvalidType),
        },
        None => Err(ParseError::InvalidType),
    }
}

fn parse_symbol<G: Tapeable>(f: &Option<String>) -> (r: Result<Option<G>, ParseError>)
    ensures
        r == symbol_field::<G>(field_view(*f)),
{
    match f {
        Some(s) => match G::from_text(s.as_str()) {
            Some(a) => Ok(Some(a)),
            None => Err(ParseError::InvalidType),
        },
        None => Ok(None),
    }
}

fn parse_direction(f: &Option<String>) -> (r: Result<Direction, ParseError>)
    ensures
        r == direction_field(field_view(*f)),
{
    match f {
        Some(s) => match Direction::from_str(s.as_str()) {
            Some(d) => Ok(d),
            None => Err(ParseError::InvalidType),
        },
        None => Err(ParseError::MissingDirection),
    }
}

/// Apply one clause `cause -> effect` to the starting state and the table.
fn apply_clause<G: Tapeable>(
    cause: &Vec<Option<String>>,
    effect: &Vec<Option<String>>,
    starting_state: &mut State,
    transitions: &mut TransitionTable<G>,
) -> (r: Result<(), ParseError>)
    requires
        old(transitions).wf(),
    ensures
        final(transitions).wf(),
        match clause::<G>(fields_view(cause@), fields_view(effect@), (*old(starting_state), old(transitions)@)) {
            Ok(p) => r is Ok && p == (*final(starting_state), final(transitions)@),
            Err(e) => r == Err::<(), ParseError>(e),
        },
{
    let ghost c = fields_view(cause@);
    let ghost e = fields_view(effect@);
    if cause.len() == 0 && effect.len() == 1 {
        assert(e[0] == field_view(effect@[0]));
        if effect[0].is_none() {
            return Err(ParseError::MustHaveStartingState);
        }
        match parse_state(&effect[0]) {
            Ok(q) => {
                *starting_state = q;
                Ok(())
            },
            Err(err) => Err(err),
        }
    } else if cause.len() == 2 && effect.len() == 3 {
        assert(c[0] == field_view(cause@[0]) && c[1] == field_view(cause@[1]));
        assert(e[0] == field_view(effect@[0]) && e[1] == field_view(effect@[1]) && e[2] == field_view(
            effect@[2],
        ));
        let q = match parse_state(&cause[0]) {
            Ok(q) => q,
            Err(err) => return Err(err),
        };
        let a = match parse_symbol::<G>(&cause[1]) {
            Ok(a) => a,
            Err(err) => return Err(err),
        };
        let q_next = match parse_state(&effect[0]) {
            Ok(q) => q,
            Err(err) => return Err(err),
        };
        let a_next = match parse_symbol::<G>(&effect[1]) {
            Ok(a) => a,
            Err(err) => return Err(err),
        };
        let direction = match parse_direction(&effect[2]) {
            Ok(d) => d,
            Err(err) => return Err(err),
        };
        transitions.insert((q, a), (q_next, a_next, direction));
        Ok(())
    } else {
        Err(ParseError::WrongNumberOfArguments)
    }
}

/// Parse the text of a transition table into a machine over symbols `G`,
/// with an empty tape, the table, and the starting state the text sets (0
/// where it sets none). Fails with the first error, building nothing.
pub fn parse_simple_turing_machine<G: Tapeable>(src: &str) -> (r: Result<TuringMachine<G>, ParseError>)
    ensures
        match r {
            Ok(m) => {
                &&& parsed::<G>(src@) == Ok::<Parsed<G>, ParseError>((m.model().starting, m.model().table))
                &&& m.valid()
                &&& m.model() == (MachineModel {
                    starting: m.model().starting,
                    current: m.model().starting,
                    tape: TapeModel::<G>::empty(),
                    head: 0,
                    table: m.model().table,
                })
            },
            Err(e) => parsed::<G>(src@) == Err::<Parsed<G>, ParseError>(e),
        },
{
    let toks = match lexicalise(src) {
        Ok(toks) => toks,
        Err(err) => return Err(ParseError::SyntaxError(err)),
    };
    let ghost tv = tokens_view(toks@);
    let mut starting_state: State = 0;
    let mut transitions: TransitionTable<G> = TransitionTable::new();
    let n = toks.len();
    let mut i: usize = 0;
    assert(tv.subrange(0, n as int) =~= tv);
    while i < n
        invariant
            i <= n,
            n == toks@.len(),
            tv == tokens_view(toks@),
            parsed::<G>(src@) == clauses::<G>(tv.subrange(i as int, n as int), (starting_state, transitions@)),
            transitions.wf(),
        decreases n - i,
    {
        let ghost sub = tv.subrange(i as int, n as int);
        if i + 1 >= n {
            assert(sub[0] == toks@[i as int]@);
            return match &toks[i] {
                Lex::Tuple(_) => Err(ParseError::ImplyingNothing),
                Lex::Implication => Err(ParseError::NotImplicationForm),
            };
        }
        assert(sub[1] == toks@[i + 1]@);
        match &toks[i + 1] {
            Lex::Implication => {},
            _ => return Err(ParseError::NotImplicationForm),
        }
        if i + 2 >= n {
            return Err(ParseError::ImplyingNothing);
        }
        assert(sub[0] == toks@[i as int]@ && sub[2] == toks@[i + 2]@);
        let cause = match &toks[i] {
            Lex::Tuple(c) => c,
            _ => return Err(ParseError::NotImplicationForm),
        };
        let effect = match &toks[i + 2] {
            Lex::Tuple(e) => e,
            _ => return Err(ParseError::NotImplicationForm),
        };
        match apply_clause(cause, effect, &mut starting_state, &mut transitions) {
            Ok(()) => {},
            Err(err) => return Err(err),
        }
        assert(sub.subrange(3, sub.len() as int) =~= tv.subrange(i + 3, n as int));
        i = i + 3;
    }
    Ok(TuringMachine::init_fully(Tape::new(), transitions, starting_state))
}

/// Where a scan for a bracketed text stands: whether `(` was seen, whether
/// `)` was seen, whether something stood where it may not, and the text kept.
pub struct BracketScan {
    pub started: bool,
    pub finished: bool,
    pub failed: bool,
    pub kept: Seq<char>,
}

/// The scan for a bracketed text after `s`: before the first `(` any
/// character fails it; after `)` any character fails it; a `(` inside the
/// brackets is dropped; the other characters in between are kept.
pub open spec fn bracket_scan(s: Seq<char>) -> BracketScan
    decreases s.len(),
{
    if s.len() == 0 {
        BracketScan { started: false, finished: false, failed: false, kept: Seq::empty() }
    } else {
        let b = bracket_scan(s.drop_last());
        let x = s.last();
        if !b.started && x != '(' {
            BracketScan { failed: true, ..b }
        } else if b.finished {
            BracketScan { failed: true, ..b }
        } else if x == '(' {
            BracketScan { started: true, ..b }
        } else if x == ')' {
            BracketScan { finished: true, ..b }
        } else {
            BracketScan { kept: b.kept.push(x), ..b }
        }
    }
}

/// The text between the brackets of `s`, where `s` is, apart from white
/// space around it, a text in brackets.
pub open spec fn bracketed(s: Seq<char>) -> Option<Seq<char>> {
    let b = bracket_scan(trim(s));
    if !b.finished || !b.started || b.failed {
        None
    } else {
        Some(b.kept)
    }
}

/// The contents of a string that starts with `(` and ends with `)`, without
/// the brackets. Returns `None` where anything but white space stands around
/// the brackets, or where there are no brackets.
pub fn between_brackets(s: &str) -> (r: Option<String>)
    ensures
        r is Some <==> bracketed(s@) is Some,
        r is Some ==> r->0@ == bracketed(s@)->0,
{
    let chars = chars_of(s);
    let (a, b) = trim_bounds(&chars);
    let ghost t = chars@.subrange(a as int, b as int);
    let mut started = false;
    let mut finished = false;
    let mut failed = false;
    let mut kept: Vec<char> = Vec::new();
    let mut i: usize = a;
    assert(t.subrange(0, 0) =~= Seq::<char>::empty());
    while i < b
        invariant
            a <= i <= b <= chars@.len(),
            t == chars@.subrange(a as int, b as int),
            bracket_scan(t.subrange(0, i - a)) == (BracketScan {
                started: started,
                finished: finished,
                failed: failed,
                kept: kept@,
            }),
        decreases b - i,
    {
        let x = chars[i];
        assert(t.subrange(0, i + 1 - a).drop_last() =~= t.subrange(0, i - a));
        if !started && x != '(' {
            failed = true;
        } else if finished {
            failed = true;
        } else if x == '(' {
            started = true;
        } else if x == ')' {
            finished = true;
        } else {
            kept.push(x);
        }
        i = i + 1;
    }
    assert(t.subrange(0, b - a) =~= t);
    if !finished || !started || failed {
        None
    } else {
        assert(kept@.subrange(0, kept@.len() as int) =~= kept@);
        let r = string_of(&kept, 0, kept.len());
        Some(r)
    }
}

} // verus!
