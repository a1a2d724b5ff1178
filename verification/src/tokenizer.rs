//! The running scanner: one pass over a command line, one argument list.

use vstd::prelude::*;
use crate::machine::{arguments_of, backslashes, feed, step, Machine, Phase, QuoteKind};
use crate::units::{classify, UnitClass, Variant, BACKSLASH};

verus! {

/// Where the running scanner stands between two code units.
#[derive(Clone, Copy, Debug)]
pub enum ParserState {
    /// Between tokens.
    OutsideToken,
    /// Inside a token, in the given quoting context.
    InToken(QuoteKind),
    /// Just after a quote that closed the given context.
    OnClosingQuote(QuoteKind),
    /// Inside a run of that many unresolved backslashes, begun in the given
    /// context.
    OnBackslashRun(usize, QuoteKind),
}

impl View for ParserState {
    type V = Phase;

    open spec fn view(&self) -> Phase {
        match *self {
            ParserState::OutsideToken => Phase::OutsideToken,
            ParserState::InToken(kind) => Phase::InToken(kind),
            ParserState::OnClosingQuote(kind) => Phase::OnClosingQuote(kind),
            ParserState::OnBackslashRun(count, kind) => Phase::OnBackslashRun(count as nat, kind),
        }
    }
}

/// The arguments held in `args`, each as its sequence of code units.
pub open spec fn views_of(args: Seq<Vec<u16>>) -> Seq<Seq<u16>> {
    Seq::new(args.len(), |i: int| args[i]@)
}

/// The scanner that the three running parts stand for.
pub open spec fn machine_of(state: ParserState, buffer: Seq<u16>, args: Seq<Vec<u16>>) -> Machine {
    Machine { phase: state@, buffer, args: views_of(args) }
}

/// Ends the token under construction: it becomes the next argument, empty
/// or not, and the buffer starts over.
fn flush(buffer: &mut Vec<u16>, args: &mut Vec<Vec<u16>>)
    ensures
        final(buffer)@ == Seq::<u16>::empty(),
        views_of(final(args)@) == views_of(old(args)@).push(old(buffer)@),
{
    let mut token: Vec<u16> = Vec::new();
    std::mem::swap(buffer, &mut token);
    args.push(token);
    assert(views_of(args@) =~= views_of(old(args)@).push(old(buffer)@));
}

/// Appends `count` backslashes to the token under construction.
fn push_backslashes(buffer: &mut Vec<u16>, count: usize)
    ensures
        final(buffer)@ == old(buffer)@ + backslashes(count as nat),
{
    let mut done: usize = 0;
    while done < count
        invariant
            done <= count,
            buffer@ == old(buffer)@ + backslashes(done as nat),
        decreases count - done,
    {
        buffer.push(BACKSLASH);
        done += 1;
        assert(buffer@ =~= old(buffer)@ + backslashes(done as nat));
    }
}

/// Takes one code unit: moves the token buffer and the argument list on as
/// the rules ask and returns the next state. `last` says that no unit
/// follows this one.
fn advance(
    state: ParserState,
    unit: u16,
    last: bool,
    variant: Variant,
    buffer: &mut Vec<u16>,
    args: &mut Vec<Vec<u16>>,
) -> (next: ParserState)
    requires
        state matches ParserState::OnBackslashRun(count, _) ==> count < usize::MAX,
    ensures
        machine_of(next, final(buffer)@, final(args)@) == step(
            machine_of(state, old(buffer)@, old(args)@),
            unit,
            last,
            variant,
        ),
{
    let class = classify(unit, variant);
    let next = match state {
        ParserState::OutsideToken => match class {
            UnitClass::Whitespace => ParserState::OutsideToken,
            UnitClass::DoubleQuote => ParserState::InToken(QuoteKind::DoubleQuoted),
            UnitClass::SingleQuote => ParserState::InToken(QuoteKind::SingleQuoted),
            UnitClass::Backslash => ParserState::OnBackslashRun(1, QuoteKind::Literal),
            UnitClass::Other => {
                buffer.push(unit);
                ParserState::InToken(QuoteKind::Literal)
            },
        },
        ParserState::InToken(kind) => {
            let quoted = !matches!(kind, QuoteKind::Literal);
            match class {
                UnitClass::Backslash => ParserState::OnBackslashRun(1, kind),
                UnitClass::DoubleQuote => if quoted {
                    ParserState::OnClosingQuote(kind)
                } else {
                    ParserState::InToken(QuoteKind::DoubleQuoted)
                },
                UnitClass::SingleQuote => match kind {
                    QuoteKind::Literal => ParserState::InToken(QuoteKind::SingleQuoted),
                    QuoteKind::SingleQuoted => ParserState::OnClosingQuote(kind),
                    QuoteKind::DoubleQuoted => {
                        buffer.push(unit);
                        ParserState::InToken(kind)
                    },
                },
                UnitClass::Whitespace => if quoted {
                    buffer.push(unit);
                    ParserState::InToken(kind)
                } else {
                    flush(buffer, args);
                    ParserState::OutsideToken
                },
                UnitClass::Other => {
                    buffer.push(unit);
                    ParserState::InToken(kind)
                },
            }
        },
        ParserState::OnClosingQuote(kind) => match class {
            UnitClass::Whitespace => {
                flush(buffer, args);
                ParserState::OutsideToken
            },
            UnitClass::DoubleQuote => {
                buffer.push(unit);
                match variant {
                    Variant::Pre2008 => ParserState::InToken(QuoteKind::Literal),
                    _ => ParserState::InToken(kind),
                }
            },
            UnitClass::SingleQuote => {
                buffer.push(unit);
                match kind {
                    QuoteKind::SingleQuoted => ParserState::InToken(kind),
                    _ => ParserState::InToken(QuoteKind::Literal),
                }
            },
            _ => {
                buffer.push(unit);
                ParserState::InToken(QuoteKind::Literal)
            },
        },
        ParserState::OnBackslashRun(count, kind) => match class {
            UnitClass::DoubleQuote => {
                push_backslashes(buffer, count / 2);
                if count % 2 == 1 {
                    buffer.push(unit);
                    ParserState::InToken(kind)
                } else {
                    match (kind, variant) {
                        (QuoteKind::Literal, _) => ParserState::InToken(QuoteKind::DoubleQuoted),
                        (_, Variant::Pre2008) => {
                            flush(buffer, args);
                            ParserState::InToken(QuoteKind::Literal)
                        },
                        _ => {
                            flush(buffer, args);
                            ParserState::OutsideToken
                        },
                    }
                }
            },
            UnitClass::Backslash if !last => ParserState::OnBackslashRun(count + 1, kind),
            _ => {
                push_backslashes(buffer, count);
                buffer.push(unit);
                ParserState::InToken(kind)
            },
        },
    };
    assert(machine_of(next, buffer@, args@) =~= step(
        machine_of(state, old(buffer)@, old(args)@),
        unit,
        last,
        variant,
    ));
    // Neither borrow is written through after this point.
    assert(has_resolved(buffer) && has_resolved(args));
    next
}

/// Splits the command line `line` into its arguments under `variant`.
///
/// Every sequence of code units is accepted, unmatched quotes and unpaired
/// surrogates included; each argument holds its code units as they stood in
/// the line.
pub fn tokenize(line: &[u16], variant: Variant) -> (args: Vec<Vec<u16>>)
    ensures
        views_of(args@) == arguments_of(line@, variant),
{
    let mut args: Vec<Vec<u16>> = Vec::new();
    let mut buffer: Vec<u16> = Vec::new();
    let mut state = ParserState::OutsideToken;
    let length: usize = line.len();
    let mut i: usize = 0;
    assert(machine_of(state, buffer@, args@) =~= Machine::initial());
    assert(line@.skip(0) =~= line@);
    while i < length
        invariant
            length == line@.len(),
            i <= length,
            state matches ParserState::OnBackslashRun(count, _) ==> count <= i,
            feed(machine_of(state, buffer@, args@), line@.skip(i as int), false, variant) == feed(
                Machine::initial(),
                line@,
                false,
                variant,
            ),
        decreases length - i,
    {
        let unit: u16 = line[i];
        let last = i == length - 1;
        proof {
            assert(line@.skip(i as int).skip(1) =~= line@.skip(i + 1));
        }
        state = advance(state, unit, last, variant, &mut buffer, &mut args);
        i += 1;
    }
    if buffer.len() > 0 {
        let ghost before = views_of(args@);
        args.push(buffer);
        assert(views_of(args@) =~= before.push(buffer@));
    }
    args
}

/// Splits `line` by the rules of the C runtime before 2008.
pub fn tokens_pre2008(line: &[u16]) -> (args: Vec<Vec<u16>>)
    ensures
        views_of(args@) == arguments_of(line@, Variant::Pre2008),
{
    tokenize(line, Variant::Pre2008)
}

/// Splits `line` by the rules of the C runtime from 2008 on.
pub fn tokens_2008(line: &[u16]) -> (args: Vec<Vec<u16>>)
    ensures
        views_of(args@) == arguments_of(line@, Variant::Post2008),
{
    tokenize(line, Variant::Post2008)
}

/// Splits `line` by the generalized rules, which know single quotes too.
pub fn tokens(line: &[u16]) -> (args: Vec<Vec<u16>>)
    ensures
        views_of(args@) == arguments_of(line@, Variant::Generalized),
{
    tokenize(line, Variant::Generalized)
}

} // verus!
