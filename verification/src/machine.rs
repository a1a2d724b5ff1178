//! The scanner as a mathematical state machine: what one code unit does to
//! it, and what a whole line leaves behind.

use vstd::prelude::*;
use crate::units::{class_of, UnitClass, Variant, BACKSLASH};

verus! {

/// The quoting context of the token being built.
#[derive(Clone, Copy, Debug, PartialEq, Eq, Structural)]
pub enum QuoteKind {
    /// Not inside quotes.
    Literal,
    /// Inside double quotes.
    DoubleQuoted,
    /// Inside single quotes; arises under the generalized variant only.
    SingleQuoted,
}

impl QuoteKind {
    /// The context the pre-2008 rules fall into after a quote that follows
    /// an even run of backslashes: out of quotes when inside, and the reverse.
    pub open spec fn flipped(self) -> QuoteKind {
        if self == QuoteKind::Literal {
            QuoteKind::DoubleQuoted
        } else {
            QuoteKind::Literal
        }
    }
}

/// Where the scanner stands between two code units.
pub enum Phase {
    /// Between tokens.
    OutsideToken,
    /// Inside a token, in the given quoting context.
    InToken(QuoteKind),
    /// Just after a quote that closed the given context; the next unit
    /// decides whether it was doubled.
    OnClosingQuote(QuoteKind),
    /// Inside a run of backslashes of the given length, none of them
    /// resolved yet, that began in the given context.
    OnBackslashRun(nat, QuoteKind),
}

/// The whole scanner: its phase, the token under construction, and the
/// arguments finished so far, in the order they were finished.
#[verifier::ext_equal]
pub struct Machine {
    pub phase: Phase,
    pub buffer: Seq<u16>,
    pub args: Seq<Seq<u16>>,
}

/// A sequence of `n` backslashes.
pub open spec fn backslashes(n: nat) -> Seq<u16> {
    Seq::new(n, |i: int| BACKSLASH)
}

impl Machine {
    /// The scanner before any input: between tokens, with nothing gathered.
    pub open spec fn initial() -> Machine {
        Machine { phase: Phase::OutsideToken, buffer: Seq::empty(), args: Seq::empty() }
    }

    /// The same scanner in another phase.
    pub open spec fn moved_to(self, phase: Phase) -> Machine {
        Machine { phase, ..self }
    }

    /// The scanner after `units` joined the token under construction.
    pub open spec fn appended(self, units: Seq<u16>) -> Machine {
        Machine { buffer: self.buffer + units, ..self }
    }

    /// The scanner after the token under construction, empty or not, became
    /// the next argument.
    pub open spec fn flushed(self) -> Machine {
        Machine { buffer: Seq::empty(), args: self.args.push(self.buffer), ..self }
    }

    /// The arguments once the input has ended: a token still under
    /// construction counts if it holds at least one unit, whatever the phase.
    pub open spec fn finished(self) -> Seq<Seq<u16>> {
        if self.buffer.len() > 0 {
            self.args.push(self.buffer)
        } else {
            self.args
        }
    }
}

/// What a unit does between tokens.
pub open spec fn step_outside(m: Machine, unit: u16, variant: Variant) -> Machine {
    match class_of(unit, variant) {
        UnitClass::Whitespace => m,
        UnitClass::DoubleQuote => m.moved_to(Phase::InToken(QuoteKind::DoubleQuoted)),
        UnitClass::SingleQuote => m.moved_to(Phase::InToken(QuoteKind::SingleQuoted)),
        UnitClass::Backslash => m.moved_to(Phase::OnBackslashRun(1, QuoteKind::Literal)),
        UnitClass::Other => m.appended(seq![unit]).moved_to(Phase::InToken(QuoteKind::Literal)),
    }
}

/// What a unit does inside a token whose context is `kind`.
pub open spec fn step_in_token(m: Machine, kind: QuoteKind, unit: u16, variant: Variant) -> Machine {
    match class_of(unit, variant) {
        UnitClass::Backslash => m.moved_to(Phase::OnBackslashRun(1, kind)),
        UnitClass::DoubleQuote => if kind == QuoteKind::Literal {
            m.moved_to(Phase::InToken(QuoteKind::DoubleQuoted))
        } else {
            m.moved_to(Phase::OnClosingQuote(kind))
        },
        UnitClass::SingleQuote => if kind == QuoteKind::Literal {
            m.moved_to(Phase::InToken(QuoteKind::SingleQuoted))
        } else if kind == QuoteKind::SingleQuoted {
            m.moved_to(Phase::OnClosingQuote(kind))
        } else {
            m.appended(seq![unit])
        },
        UnitClass::Whitespace => if kind == QuoteKind::Literal {
            m.flushed().moved_to(Phase::OutsideToken)
        } else {
            m.appended(seq![unit])
        },
        UnitClass::Other => m.appended(seq![unit]),
    }
}

/// What a unit does right after a quote that closed the context `kind`.
///
/// A second double quote is a literal quote; the pre-2008 rules then leave
/// the quotes, the later rules stay inside them. Under the generalized
/// variant a second single quote does the same for single quotes.
pub open spec fn step_on_closing_quote(m: Machine, kind: QuoteKind, unit: u16, variant: Variant) -> Machine {
    match class_of(unit, variant) {
        UnitClass::Whitespace => m.flushed().moved_to(Phase::OutsideToken),
        UnitClass::DoubleQuote => if variant == Variant::Pre2008 {
            m.appended(seq![unit]).moved_to(Phase::InToken(QuoteKind::Literal))
        } else {
            m.appended(seq![unit]).moved_to(Phase::InToken(kind))
        },
        UnitClass::SingleQuote => if kind == QuoteKind::SingleQuoted {
            m.appended(seq![unit]).moved_to(Phase::InToken(kind))
        } else {
            m.appended(seq![unit]).moved_to(Phase::InToken(QuoteKind::Literal))
        },
        _ => m.appended(seq![unit]).moved_to(Phase::InToken(QuoteKind::Literal)),
    }
}

/// What a double quote does after a run of `count` backslashes that began in
/// the context `kind`.
///
/// The run leaves half its length, rounded down. After an odd run the quote
/// is literal and the context stays. After an even run the quote delimits:
/// outside quotes it opens double quotes, as a quote with no run before it
/// would; inside quotes it ends the argument, and the pre-2008 rules go
/// straight on with the next token where the later rules wait for
/// whitespace.
pub open spec fn resolve_quote(m: Machine, count: nat, kind: QuoteKind, unit: u16, variant: Variant) -> Machine {
    let halved = m.appended(backslashes(count / 2));
    if count % 2 == 1 {
        halved.appended(seq![unit]).moved_to(Phase::InToken(kind))
    } else if kind == QuoteKind::Literal {
        halved.moved_to(Phase::InToken(QuoteKind::DoubleQuoted))
    } else if variant == Variant::Pre2008 {
        halved.flushed().moved_to(Phase::InToken(kind.flipped()))
    } else {
        halved.flushed().moved_to(Phase::OutsideToken)
    }
}

/// What a unit does after a run of `count` backslashes that began in the
/// context `kind`. `last` says that no unit follows this one.
pub open spec fn step_on_backslash_run(
    m: Machine,
    count: nat,
    kind: QuoteKind,
    unit: u16,
    last: bool,
    variant: Variant,
) -> Machine {
    match class_of(unit, variant) {
        UnitClass::DoubleQuote => resolve_quote(m, count, kind, unit, variant),
        UnitClass::Backslash if !last => m.moved_to(Phase::OnBackslashRun(count + 1, kind)),
        _ => m.appended(backslashes(count)).appended(seq![unit]).moved_to(Phase::InToken(kind)),
    }
}

/// The scanner after one more code unit. `last` says that no unit follows.
pub open spec fn step(m: Machine, unit: u16, last: bool, variant: Variant) -> Machine {
    match m.phase {
        Phase::OutsideToken => step_outside(m, unit, variant),
        Phase::InToken(kind) => step_in_token(m, kind, unit, variant),
        Phase::OnClosingQuote(kind) => step_on_closing_quote(m, kind, unit, variant),
        Phase::OnBackslashRun(count, kind) => step_on_backslash_run(
            m,
            count,
            kind,
            unit,
            last,
            variant,
        ),
    }
}

/// The scanner after the code units of `units`, fed in order. `more` says
/// that further input follows `units`; where it does not, the last unit of
/// `units` is the last of the line.
pub open spec fn feed(m: Machine, units: Seq<u16>, more: bool, variant: Variant) -> Machine
    decreases units.len(),
{
    if units.len() == 0 {
        m
    } else {
        feed(step(m, units[0], !more && units.len() == 1, variant), units.skip(1), more, variant)
    }
}

/// The arguments of the command line `line` under `variant`.
pub open spec fn arguments_of(line: Seq<u16>, variant: Variant) -> Seq<Seq<u16>> {
    feed(Machine::initial(), line, false, variant).finished()
}

} // verus!
