//! Code units and the classes the scanner sorts them into.

use vstd::prelude::*;

verus! {

/// The space character.
pub const SPACE: u16 = 0x20;

/// The horizontal tab character.
pub const TAB: u16 = 0x09;

/// The double-quote character.
pub const DOUBLE_QUOTE: u16 = 0x22;

/// The single-quote character.
pub const SINGLE_QUOTE: u16 = 0x27;

/// The backslash, the escaping character.
pub const BACKSLASH: u16 = 0x5C;

/// One of the three historical rule sets.
#[derive(Clone, Copy, Debug, PartialEq, Eq, Structural)]
pub enum Variant {
    /// The convention of the C runtime before 2008.
    Pre2008,
    /// The convention of the C runtime from 2008 on.
    Post2008,
    /// The 2008 convention, with single quotes as a second kind of quote.
    Generalized,
}

/// What a code unit means to the scanner.
#[derive(Clone, Copy, Debug, PartialEq, Eq, Structural)]
pub enum UnitClass {
    /// Space or tab.
    Whitespace,
    /// The double-quote character.
    DoubleQuote,
    /// The single-quote character, under the generalized variant only.
    SingleQuote,
    /// The backslash.
    Backslash,
    /// Every other code unit, unpaired surrogates included.
    Other,
}

/// Whether `unit` is a space or a tab.
pub open spec fn is_whitespace(unit: u16) -> bool {
    unit == SPACE || unit == TAB
}

/// The class of `unit` under `variant`. A single quote is a quote under the
/// generalized variant and an ordinary unit under the other two.
pub open spec fn class_of(unit: u16, variant: Variant) -> UnitClass {
    if is_whitespace(unit) {
        UnitClass::Whitespace
    } else if unit == DOUBLE_QUOTE {
        UnitClass::DoubleQuote
    } else if unit == BACKSLASH {
        UnitClass::Backslash
    } else if unit == SINGLE_QUOTE && variant == Variant::Generalized {
        UnitClass::SingleQuote
    } else {
        UnitClass::Other
    }
}

/// Classifies one code unit.
pub fn classify(unit: u16, variant: Variant) -> (class: UnitClass)
    ensures
        class == class_of(unit, variant),
{
    if unit == SPACE || unit == TAB {
        UnitClass::Whitespace
    } else if unit == DOUBLE_QUOTE {
        UnitClass::DoubleQuote
    } else if unit == BACKSLASH {
        UnitClass::Backslash
    } else if unit == SINGLE_QUOTE && variant == Variant::Generalized {
        UnitClass::SingleQuote
    } else {
        UnitClass::Other
    }
}

} // verus!
