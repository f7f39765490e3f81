//! Decoration kinds and the per-cell flag set.

use vstd::prelude::*;

verus! {

/// The kinds of line that can decorate a cell.
#[derive(Clone, Copy, Debug, PartialEq, Eq, Structural)]
pub enum DecorationKind {
    StrikeOut,
    SingleUnderline,
    DoubleUnderline,
    DottedUnderline,
    DashedUnderline,
}

/// Bit of [`DecorationKind::StrikeOut`] in a flag set.
pub const STRIKEOUT: u8 = 0x01;

/// Bit of [`DecorationKind::SingleUnderline`] in a flag set.
pub const UNDERLINE: u8 = 0x02;

/// Bit of [`DecorationKind::DoubleUnderline`] in a flag set.
pub const DOUBLE_UNDERLINE: u8 = 0x04;

/// Bit of [`DecorationKind::DottedUnderline`] in a flag set.
pub const DOTTED_UNDERLINE: u8 = 0x08;

/// Bit of [`DecorationKind::DashedUnderline`] in a flag set.
pub const DASHED_UNDERLINE: u8 = 0x10;

/// Bit that marks the first half of a double-width glyph.
pub const WIDE_CHAR: u8 = 0x20;

/// Every bit that a flag set can hold.
pub const ALL_FLAGS: u8 = 0x3f;

impl DecorationKind {
    /// The bit that stands for this kind in a flag set.
    pub open spec fn bit(self) -> u8 {
        match self {
            DecorationKind::StrikeOut => STRIKEOUT,
            DecorationKind::SingleUnderline => UNDERLINE,
            DecorationKind::DoubleUnderline => DOUBLE_UNDERLINE,
            DecorationKind::DottedUnderline => DOTTED_UNDERLINE,
            DecorationKind::DashedUnderline => DASHED_UNDERLINE,
        }
    }

    /// The bit that stands for this kind in a flag set.
    pub fn mask(self) -> (m: u8)
        ensures
            m == self.bit(),
    {
        match self {
            DecorationKind::StrikeOut => STRIKEOUT,
            DecorationKind::SingleUnderline => UNDERLINE,
            DecorationKind::DoubleUnderline => DOUBLE_UNDERLINE,
            DecorationKind::DottedUnderline => DOTTED_UNDERLINE,
            DecorationKind::DashedUnderline => DASHED_UNDERLINE,
        }
    }
}

/// The decorations of one cell, and whether it holds a double-width glyph.
#[derive(Clone, Copy, Debug, PartialEq, Eq, Structural)]
pub struct Flags {
    bits: u8,
}

impl Flags {
    /// The bits of the set.
    pub closed spec fn spec_bits(self) -> u8 {
        self.bits
    }

    /// Whether the cell carries a decoration of this kind.
    pub open spec fn has(self, kind: DecorationKind) -> bool {
        self.spec_bits() & kind.bit() != 0
    }

    /// Whether the cell holds the first half of a double-width glyph.
    pub open spec fn wide(self) -> bool {
        self.spec_bits() & WIDE_CHAR != 0
    }

    /// The set with no decoration, for a glyph of single width.
    pub fn empty() -> (flags: Flags)
        ensures
            flags.spec_bits() == 0,
            !flags.wide(),
            forall|kind: DecorationKind| !flags.has(kind),
    {
        assert(forall|m: u8| 0u8 & m == 0) by (bit_vector);
        Flags { bits: 0 }
    }

    /// The set whose bits are those of `bits` that have a meaning.
    pub fn from_bits(bits: u8) -> (flags: Flags)
        ensures
            flags.spec_bits() == bits & ALL_FLAGS,
            flags.wide() == (bits & WIDE_CHAR != 0),
            forall|kind: DecorationKind| flags.has(kind) == (bits & kind.bit() != 0),
    {
        assert(forall|m: u8| m & 0x3f == m ==> ((bits & 0x3f) & m != 0) == (bits & m != 0))
            by (bit_vector);
        assert(0x01u8 & 0x3f == 0x01 && 0x02u8 & 0x3f == 0x02 && 0x04u8 & 0x3f == 0x04 && 0x08u8
            & 0x3f == 0x08 && 0x10u8 & 0x3f == 0x10 && 0x20u8 & 0x3f == 0x20) by (bit_vector);
        Flags { bits: bits & ALL_FLAGS }
    }

    /// The bits of the set.
    pub fn bits(&self) -> (bits: u8)
        ensures
            bits == self.spec_bits(),
    {
        self.bits
    }

    /// Whether the cell carries a decoration of this kind.
    pub fn contains(&self, kind: DecorationKind) -> (found: bool)
        ensures
            found == self.has(kind),
    {
        self.bits & kind.mask() != 0
    }

    /// Whether the cell holds the first half of a double-width glyph.
    pub fn is_wide(&self) -> (found: bool)
        ensures
            found == self.wide(),
    {
        self.bits & WIDE_CHAR != 0
    }

    /// This set with the decoration `kind` added.
    pub fn with(self, kind: DecorationKind) -> (flags: Flags)
        ensures
            flags.spec_bits() == self.spec_bits() | kind.bit(),
            flags.wide() == self.wide(),
            forall|other: DecorationKind| flags.has(other) == (other == kind || self.has(other)),
    {
        let bits: u8 = self.bits;
        assert(forall|m: u8, n: u8|
            (m == 0x01 || m == 0x02 || m == 0x04 || m == 0x08 || m == 0x10 || m == 0x20) && (n
                == 0x01 || n == 0x02 || n == 0x04 || n == 0x08 || n == 0x10 || n == 0x20) ==> (((
            bits | m) & n != 0) == (m == n || bits & n != 0))) by (bit_vector);
        Flags { bits: self.bits | kind.mask() }
    }

    /// This set with the mark of a double-width glyph added.
    pub fn with_wide(self) -> (flags: Flags)
        ensures
            flags.spec_bits() == self.spec_bits() | WIDE_CHAR,
            flags.wide(),
            forall|kind: DecorationKind| flags.has(kind) == self.has(kind),
    {
        let bits: u8 = self.bits;
        assert(forall|n: u8|
            (n == 0x01 || n == 0x02 || n == 0x04 || n == 0x08 || n == 0x10 || n == 0x20) ==> (((
            bits | 0x20) & n != 0) == (0x20 == n || bits & n != 0))) by (bit_vector);
        assert((bits | 0x20) & 0x20 != 0) by (bit_vector);
        Flags { bits: self.bits | WIDE_CHAR }
    }
}

} // verus!
