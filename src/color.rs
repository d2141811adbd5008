use vstd::prelude::*;

verus! {

/// The three colors the panel can show.
#[derive(Clone, Copy, Debug, PartialEq, Eq, Structural)]
pub enum TriColor {
    Black,
    White,
    Chromatic,
}

/// Bit of a pixel of color `c` in the black/white plane (`true` = set).
pub open spec fn primary_bit(c: TriColor) -> bool {
    match c {
        TriColor::Black => false,
        TriColor::White => true,
        TriColor::Chromatic => true,
    }
}

/// Bit of a pixel of color `c` in the chromatic plane (`true` = set).
pub open spec fn chromatic_bit(c: TriColor) -> bool {
    match c {
        TriColor::Black => true,
        TriColor::White => true,
        TriColor::Chromatic => false,
    }
}

/// A byte whose eight bits all equal `bit`.
pub open spec fn fill_byte(bit: bool) -> u8 {
    if bit {
        0xffu8
    } else {
        0x00u8
    }
}

/// `b` with the bits of `mask` set when `on`, cleared otherwise.
pub open spec fn with_bits(b: u8, mask: u8, on: bool) -> u8 {
    if on {
        b | mask
    } else {
        b & !mask
    }
}

impl TriColor {
    /// Bit of this color in the black/white plane.
    pub fn bw_bit(self) -> (r: bool)
        ensures
            r == primary_bit(self),
    {
        match self {
            TriColor::Black => false,
            TriColor::White => true,
            TriColor::Chromatic => true,
        }
    }

    /// Bit of this color in the chromatic plane.
    pub fn chromatic_bit(self) -> (r: bool)
        ensures
            r == chromatic_bit(self),
    {
        match self {
            TriColor::Black => true,
            TriColor::White => true,
            TriColor::Chromatic => false,
        }
    }

    /// A byte of eight pixels of this color in the black/white plane.
    pub fn get_byte_value(self) -> (r: u8)
        ensures
            r == fill_byte(primary_bit(self)),
    {
        if self.bw_bit() {
            0xff
        } else {
            0x00
        }
    }

    /// A byte of eight pixels of this color in the chromatic plane.
    pub fn get_chromatic_byte_value(self) -> (r: u8)
        ensures
            r == fill_byte(chromatic_bit(self)),
    {
        if self.chromatic_bit() {
            0xff
        } else {
            0x00
        }
    }
}

/// Sets (when `on`) or clears the bits of `mask` in `b`.
pub fn set_bits(b: u8, mask: u8, on: bool) -> (r: u8)
    ensures
        r == with_bits(b, mask, on),
{
    if on {
        b | mask
    } else {
        b & !mask
    }
}

/// Writing the same bits twice leaves the byte as writing them once.
pub proof fn lemma_with_bits_idempotent(b: u8, mask: u8, on: bool)
    ensures
        with_bits(with_bits(b, mask, on), mask, on) == with_bits(b, mask, on),
{
    let s = b | mask;
    let c = b & !mask;
    assert(s | mask == s) by (bit_vector)
        requires
            s == b | mask,
    ;
    assert(c & !mask == c) by (bit_vector)
        requires
            c == b & !mask,
    ;
}

} // verus!
