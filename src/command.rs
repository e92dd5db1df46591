//! Opcodes of the display controller.
//!
//! Every constructor returns the exact byte the controller expects. Numeric
//! arguments are masked into their field width, never rejected.
use vstd::prelude::*;

verus! {

/// Display software reset
#[verifier::allow_in_spec]
pub fn reset() -> u8
    returns
        0xE2u8,
{
    0xE2
}

/// Turn on power
#[verifier::allow_in_spec]
pub fn power_on() -> u8
    returns
        0x2Fu8,
{
    0x2F
}

/// Turn off power
#[verifier::allow_in_spec]
pub fn power_off() -> u8
    returns
        0x28u8,
{
    0x28
}

/// Turn on horizontal mirror
#[verifier::allow_in_spec]
pub fn horizontal_flip_on() -> u8
    returns
        0xA1u8,
{
    0xA1
}

/// Turn off horizontal mirror
#[verifier::allow_in_spec]
pub fn horizontal_flip_off() -> u8
    returns
        0xA0u8,
{
    0xA0
}

/// Turn on vertical mirror
#[verifier::allow_in_spec]
pub fn vertical_flip_on() -> u8
    returns
        0xC8u8,
{
    0xC8
}

/// Turn off vertical mirror
#[verifier::allow_in_spec]
pub fn vertical_flip_off() -> u8
    returns
        0xC0u8,
{
    0xC0
}

/// Enable display test (all pixels active)
#[verifier::allow_in_spec]
pub fn display_test_on() -> u8
    returns
        0xA5u8,
{
    0xA5
}

/// Disable display test (show the display RAM)
#[verifier::allow_in_spec]
pub fn display_test_off() -> u8
    returns
        0xA4u8,
{
    0xA4
}

/// Enable inverted pixels (negative image)
#[verifier::allow_in_spec]
pub fn invert_on() -> u8
    returns
        0xA7u8,
{
    0xA7
}

/// Disable inverted pixels (negative image)
#[verifier::allow_in_spec]
pub fn invert_off() -> u8
    returns
        0xA6u8,
{
    0xA6
}

/// Turn on display
#[verifier::allow_in_spec]
pub fn display_on() -> u8
    returns
        0xAFu8,
{
    0xAF
}

/// Turn off display
#[verifier::allow_in_spec]
pub fn display_off() -> u8
    returns
        0xAEu8,
{
    0xAE
}

/// Set display contrast (0 - 31); the value is taken modulo 32
#[verifier::allow_in_spec]
pub fn set_contrast(contrast: u8) -> u8
    returns
        (0x80 + contrast % 32) as u8,
{
    proof {
        assert(0x80 | (0b00011111 & contrast) == (0x80 + contrast % 32) as u8) by (bit_vector);
    }
    0x80 | (0b00011111 & contrast)
}

/// Set display start line (0 - 63); the value is taken modulo 64
#[verifier::allow_in_spec]
pub fn set_line(line: u8) -> u8
    returns
        (0x40 + line % 64) as u8,
{
    proof {
        assert(0x40 | (0b00111111 & line) == (0x40 + line % 64) as u8) by (bit_vector);
    }
    0x40 | (0b00111111 & line)
}

/// Set page (0 - 9), the y coordinate in bytes; the value is taken modulo 16
#[verifier::allow_in_spec]
pub fn set_page(page: u8) -> u8
    returns
        (0xB0 + page % 16) as u8,
{
    proof {
        assert(0xB0 | (0b00001111 & page) == (0xB0 + page % 16) as u8) by (bit_vector);
    }
    0xB0 | (0b00001111 & page)
}

/// Set the low part of the column address: the low 4 bits of `column`
#[verifier::allow_in_spec]
pub fn set_column_low(column: u8) -> u8
    returns
        (column % 16) as u8,
{
    proof {
        assert(0b00001111 & column == (column % 16) as u8) by (bit_vector);
    }
    0b00001111 & column
}

/// Set the high part of the column address: the low 3 bits of `column`
#[verifier::allow_in_spec]
pub fn set_column_high(column: u8) -> u8
    returns
        (0x10 + column % 8) as u8,
{
    proof {
        assert(0x10 | (0b00000111 & column) == (0x10 + column % 8) as u8) by (bit_vector);
    }
    0x10 | (0b00000111 & column)
}

/// The commands of [`init_sequence`], as a sequence.
pub open spec fn init_sequence_spec() -> Seq<u8> {
    seq![
        power_on(),
        set_contrast(30),
        display_test_off(),
        horizontal_flip_off(),
        vertical_flip_off(),
        invert_off(),
        display_on(),
        set_column_low(0),
        set_column_high(0),
        set_page(0),
    ]
}

/// The commands that bring a reset controller into a usable state: power,
/// contrast, normal (non-test) display, no mirroring, no inversion, display
/// on, and the write cursor at column 0 of page 0. The order matters: the
/// controller honours several of them only once power is on.
pub fn init_sequence() -> (r: [u8; 10])
    ensures
        r@ == init_sequence_spec(),
{
    let r = [
        power_on(),
        set_contrast(30),
        display_test_off(),
        horizontal_flip_off(),
        vertical_flip_off(),
        invert_off(),
        display_on(),
        set_column_low(0),
        set_column_high(0),
        set_page(0),
    ];
    assert(r@ =~= init_sequence_spec());
    r
}

/// The three commands that move the write cursor to `column` of `page`.
pub fn set_position(column: u8, page: u8) -> (r: [u8; 3])
    ensures
        r@ == seq![set_column_low(column), set_column_high(column), set_page(page)],
{
    [set_column_low(column), set_column_high(column), set_page(page)]
}

/// The contrast opcode holds `0b100` in its high three bits and the contrast
/// modulo 32 in its low five bits, so contrasts that agree modulo 32 give the
/// same opcode.
pub proof fn lemma_contrast_masked(a: u8, b: u8)
    requires
        a % 32 == b % 32,
    ensures
        set_contrast(a) == set_contrast(b),
        set_contrast(a) / 32 == 4,
        set_contrast(a) % 32 == a % 32,
{
}

/// One controller opcode, built only through the constructors below, which
/// mask their arguments into range.
#[derive(Clone, Copy)]
pub struct Command(u8);

impl View for Command {
    type V = u8;

    closed spec fn view(&self) -> u8 {
        self.0
    }
}

impl Command {
    /// Display software reset
    pub fn reset() -> (r: Self)
        ensures
            r@ == reset(),
    {
        Command(reset())
    }

    /// Turn on power
    pub fn power_on() -> (r: Self)
        ensures
            r@ == power_on(),
    {
        Command(power_on())
    }

    /// Turn off power
    pub fn power_off() -> (r: Self)
        ensures
            r@ == power_off(),
    {
        Command(power_off())
    }

    /// Turn on horizontal mirror
    pub fn horizontal_flip_on() -> (r: Self)
        ensures
            r@ == horizontal_flip_on(),
    {
        Command(horizontal_flip_on())
    }

    /// Turn off horizontal mirror
    pub fn horizontal_flip_off() -> (r: Self)
        ensures
            r@ == horizontal_flip_off(),
    {
        Command(horizontal_flip_off())
    }

    /// Turn on vertical mirror
    pub fn vertical_flip_on() -> (r: Self)
        ensures
            r@ == vertical_flip_on(),
    {
        Command(vertical_flip_on())
    }

    /// Turn off vertical mirror
    pub fn vertical_flip_off() -> (r: Self)
        ensures
            r@ == vertical_flip_off(),
    {
        Command(vertical_flip_off())
    }

    /// Enable display test (all pixels active)
    pub fn display_test_on() -> (r: Self)
        ensures
            r@ == display_test_on(),
    {
        Command(display_test_on())
    }

    /// Disable display test (show the display RAM)
    pub fn display_test_off() -> (r: Self)
        ensures
            r@ == display_test_off(),
    {
        Command(display_test_off())
    }

    /// Enable inverted pixels (negative image)
    pub fn invert_on() -> (r: Self)
        ensures
            r@ == invert_on(),
    {
        Command(invert_on())
    }

    /// Disable inverted pixels (negative image)
    pub fn invert_off() -> (r: Self)
        ensures
            r@ == invert_off(),
    {
        Command(invert_off())
    }

    /// Turn on display
    pub fn display_on() -> (r: Self)
        ensures
            r@ == display_on(),
    {
        Command(display_on())
    }

    /// Turn off display
    pub fn display_off() -> (r: Self)
        ensures
            r@ == display_off(),
    {
        Command(display_off())
    }

    /// Set display contrast (0 - 31); the value is taken modulo 32
    pub fn set_contrast(contrast: u8) -> (r: Self)
        ensures
            r@ == set_contrast(contrast),
    {
        Command(set_contrast(contrast))
    }

    /// Set display start line (0 - 63); the value is taken modulo 64
    pub fn set_line(line: u8) -> (r: Self)
        ensures
            r@ == set_line(line),
    {
        Command(set_line(line))
    }

    /// Set page (0 - 9), the y coordinate in bytes; the value is taken modulo 16
    pub fn set_page(page: u8) -> (r: Self)
        ensures
            r@ == set_page(page),
    {
        Command(set_page(page))
    }

    /// Set the low part of the column address: the low 4 bits of `column`
    pub fn set_column_low(column: u8) -> (r: Self)
        ensures
            r@ == set_column_low(column),
    {
        Command(set_column_low(column))
    }

    /// Set the high part of the column address: the low 3 bits of `column`
    pub fn set_column_high(column: u8) -> (r: Self)
        ensures
            r@ == set_column_high(column),
    {
        Command(set_column_high(column))
    }

    /// The opcode byte.
    pub fn value(&self) -> (r: u8)
        ensures
            r == self@,
    {
        self.0
    }
}

} // verus!
