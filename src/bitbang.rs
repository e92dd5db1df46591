//! Driver that clocks commands out bit by bit on two plain output lines.
use crate::command;
use vstd::prelude::*;

verus! {

/// One action on the bit-banged lines.
#[derive(Clone, Copy, Debug, PartialEq, Eq, Structural)]
pub enum SwSignal {
    /// Pulse the reset line.
    HwReset,
    /// Drive the data line high.
    MosiHigh,
    /// Drive the data line low.
    MosiLow,
    /// One clock pulse: the controller samples the data line.
    ClockPulse,
    /// The long wait after a reset.
    LongInitDelay,
}

/// The lines a bit-banged controller hangs on, driven by the user's code.
pub trait SwSpi {
    fn hw_reset(&mut self);

    fn mosi_set_high(&mut self);

    fn mosi_set_low(&mut self);

    fn sck_toggle_high_low(&mut self);

    fn long_init_delay(&mut self);
}

/// Carries out `signals` on `spi`, in order.
pub fn replay<S: SwSpi>(spi: &mut S, signals: &[SwSignal]) {
    let mut i: usize = 0;
    while i < signals.len()
        decreases signals@.len() - i,
    {
        match signals[i] {
            SwSignal::HwReset => spi.hw_reset(),
            SwSignal::MosiHigh => spi.mosi_set_high(),
            SwSignal::MosiLow => spi.mosi_set_low(),
            SwSignal::ClockPulse => spi.sck_toggle_high_low(),
            SwSignal::LongInitDelay => spi.long_init_delay(),
        }
        i = i + 1;
    }
}

/// Putting the lowest bit of `bit` on the data line and clocking it in.
pub open spec fn bit_signals(bit: u8) -> Seq<SwSignal> {
    seq![
        if bit & 1 == 1 {
            SwSignal::MosiHigh
        } else {
            SwSignal::MosiLow
        },
        SwSignal::ClockPulse,
    ]
}

/// Clocking in the bits `0 .. n` of `byte`, most significant first.
pub open spec fn byte_signals(byte: u8, n: nat) -> Seq<SwSignal>
    decreases n,
{
    if n == 0 {
        Seq::empty()
    } else {
        byte_signals(byte, (n - 1) as nat) + bit_signals(byte >> ((8 - n) as u8))
    }
}

/// Clocking in a whole command byte, most significant bit first.
pub open spec fn command_signals(byte: u8) -> Seq<SwSignal> {
    byte_signals(byte, 8)
}

/// Bringing the controller up: reset, the long delay, then extended mode,
/// operating voltage, basic mode and all-segments display.
pub open spec fn init_signals() -> Seq<SwSignal> {
    seq![SwSignal::HwReset, SwSignal::LongInitDelay] + command_signals(0b00100001)
        + command_signals(0b10010000) + command_signals(0b00100000) + command_signals(
        0b00001001,
    )
}

/// Controller driver over bit-banged lines; it holds no state of its own.
/// Each operation returns the signals that carry it out, for [`replay`].
pub struct Hx1230SwDriver {}

impl Hx1230SwDriver {
    pub fn new() -> Self {
        Hx1230SwDriver {}
    }

    /// Resets the controller and sets it up.
    pub fn init(&self) -> (r: Vec<SwSignal>)
        ensures
            r@ == init_signals(),
    {
        let mut signals: Vec<SwSignal> = Vec::new();
        signals.push(SwSignal::HwReset);
        signals.push(SwSignal::LongInitDelay);
        self.command(&mut signals, 0b00100001);
        self.command(&mut signals, 0b10010000);
        self.command(&mut signals, 0b00100000);
        self.command(&mut signals, 0b00001001);
        assert(signals@ =~= init_signals());
        signals
    }

    /// Sets the contrast (0 - 31, taken modulo 32).
    pub fn set_contrast(&self, value: u8) -> (r: Vec<SwSignal>)
        ensures
            r@ == command_signals(command::set_contrast(value)),
    {
        let mut signals: Vec<SwSignal> = Vec::new();
        self.command(&mut signals, command::set_contrast(value));
        assert(signals@ =~= command_signals(command::set_contrast(value)));
        signals
    }

    /// Sets the start line (0 - 63, taken modulo 64).
    pub fn set_line(&self, value: u8) -> (r: Vec<SwSignal>)
        ensures
            r@ == command_signals(command::set_line(value)),
    {
        let mut signals: Vec<SwSignal> = Vec::new();
        self.command(&mut signals, command::set_line(value));
        assert(signals@ =~= command_signals(command::set_line(value)));
        signals
    }

    /// Turns the display test (all pixels on) on or off.
    pub fn set_display_test(&self, value: bool) -> (r: Vec<SwSignal>)
        ensures
            r@ == command_signals(
                if value {
                    command::display_test_on()
                } else {
                    command::display_test_off()
                },
            ),
    {
        let mut signals: Vec<SwSignal> = Vec::new();
        if value {
            self.command(&mut signals, command::display_test_on())
        } else {
            self.command(&mut signals, command::display_test_off())
        }
        signals
    }

    /// Appends the clocking of `command`, most significant bit first.
    fn command(&self, spi: &mut Vec<SwSignal>, command: u8)
        ensures
            final(spi)@ == old(spi)@ + command_signals(command),
    {
        let mut shift: u8 = 0;
        while shift <= 7
            invariant
                shift <= 8,
                spi@ == old(spi)@ + byte_signals(command, shift as nat),
            decreases 8 - shift,
        {
            self.output_bit(spi, command >> (7 - shift));
            assert(spi@ =~= old(spi)@ + byte_signals(command, (shift + 1) as nat));
            shift = shift + 1;
        }
    }

    /// Appends putting the lowest bit of `bit` on the data line and clocking
    /// it in.
    fn output_bit(&self, spi: &mut Vec<SwSignal>, bit: u8)
        ensures
            final(spi)@ == old(spi)@ + bit_signals(bit),
    {
        if bit & 0x01 == 1 {
            spi.push(SwSignal::MosiHigh)
        } else {
            spi.push(SwSignal::MosiLow)
        };
        spi.push(SwSignal::ClockPulse);
        assert(final(spi)@ =~= old(spi)@ + bit_signals(bit));
    }
}

} // verus!
