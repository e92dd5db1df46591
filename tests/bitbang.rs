use hx1230::bitbang::{replay, Hx1230SwDriver, SwSignal, SwSpi};

/// Records the line actions as characters: R reset, D delay, 1 / 0 data
/// line high / low, c clock pulse.
struct Recorder {
    log: String,
}

impl SwSpi for Recorder {
    fn hw_reset(&mut self) {
        self.log.push('R');
    }

    fn mosi_set_high(&mut self) {
        self.log.push('1');
    }

    fn mosi_set_low(&mut self) {
        self.log.push('0');
    }

    fn sck_toggle_high_low(&mut self) {
        self.log.push('c');
    }

    fn long_init_delay(&mut self) {
        self.log.push('D');
    }
}

fn clocked(byte: u8) -> String {
    (0..8)
        .map(|i| if byte >> (7 - i) & 1 == 1 { "1c" } else { "0c" })
        .collect()
}

#[test]
fn contrast_is_clocked_msb_first() {
    let driver = Hx1230SwDriver::new();
    let mut spi = Recorder { log: String::new() };
    replay(&mut spi, &driver.set_contrast(40));
    assert_eq!(spi.log, "1c0c0c0c1c0c0c0c");
}

#[test]
fn line_and_test_commands() {
    let driver = Hx1230SwDriver::new();
    let mut spi = Recorder { log: String::new() };
    replay(&mut spi, &driver.set_line(65));
    assert_eq!(spi.log, clocked(0x41));
    spi.log.clear();
    replay(&mut spi, &driver.set_display_test(true));
    assert_eq!(spi.log, clocked(0xA5));
    spi.log.clear();
    replay(&mut spi, &driver.set_display_test(false));
    assert_eq!(spi.log, clocked(0xA4));
}

#[test]
fn sw_init_resets_then_configures() {
    let driver = Hx1230SwDriver::new();
    let mut spi = Recorder { log: String::new() };
    replay(&mut spi, &driver.init());
    let expected = format!(
        "RD{}{}{}{}",
        clocked(0x21),
        clocked(0x90),
        clocked(0x20),
        clocked(0x09)
    );
    assert_eq!(spi.log, expected);
}

#[test]
fn contrast_program_is_sixteen_signals() {
    let driver = Hx1230SwDriver::new();
    let signals = driver.set_contrast(8);
    assert_eq!(signals.len(), 16);
    assert_eq!(signals[0], SwSignal::MosiHigh);
    assert_eq!(signals[1], SwSignal::ClockPulse);
    assert_eq!(signals[2], SwSignal::MosiLow);
    assert_eq!(signals, driver.set_contrast(40));
}
