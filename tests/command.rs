use hx1230::command::{
    display_off, display_on, display_test_off, display_test_on, horizontal_flip_off,
    horizontal_flip_on, init_sequence, invert_off, invert_on, power_off, power_on, reset,
    set_column_high, set_column_low, set_contrast, set_line, set_page, set_position,
    vertical_flip_off, vertical_flip_on, Command,
};

#[test]
fn fixed_opcodes_match_the_datasheet() {
    assert_eq!(reset(), 0xE2);
    assert_eq!(power_on(), 0x2F);
    assert_eq!(power_off(), 0x28);
    assert_eq!(horizontal_flip_on(), 0xA1);
    assert_eq!(horizontal_flip_off(), 0xA0);
    assert_eq!(vertical_flip_on(), 0xC8);
    assert_eq!(vertical_flip_off(), 0xC0);
    assert_eq!(display_test_on(), 0xA5);
    assert_eq!(display_test_off(), 0xA4);
    assert_eq!(invert_on(), 0xA7);
    assert_eq!(invert_off(), 0xA6);
    assert_eq!(display_on(), 0xAF);
    assert_eq!(display_off(), 0xAE);
}

#[test]
fn contrast_is_masked_to_five_bits() {
    let a = set_contrast(40);
    let b = set_contrast(8);
    assert_eq!(a, b);
    assert_eq!(a, 0x88);
    assert_eq!(a >> 5, 0b100);
    assert_eq!(b >> 5, 0b100);
    assert_eq!(40 & 0x1F, 8);
    assert_eq!(set_contrast(0), 0x80);
    assert_eq!(set_contrast(31), 0x9F);
    assert_eq!(set_contrast(255), 0x9F);
}

#[test]
fn line_page_and_column_are_masked() {
    assert_eq!(set_line(0), 0x40);
    assert_eq!(set_line(63), 0x7F);
    assert_eq!(set_line(70), 0x46);
    assert_eq!(set_page(0), 0xB0);
    assert_eq!(set_page(9), 0xB9);
    assert_eq!(set_page(0x1A), 0xBA);
    assert_eq!(set_column_low(0), 0x00);
    assert_eq!(set_column_low(0x2B), 0x0B);
    assert_eq!(set_column_high(0), 0x10);
    assert_eq!(set_column_high(0x2B), 0x13);
}

#[test]
fn init_sequence_order() {
    assert_eq!(
        init_sequence(),
        [0x2F, 0x9E, 0xA4, 0xA0, 0xC0, 0xA6, 0xAF, 0x00, 0x10, 0xB0]
    );
}

#[test]
fn set_position_commands() {
    assert_eq!(set_position(0, 0), [0x00, 0x10, 0xB0]);
    assert_eq!(set_position(0x2B, 3), [0x0B, 0x13, 0xB3]);
}

#[test]
fn command_values_match_free_functions() {
    assert_eq!(Command::reset().value(), reset());
    assert_eq!(Command::power_on().value(), 0x2F);
    assert_eq!(Command::power_off().value(), 0x28);
    assert_eq!(Command::horizontal_flip_on().value(), 0xA1);
    assert_eq!(Command::horizontal_flip_off().value(), 0xA0);
    assert_eq!(Command::vertical_flip_on().value(), 0xC8);
    assert_eq!(Command::vertical_flip_off().value(), 0xC0);
    assert_eq!(Command::display_test_on().value(), 0xA5);
    assert_eq!(Command::display_test_off().value(), 0xA4);
    assert_eq!(Command::invert_on().value(), 0xA7);
    assert_eq!(Command::invert_off().value(), 0xA6);
    assert_eq!(Command::display_on().value(), 0xAF);
    assert_eq!(Command::display_off().value(), 0xAE);
    assert_eq!(Command::set_contrast(40).value(), 0x88);
    assert_eq!(Command::set_line(70).value(), 0x46);
    assert_eq!(Command::set_page(9).value(), 0xB9);
    assert_eq!(Command::set_column_low(0x2B).value(), 0x0B);
    assert_eq!(Command::set_column_high(0x2B).value(), 0x13);
}
