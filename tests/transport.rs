use hx1230::buffer::{clear, ArrayDisplayBuffer};
use hx1230::transport::{init_display, BusError, BusOp, Hx1230Driver, SpiHx1230Driver, Step};

/// Hands out every queued operation, as a caller whose bus never fails.
fn drain(driver: &mut SpiHx1230Driver) -> Vec<BusOp> {
    let mut ops = Vec::new();
    loop {
        match driver.next_step(Ok(())) {
            Step::Perform(op) => ops.push(op),
            Step::Idle => return ops,
            Step::Failed(_) => panic!("no failure was reported"),
        }
    }
}

fn framed(bytes: &[u8]) -> Vec<BusOp> {
    vec![BusOp::Select, BusOp::Write(bytes.to_vec()), BusOp::Deselect]
}

#[test]
fn empty_send_is_silent() {
    let mut driver = SpiHx1230Driver::new();
    driver.send_commands(&[]);
    assert_eq!(driver.next_step(Ok(())), Step::Idle);
    driver.send_data(&[]);
    assert!(drain(&mut driver).is_empty());
}

#[test]
fn new_driver_is_idle() {
    let mut driver = SpiHx1230Driver::new();
    assert_eq!(driver.next_step(Ok(())), Step::Idle);
}

#[test]
fn single_command_is_one_framed_block() {
    let mut driver = SpiHx1230Driver::new();
    driver.command(0xE2);
    assert_eq!(drain(&mut driver), framed(&[0x71, 0x00]));
}

#[test]
fn data_is_cut_into_blocks_of_eight() {
    let mut driver = SpiHx1230Driver::new();
    let data: Vec<u8> = (0..20).collect();
    driver.send_data(&data);
    let ops = drain(&mut driver);
    assert_eq!(ops.len(), 9);
    let writes: Vec<usize> = ops
        .iter()
        .filter_map(|op| match op {
            BusOp::Write(bytes) => Some(bytes.len()),
            _ => None,
        })
        .collect();
    assert_eq!(writes, vec![9, 9, 5]);
    for k in 0..3 {
        assert_eq!(ops[3 * k], BusOp::Select);
        assert_eq!(ops[3 * k + 2], BusOp::Deselect);
    }
}

#[test]
fn blocks_keep_input_order() {
    let mut driver = SpiHx1230Driver::new();
    let mut data = vec![0xFFu8; 8];
    data.push(0x01);
    driver.send_data(&data);
    let mut expected = framed(&[0xFF; 9]);
    expected.extend(framed(&[0x80, 0x80]));
    assert_eq!(drain(&mut driver), expected);
}

#[test]
fn failure_drops_the_rest() {
    let mut driver = SpiHx1230Driver::new();
    driver.send_data(&[1, 2, 3, 4, 5, 6, 7, 8, 9, 10]);
    assert_eq!(driver.next_step(Ok(())), Step::Perform(BusOp::Select));
    assert!(matches!(driver.next_step(Ok(())), Step::Perform(BusOp::Write(_))));
    assert_eq!(driver.next_step(Err(BusError)), Step::Failed(BusError));
    assert_eq!(driver.next_step(Ok(())), Step::Idle);
}

#[test]
fn set_column_and_reset_position() {
    let mut driver = SpiHx1230Driver::new();
    driver.set_column(0);
    // 0_00000000 0_00010000 -> 00000000 00000100 00(000000)
    assert_eq!(drain(&mut driver), framed(&[0x00, 0x04, 0x00]));
    driver.reset_position();
    let mut expected = framed(&[0x00, 0x04, 0x00]);
    // 0_10110000 -> 01011000 0(0000000)
    expected.extend(framed(&[0x58, 0x00]));
    assert_eq!(drain(&mut driver), expected);
}

#[test]
fn configuration_commands() {
    let mut driver = SpiHx1230Driver::new();
    driver.set_contrast(40);
    // 0_10001000 -> 01000100 0
    assert_eq!(drain(&mut driver), framed(&[0x44, 0x00]));
    driver.set_line(1);
    // 0_01000001 -> 00100000 1
    assert_eq!(drain(&mut driver), framed(&[0x20, 0x80]));
    driver.set_display_test(true);
    // 0_10100101 -> 01010010 1
    assert_eq!(drain(&mut driver), framed(&[0x52, 0x80]));
    driver.set_display_test(false);
    assert_eq!(drain(&mut driver), framed(&[0x52, 0x00]));
}

#[test]
fn clear_data_covers_the_display_ram() {
    let mut driver = SpiHx1230Driver::new();
    driver.clear_data();
    let ops = drain(&mut driver);
    assert_eq!(ops.len(), 6 + 108 * 3 + 6);
    let zero_block = framed(&[0x80, 0x40, 0x20, 0x10, 0x08, 0x04, 0x02, 0x01, 0x00]);
    assert_eq!(&ops[6..9], &zero_block[..]);
    assert_eq!(&ops[6 + 107 * 3..6 + 108 * 3], &zero_block[..]);
}

#[test]
fn init_display_resets_waits_then_configures() {
    let mut driver = SpiHx1230Driver::new();
    init_display(&mut driver);
    let ops = drain(&mut driver);
    assert_eq!(ops.len(), 3 + 1 + 6);
    assert_eq!(&ops[0..3], &framed(&[0x71, 0x00])[..]);
    assert_eq!(ops[3], BusOp::DelayUs(100));
    // ten configuration commands go in two blocks: eight, then two
    match (&ops[5], &ops[8]) {
        (BusOp::Write(first), BusOp::Write(second)) => {
            assert_eq!(first.len(), 9);
            assert_eq!(second.len(), 3);
            // 0_00101111 -> 00010111 1...
            assert_eq!(first[0], 0x17);
        }
        _ => panic!("expected two writes"),
    }
}

#[test]
fn init_sequence_goes_out_as_commands() {
    let mut driver = SpiHx1230Driver::new();
    driver.init_sequence();
    assert_eq!(drain(&mut driver).len(), 6);
}

#[test]
fn trait_methods_queue_like_the_driver() {
    let mut a = SpiHx1230Driver::new();
    let mut b = SpiHx1230Driver::new();
    Hx1230Driver::data(&mut a, &[1, 2, 3]);
    b.send_data(&[1, 2, 3]);
    assert_eq!(drain(&mut a), drain(&mut b));
    Hx1230Driver::commands(&mut a, &[0xAF, 0xA6]);
    b.send_commands(&[0xAF, 0xA6]);
    assert_eq!(drain(&mut a), drain(&mut b));
    Hx1230Driver::command(&mut a, 0xAF);
    b.command(0xAF);
    assert_eq!(drain(&mut a), drain(&mut b));
}

#[test]
fn render_sends_cursor_reset_then_every_line() {
    let mut buffer: ArrayDisplayBuffer<96, 9> = ArrayDisplayBuffer::new();
    clear(&mut buffer, 0x00);
    buffer.set_pixel(0, 0, true);
    assert_eq!(buffer.get(0, 0), Some(0x01));
    let mut driver = SpiHx1230Driver::new();
    driver.send_buffer(&buffer);
    let ops = drain(&mut driver);
    // two command blocks for the cursor, then 9 lines of 96 bytes, 12 blocks each
    assert_eq!(ops.len(), 6 + 9 * 12 * 3);
    let mut reset = framed(&[0x00, 0x04, 0x00]);
    reset.extend(framed(&[0x58, 0x00]));
    assert_eq!(&ops[0..6], &reset[..]);
    let payload: usize = ops[6..]
        .iter()
        .map(|op| match op {
            BusOp::Write(bytes) => bytes.len() - 1,
            _ => 0,
        })
        .sum();
    assert_eq!(payload, 9 * 96);
    // first data block: 1_00000001 then eight zero words
    assert_eq!(
        ops[7],
        BusOp::Write(vec![0x80, 0xC0, 0x20, 0x10, 0x08, 0x04, 0x02, 0x01, 0x00])
    );
}
