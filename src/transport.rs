//! Chip-select framing of transfers, as a queue of bus operations.
//!
//! The driver decides what goes on the wire; the caller owns the bus, the
//! chip-select pin and the delay source, carries out each operation that
//! `next_step` hands out, and reports back how it went.
use crate::buffer::DisplayBuffer;
use crate::command;
use crate::encode::{encode_control_bit, encoded_byte, encoded_len};
use std::collections::VecDeque;
use vstd::prelude::*;
use vstd::slice::slice_subrange;

verus! {

/// Failure of a bus write or of a chip-select toggle. The cause is not told
/// apart: it is passed up as it came.
#[derive(Clone, Copy, Debug, PartialEq, Eq, Structural)]
pub struct BusError;

/// One operation on the hardware.
#[derive(Debug, PartialEq, Eq)]
pub enum BusOp {
    /// Drive chip-select low: a block starts.
    Select,
    /// Write these bytes on the bus.
    Write(Vec<u8>),
    /// Drive chip-select high: the block ends and the controller resets its
    /// bit counter.
    Deselect,
    /// Wait this many microseconds.
    DelayUs(u16),
}

/// What a [`BusOp`] does, with the bytes of a write as a sequence.
pub enum WireOp {
    Select,
    Write(Seq<u8>),
    Deselect,
    DelayUs(u16),
}

impl View for BusOp {
    type V = WireOp;

    open spec fn view(&self) -> WireOp {
        match self {
            BusOp::Select => WireOp::Select,
            BusOp::Write(bytes) => WireOp::Write(bytes@),
            BusOp::Deselect => WireOp::Deselect,
            BusOp::DelayUs(us) => WireOp::DelayUs(*us),
        }
    }
}

/// The flag bit of every word in a transfer: 0 for commands, 1 for data.
pub open spec fn flag(is_command: bool) -> u8 {
    if is_command {
        0
    } else {
        1
    }
}

/// The bus bytes that carry `block` (at most eight bytes) with flag `bit`.
pub open spec fn packed(block: Seq<u8>, bit: u8) -> Seq<u8> {
    Seq::new(encoded_len(block.len()), |j: int| encoded_byte(block, bit, j))
}

/// One framed block: select, write the packed block, deselect.
pub open spec fn block_ops(block: Seq<u8>, is_command: bool) -> Seq<WireOp> {
    seq![WireOp::Select, WireOp::Write(packed(block, flag(is_command))), WireOp::Deselect]
}

/// Number of blocks of at most eight bytes that `len` bytes are cut into.
pub open spec fn block_count(len: nat) -> nat {
    (len + 7) / 8
}

/// Block `k` of `data`: bytes `8k` up to `8k + 8`, or up to the end.
pub open spec fn block_of(data: Seq<u8>, k: int) -> Seq<u8> {
    data.subrange(8 * k, if 8 * k + 8 <= data.len() { 8 * k + 8 } else { data.len() as int })
}

/// The framed blocks `0 .. k` of `data`, in order.
pub open spec fn blocks_ops(data: Seq<u8>, is_command: bool, k: nat) -> Seq<WireOp>
    decreases k,
{
    if k == 0 {
        Seq::empty()
    } else {
        blocks_ops(data, is_command, (k - 1) as nat) + block_ops(
            block_of(data, k - 1),
            is_command,
        )
    }
}

/// Sending `data`: every block of it, framed, in input order.
pub open spec fn send_ops(data: Seq<u8>, is_command: bool) -> Seq<WireOp> {
    blocks_ops(data, is_command, block_count(data.len()))
}

/// Moving the write cursor to `column`: one block with the two column
/// commands.
pub open spec fn set_column_ops(column: u8) -> Seq<WireOp> {
    block_ops(seq![command::set_column_low(column), command::set_column_high(column)], true)
}

/// Moving the write cursor to column 0 of page 0: the column block, then the
/// page command in a block of its own.
pub open spec fn reset_position_ops() -> Seq<WireOp> {
    set_column_ops(0) + block_ops(seq![command::set_page(0)], true)
}

/// `ops`, `n` times over.
pub open spec fn repeat_ops(ops: Seq<WireOp>, n: nat) -> Seq<WireOp>
    decreases n,
{
    if n == 0 {
        Seq::empty()
    } else {
        repeat_ops(ops, (n - 1) as nat) + ops
    }
}

/// Number of 8-byte blocks of zeros that cover the controller's whole display
/// RAM.
pub const RAM_BLOCKS: usize = 108;

/// Settle time after a software reset, in microseconds.
pub const RESET_DELAY_US: u16 = 100;

/// Bringing the controller up: software reset, the settle delay, then the
/// configuration commands.
pub open spec fn init_display_ops() -> Seq<WireOp> {
    block_ops(seq![command::reset()], true) + seq![WireOp::DelayUs(RESET_DELAY_US)] + send_ops(
        command::init_sequence_spec(),
        true,
    )
}

/// Sending `data` is a run of framed blocks: operations `3k`, `3k + 1` and
/// `3k + 2` select, write block `k` of `data` packed, and deselect, and there
/// is nothing else. In particular empty input puts nothing on the bus.
pub proof fn lemma_send_is_framed_blocks(data: Seq<u8>, is_command: bool, k: int)
    requires
        0 <= k < block_count(data.len()),
    ensures
        send_ops(data, is_command).len() == 3 * block_count(data.len()),
        send_ops(data, is_command)[3 * k] == WireOp::Select,
        send_ops(data, is_command)[3 * k + 1] == WireOp::Write(
            packed(block_of(data, k), flag(is_command)),
        ),
        send_ops(data, is_command)[3 * k + 2] == WireOp::Deselect,
        1 <= block_of(data, k).len() <= 8,
{
    lemma_blocks_ops_shape(data, is_command, block_count(data.len()), k);
}

/// Sending one to eight bytes is a single framed block, so sending one
/// command is exactly what [`SpiHx1230Driver::command`] queues.
pub proof fn lemma_short_send_is_one_block(data: Seq<u8>, is_command: bool)
    requires
        1 <= data.len() <= 8,
    ensures
        send_ops(data, is_command) == block_ops(data, is_command),
{
    assert(block_count(data.len()) == 1);
    assert(block_of(data, 0) =~= data);
    assert(blocks_ops(data, is_command, 1) == blocks_ops(data, is_command, 0) + block_ops(
        block_of(data, 0),
        is_command,
    ));
    assert(blocks_ops(data, is_command, 1) =~= block_ops(data, is_command));
}

proof fn lemma_blocks_ops_len(data: Seq<u8>, is_command: bool, n: nat)
    ensures
        blocks_ops(data, is_command, n).len() == 3 * n,
    decreases n,
{
    if n > 0 {
        lemma_blocks_ops_len(data, is_command, (n - 1) as nat);
    }
}

proof fn lemma_blocks_ops_shape(data: Seq<u8>, is_command: bool, n: nat, k: int)
    requires
        0 <= k < n,
        n <= block_count(data.len()),
    ensures
        blocks_ops(data, is_command, n).len() == 3 * n,
        blocks_ops(data, is_command, n)[3 * k] == WireOp::Select,
        blocks_ops(data, is_command, n)[3 * k + 1] == WireOp::Write(
            packed(block_of(data, k), flag(is_command)),
        ),
        blocks_ops(data, is_command, n)[3 * k + 2] == WireOp::Deselect,
        1 <= block_of(data, k).len() <= 8,
    decreases n,
{
    lemma_blocks_ops_len(data, is_command, n);
    lemma_blocks_ops_len(data, is_command, (n - 1) as nat);
    if k < n - 1 {
        lemma_blocks_ops_shape(data, is_command, (n - 1) as nat, k);
    }
    assert(8 * k + 8 <= data.len() + 7);
}

/// Pixel data of `lines[0 .. n]`, one transfer per line, top line first.
pub open spec fn lines_ops(lines: Seq<Seq<u8>>, n: nat) -> Seq<WireOp>
    decreases n,
{
    if n == 0 {
        Seq::empty()
    } else {
        lines_ops(lines, (n - 1) as nat) + send_ops(lines[n - 1], false)
    }
}

/// What the driver hands to the caller next.
#[derive(Debug, PartialEq, Eq)]
pub enum Step {
    /// Carry out this operation, then report how it went.
    Perform(BusOp),
    /// Nothing is left to do.
    Idle,
    /// An operation failed; what was still queued has been dropped.
    Failed(BusError),
}

/// Driver for the controller on an 8-bit serial bus with a chip-select line.
///
/// It is cheap to make, so one can be made for each transfer and dropped
/// after it. Each call appends bus operations to a queue; the caller drains
/// the queue with `next_step`.
pub struct SpiHx1230Driver {
    pending: VecDeque<BusOp>,
}

impl SpiHx1230Driver {
    /// The operations queued and not yet handed out, in order.
    pub closed spec fn queue(&self) -> Seq<WireOp> {
        self.pending@.map_values(|op: BusOp| op@)
    }

    proof fn lemma_queue_push(&self, old_pending: Seq<BusOp>, op: BusOp)
        requires
            self.pending@ == old_pending.push(op),
        ensures
            self.queue() == old_pending.map_values(|op: BusOp| op@).push(op@),
    {
        assert(self.pending@.map_values(|op: BusOp| op@) =~= old_pending.map_values(
            |op: BusOp| op@,
        ).push(op@));
    }

    /// A driver with nothing queued.
    pub fn new() -> (r: Self)
        ensures
            r.queue() == Seq::<WireOp>::empty(),
    {
        let r = SpiHx1230Driver { pending: VecDeque::new() };
        assert(r.queue() =~= Seq::<WireOp>::empty());
        r
    }

    fn push(&mut self, op: BusOp)
        ensures
            final(self).queue() == old(self).queue().push(op@),
    {
        let ghost old_pending = self.pending@;
        self.pending.push_back(op);
        proof {
            self.lemma_queue_push(old_pending, op);
        }
    }

    /// Queues one block of one to eight bytes: select, write the packed
    /// block, deselect.
    fn transmit_block(&mut self, data: &[u8], is_command: bool)
        requires
            1 <= data@.len() <= 8,
        ensures
            final(self).queue() == old(self).queue() + block_ops(data@, is_command),
    {
        let bit: u8 = if is_command {
            0
        } else {
            1
        };
        let mut buffer = [0u8;9];
        let n = encode_control_bit(data, &mut buffer, bit);
        let mut bytes: Vec<u8> = Vec::new();
        let mut i: usize = 0;
        while i < n
            invariant
                n == encoded_len(data@.len() as nat),
                n <= 9,
                i <= n,
                bytes@.len() == i,
                forall|j: int| 0 <= j < n ==> buffer@[j] == encoded_byte(data@, bit, j),
                forall|j: int| 0 <= j < i ==> bytes@[j] == encoded_byte(data@, bit, j),
            decreases n - i,
        {
            bytes.push(buffer[i]);
            i = i + 1;
        }
        assert(bytes@ =~= packed(data@, flag(is_command)));
        self.push(BusOp::Select);
        self.push(BusOp::Write(bytes));
        self.push(BusOp::Deselect);
        assert(final(self).queue() =~= old(self).queue() + block_ops(data@, is_command));
    }

    /// Queues `data` cut into blocks of at most eight bytes, each framed by
    /// chip-select, in input order. Nothing is queued for empty input.
    fn transmit(&mut self, data: &[u8], is_command: bool)
        ensures
            final(self).queue() == old(self).queue() + send_ops(data@, is_command),
    {
        let len = data.len();
        let max: usize = len / 8 + if len % 8 > 0 {
            1
        } else {
            0
        };
        assert(max == block_count(len as nat));
        let mut block_id: usize = 0;
        while block_id < max
            invariant
                len == data@.len(),
                max == block_count(len as nat),
                block_id <= max,
                self.queue() == old(self).queue() + blocks_ops(
                    data@,
                    is_command,
                    block_id as nat,
                ),
            decreases max - block_id,
        {
            let start = block_id * 8;
            let end = if len - start >= 8 {
                start + 8
            } else {
                len
            };
            let block = slice_subrange(data, start, end);
            self.transmit_block(block, is_command);
            assert(self.queue() =~= old(self).queue() + blocks_ops(
                data@,
                is_command,
                (block_id + 1) as nat,
            ));
            block_id = block_id + 1;
        }
    }

    /// Hands out the next operation, given how the previous one went (pass
    /// `Ok(())` before the first). A failure drops everything still queued and
    /// is passed up as it came.
    pub fn next_step(&mut self, outcome: Result<(), BusError>) -> (r: Step)
        ensures
            match outcome {
                Err(e) => r == Step::Failed(e) && final(self).queue() == Seq::<WireOp>::empty(),
                Ok(_) => if old(self).queue().len() == 0 {
                    r == Step::Idle && final(self).queue() == old(self).queue()
                } else {
                    &&& r matches Step::Perform(op) && op@ == old(self).queue()[0]
                    &&& final(self).queue() == old(self).queue().drop_first()
                },
            },
    {
        match outcome {
            Err(e) => {
                self.pending.clear();
                assert(self.queue() =~= Seq::<WireOp>::empty());
                Step::Failed(e)
            },
            Ok(_) => {
                match self.pending.pop_front() {
                    Some(op) => {
                        assert(self.queue() =~= old(self).queue().drop_first());
                        Step::Perform(op)
                    },
                    None => Step::Idle,
                }
            },
        }
    }

    /// Queues a single command in a block of its own.
    pub fn command(&mut self, command: u8)
        ensures
            final(self).queue() == old(self).queue() + block_ops(seq![command], true),
    {
        let block = [command];
        assert(block@ =~= seq![command]);
        self.transmit_block(&block, true)
    }

    /// Queues the configuration commands of [`command::init_sequence`].
    pub fn init_sequence(&mut self)
        ensures
            final(self).queue() == old(self).queue() + send_ops(command::init_sequence_spec(), true),
    {
        let commands = command::init_sequence();
        self.transmit(&commands, true)
    }

    /// Queues the contrast command (0 - 31, taken modulo 32).
    pub fn set_contrast(&mut self, value: u8)
        ensures
            final(self).queue() == old(self).queue() + block_ops(
                seq![command::set_contrast(value)],
                true,
            ),
    {
        self.command(command::set_contrast(value))
    }

    /// Queues the start line command (0 - 63, taken modulo 64).
    pub fn set_line(&mut self, value: u8)
        ensures
            final(self).queue() == old(self).queue() + block_ops(seq![command::set_line(value)], true),
    {
        self.command(command::set_line(value))
    }

    /// Queues the command that turns the display test (all pixels on) on or
    /// off.
    pub fn set_display_test(&mut self, value: bool)
        ensures
            final(self).queue() == old(self).queue() + block_ops(
                seq![
                    if value {
                        command::display_test_on()
                    } else {
                        command::display_test_off()
                    },
                ],
                true,
            ),
    {
        if value {
            self.command(command::display_test_on())
        } else {
            self.command(command::display_test_off())
        }
    }

    /// Queues the move of the write cursor to `column`.
    pub fn set_column(&mut self, column: u8)
        ensures
            final(self).queue() == old(self).queue() + set_column_ops(column),
    {
        let block = [command::set_column_low(column), command::set_column_high(column)];
        assert(block@ =~= seq![command::set_column_low(column), command::set_column_high(column)]);
        self.transmit_block(&block, true)
    }

    /// Queues the move of the write cursor to column 0 of page 0.
    pub fn reset_position(&mut self)
        ensures
            final(self).queue() == old(self).queue() + reset_position_ops(),
    {
        self.set_column(0);
        self.command(command::set_page(0));
        assert(final(self).queue() =~= old(self).queue() + reset_position_ops());
    }

    /// Queues the blanking of the whole display RAM: cursor to the origin,
    /// zeros over every page, cursor back to the origin.
    pub fn clear_data(&mut self)
        ensures
            final(self).queue() == old(self).queue() + reset_position_ops() + repeat_ops(
                send_ops(seq![0u8, 0, 0, 0, 0, 0, 0, 0], false),
                RAM_BLOCKS as nat,
            ) + reset_position_ops(),
    {
        let zeros = [0u8;8];
        assert(zeros@ =~= seq![0u8, 0, 0, 0, 0, 0, 0, 0]);
        let ghost blank = send_ops(seq![0u8, 0, 0, 0, 0, 0, 0, 0], false);
        self.reset_position();
        let ghost start = self.queue();
        let mut i: usize = 0;
        while i < RAM_BLOCKS
            invariant
                i <= RAM_BLOCKS,
                zeros@ == seq![0u8, 0, 0, 0, 0, 0, 0, 0],
                blank == send_ops(seq![0u8, 0, 0, 0, 0, 0, 0, 0], false),
                self.queue() == start + repeat_ops(blank, i as nat),
            decreases RAM_BLOCKS - i,
        {
            self.send_data(&zeros);
            assert(self.queue() =~= start + repeat_ops(blank, (i + 1) as nat));
            i = i + 1;
        }
        self.reset_position();
        assert(final(self).queue() =~= old(self).queue() + reset_position_ops() + repeat_ops(
            blank,
            RAM_BLOCKS as nat,
        ) + reset_position_ops());
    }

    /// Queues the whole of `buffer` for display: the cursor moves to column 0
    /// of page 0, then every line goes out as pixel data, top line first, as
    /// the controller moves to the next page by itself.
    pub fn send_buffer<B: DisplayBuffer>(&mut self, buffer: &B)
        ensures
            final(self).queue() == old(self).queue() + reset_position_ops() + lines_ops(
                buffer.lines(),
                buffer.lines().len(),
            ),
    {
        self.reset_position();
        let ghost start = self.queue();
        let count = buffer.line_count();
        let mut line_id: usize = 0;
        while line_id < count
            invariant
                count == buffer.lines().len(),
                line_id <= count,
                self.queue() == start + lines_ops(buffer.lines(), line_id as nat),
            decreases count - line_id,
        {
            if let Some(line) = buffer.get_line(line_id) {
                self.send_data(line);
            }
            assert(self.queue() =~= start + lines_ops(buffer.lines(), (line_id + 1) as nat));
            line_id = line_id + 1;
        }
    }

    /// Queues `data` as pixel data.
    pub fn send_data(&mut self, data: &[u8])
        ensures
            final(self).queue() == old(self).queue() + send_ops(data@, false),
    {
        self.transmit(data, false)
    }

    /// Queues `commands` as commands.
    pub fn send_commands(&mut self, commands: &[u8])
        ensures
            final(self).queue() == old(self).queue() + send_ops(commands@, true),
    {
        self.transmit(commands, true)
    }
}

/// Queues the bring-up of the controller: software reset, the settle delay,
/// then the configuration commands.
pub fn init_display(display: &mut SpiHx1230Driver)
    ensures
        final(display).queue() == old(display).queue() + init_display_ops(),
{
    display.command(command::reset());
    display.push(BusOp::DelayUs(RESET_DELAY_US));
    display.init_sequence();
    assert(final(display).queue() =~= old(display).queue() + init_display_ops());
}

/// A display driver: something that takes pixel data and commands for the
/// controller.
pub trait Hx1230Driver {
    /// What has been handed to the driver and is still to go on the bus.
    spec fn sent(&self) -> Seq<WireOp>;

    /// Sends pixel data.
    fn data(&mut self, data: &[u8])
        ensures
            final(self).sent() == old(self).sent() + send_ops(data@, false),
    ;

    /// Sends commands.
    fn commands(&mut self, commands: &[u8])
        ensures
            final(self).sent() == old(self).sent() + send_ops(commands@, true),
    ;

    /// Sends a single command.
    fn command(&mut self, command: u8)
        ensures
            final(self).sent() == old(self).sent() + send_ops(seq![command], true),
    {
        let commands = [command];
        assert(commands@ =~= seq![command]);
        self.commands(&commands)
    }
}

impl Hx1230Driver for SpiHx1230Driver {
    open spec fn sent(&self) -> Seq<WireOp> {
        self.queue()
    }

    fn data(&mut self, data: &[u8]) {
        self.transmit(data, false)
    }

    fn commands(&mut self, commands: &[u8]) {
        self.transmit(commands, true)
    }
}

} // verus!
