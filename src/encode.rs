//! Packing of 9-bit words onto an 8-bit bus.
//!
//! The controller reads a stream of 9-bit words, most significant bit first:
//! a flag bit (0 = command, 1 = data) followed by the eight payload bits. Up to
//! eight words fill at most 72 bits, that is nine bytes.
use vstd::arithmetic::div_mod::lemma_fundamental_div_mod_converse;
use vstd::prelude::*;

verus! {

/// Number of bus bytes that carry `len` words (for `len <= 8`): nothing for
/// no words, otherwise one byte more than there are words.
pub open spec fn encoded_len(len: nat) -> nat {
    if len == 0 {
        0
    } else {
        len + 1
    }
}

/// Byte `j` of the packed block: the flag of word `j` at bit `7 - j`, the high
/// `7 - j` payload bits of word `j` below it, and above it the low `j` payload
/// bits of word `j - 1`, which spilled over from the previous byte.
pub open spec fn encoded_byte(data: Seq<u8>, bit: u8, j: int) -> u8 {
    let head: u8 = if 0 <= j < data.len() {
        (bit << ((7 - j) as u8)) | (data[j] >> ((j + 1) as u8))
    } else {
        0
    };
    let tail: u8 = if 0 < j <= data.len() {
        data[j - 1] << ((8 - j) as u8)
    } else {
        0
    };
    head | tail
}

/// Bit `p` of the word stream that carries `data` with the flag `bit`,
/// counted from the first bit sent: each word is its flag followed by its
/// payload from the most significant bit down; past the last word, zero.
pub open spec fn word_stream_bit(data: Seq<u8>, bit: u8, p: int) -> u8 {
    if 0 <= p < 9 * data.len() {
        if p % 9 == 0 {
            bit
        } else {
            (data[p / 9] >> ((8 - p % 9) as u8)) & 1
        }
    } else {
        0
    }
}

/// Bit `b` of the byte `x` in the order of sending: 0 is the most
/// significant bit.
pub open spec fn sent_bit(x: u8, b: int) -> u8 {
    (x >> ((7 - b) as u8)) & 1
}

proof fn lemma_head_bits(bit: u8, x: u8, j: u8, b: u8)
    requires
        bit <= 1,
        j < 8,
        b < 8,
    ensures
        b == j ==> (((bit << ((7 - j) as u8)) | (x >> ((j + 1) as u8))) >> ((7 - b) as u8)) & 1
            == bit,
        j < b ==> (((bit << ((7 - j) as u8)) | (x >> ((j + 1) as u8))) >> ((7 - b) as u8)) & 1
            == (x >> ((8 - (b - j)) as u8)) & 1,
        b < j ==> (((bit << ((7 - j) as u8)) | (x >> ((j + 1) as u8))) >> ((7 - b) as u8)) & 1
            == 0,
{
    assert(b == j && bit <= 1 && j < 8 ==> (((bit << ((7 - j) as u8)) | (x >> ((j + 1) as u8)))
        >> ((7 - b) as u8)) & 1 == bit) by (bit_vector);
    assert(j < b && b < 8 ==> (((bit << ((7 - j) as u8)) | (x >> ((j + 1) as u8))) >> ((7 - b) as u8))
        & 1 == (x >> ((8 - (b - j)) as u8)) & 1) by (bit_vector);
    assert(b < j && j < 8 && bit <= 1 ==> (((bit << ((7 - j) as u8)) | (x >> ((j + 1) as u8))) >> ((7
        - b) as u8)) & 1 == 0) by (bit_vector);
}

proof fn lemma_tail_bits(y: u8, j: u8, b: u8)
    requires
        1 <= j <= 8,
        b < 8,
    ensures
        b < j ==> ((y << ((8 - j) as u8)) >> ((7 - b) as u8)) & 1 == (y >> ((8 - (9 + b - j)) as u8))
            & 1,
        j <= b ==> ((y << ((8 - j) as u8)) >> ((7 - b) as u8)) & 1 == 0,
{
    assert(1 <= j && j <= 8 && b < j ==> ((y << ((8 - j) as u8)) >> ((7 - b) as u8)) & 1 == (y >> ((8
        - (9 + b - j)) as u8)) & 1) by (bit_vector);
    assert(j <= b && b < 8 ==> ((y << ((8 - j) as u8)) >> ((7 - b) as u8)) & 1 == 0) by (bit_vector);
}

proof fn lemma_or_bit(a: u8, c: u8, k: u8)
    ensures
        ((a | c) >> k) & 1 == ((a >> k) & 1) | ((c >> k) & 1),
        ((a >> k) & 1) | 0u8 == (a >> k) & 1,
        0u8 | ((c >> k) & 1) == (c >> k) & 1,
{
    assert(((a | c) >> k) & 1 == ((a >> k) & 1) | ((c >> k) & 1)) by (bit_vector);
    assert(((a >> k) & 1) | 0u8 == (a >> k) & 1) by (bit_vector);
    assert(0u8 | ((c >> k) & 1) == (c >> k) & 1) by (bit_vector);
}

/// Read bit by bit in the order of sending, a packed block is exactly the
/// word stream: bit `b` of byte `j` is bit `8 * j + b` of the stream. So the
/// flag of word `i` sits at bit `7 - i` of byte `i`, and the payload of word
/// `i` follows it, spilling into byte `i + 1`.
pub proof fn lemma_block_is_word_stream(data: Seq<u8>, bit: u8, j: int, b: int)
    requires
        data.len() <= 8,
        bit <= 1,
        0 <= j < encoded_len(data.len()),
        0 <= b < 8,
    ensures
        sent_bit(encoded_byte(data, bit, j), b) == word_stream_bit(data, bit, 8 * j + b),
{
    let len = data.len() as int;
    let p = 8 * j + b;
    let head: u8 = if 0 <= j < len {
        (bit << ((7 - j) as u8)) | (data[j] >> ((j + 1) as u8))
    } else {
        0
    };
    let tail: u8 = if 0 < j <= len {
        data[j - 1] << ((8 - j) as u8)
    } else {
        0
    };
    let k = (7 - b) as u8;
    lemma_or_bit(head, tail, k);
    assert((0u8 >> k) & 1 == 0u8) by (bit_vector);
    if j < len {
        lemma_head_bits(bit, data[j], j as u8, b as u8);
    }
    if 0 < j {
        lemma_tail_bits(data[j - 1], j as u8, b as u8);
    }
    if j <= b {
        lemma_fundamental_div_mod_converse(p, 9, j, b - j);
    } else {
        lemma_fundamental_div_mod_converse(p, 9, j - 1, 9 + b - j);
    }
}

proof fn lemma_or_facts(x: u8, y: u8, z: u8, d: u8)
    ensures
        (z | x) | y == (x | y) | z,
        0u8 | x == x,
        (x << 0u8) | (d >> 8u8) | z == z | x,
        0u8 | (d << 0u8) == d,
{
    assert((z | x) | y == (x | y) | z) by (bit_vector);
    assert(0u8 | x == x) by (bit_vector);
    assert((x << 0u8) | (d >> 8u8) | z == z | x) by (bit_vector);
    assert(0u8 | (d << 0u8) == d) by (bit_vector);
}

/// Packs `data` (at most eight bytes) as 9-bit words that all carry the flag
/// `bit` into `output`, and returns how many bytes of `output` the block
/// occupies. Bytes of `output` past the block are left as they were.
pub fn encode_control_bit(data: &[u8], output: &mut [u8; 9], bit: u8) -> (r: usize)
    requires
        data@.len() <= 8,
    ensures
        r == encoded_len(data@.len() as nat),
        forall|j: int| 0 <= j < r ==> final(output)@[j] == encoded_byte(data@, bit, j),
        forall|j: int| r <= j < 9 ==> final(output)@[j] == old(output)@[j],
{
    let len = data.len();
    if len == 0 {
        return 0;
    }
    // payload bits of the previous word that spill into the current byte
    let mut carry: u8 = 0;
    let mut shift: usize = 0;
    while shift < len
        invariant
            len == data@.len(),
            1 <= len <= 8,
            shift <= len,
            shift == 0 ==> carry == 0,
            0 < shift < 8 ==> carry == data@[shift - 1] << ((8 - shift) as u8),
            forall|j: int| 0 <= j < shift ==> output@[j] == encoded_byte(data@, bit, j),
            forall|j: int| shift + 1 <= j < 9 ==> output@[j] == old(output)@[j],
            shift == 8 ==> output@[8] == encoded_byte(data@, bit, 8),
        decreases len - shift,
    {
        let s: u8 = shift as u8;
        let d = data[shift];
        proof {
            lemma_or_facts(bit << (7 - s), d >> (s + 1), carry, d);
        }
        if shift == 7 {
            proof {
                lemma_or_facts(bit, d, carry, d);
            }
            output[7] = carry | bit;
            output[8] = d;
        } else {
            output[shift] = carry | (bit << (7 - s)) | (d >> (s + 1));
            carry = d << (7 - s);
        }
        shift = shift + 1;
    }
    if len < 8 {
        proof {
            lemma_or_facts(carry, carry, carry, carry);
        }
        output[len] = carry;
    }
    len + 1
}

} // verus!
