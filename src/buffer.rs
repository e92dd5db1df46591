//! In-memory frame buffer.
//!
//! A buffer is `H` lines of `W` bytes. A line is one page of the display:
//! each byte holds eight vertically stacked pixels, bit 0 on top.
use vstd::prelude::*;

verus! {

/// A buffer of display lines, each `width` bytes long.
pub trait DisplayBuffer {
    /// The lines, top to bottom.
    spec fn lines(&self) -> Seq<Seq<u8>>;

    /// Length of every line, in bytes (one byte per pixel column).
    fn width(&self) -> (r: usize)
        ensures
            forall|y: int| 0 <= y < self.lines().len() ==> #[trigger] self.lines()[y].len() == r,
    ;

    /// Number of lines.
    fn line_count(&self) -> (r: usize)
        ensures
            r == self.lines().len(),
    ;

    /// Line `y`, if there is one.
    fn get_line(&self, y: usize) -> (r: Option<&[u8]>)
        ensures
            y < self.lines().len() ==> r is Some && r->0@ == self.lines()[y as int],
            y >= self.lines().len() ==> r is None,
    ;

    /// Line `y` for writing, if there is one. What is written through it
    /// becomes line `y`; the other lines stay as they are.
    fn get_line_mut(&mut self, y: usize) -> (r: Option<&mut [u8]>)
        ensures
            y < old(self).lines().len() ==> r is Some && (*r->0)@ == old(self).lines()[y as int]
                && final(self).lines() == old(self).lines().update(y as int, (*final(r->0))@),
            y >= old(self).lines().len() ==> r is None && final(self).lines() == old(
                self,
            ).lines(),
    ;
}

/// `len` copies of `value`.
pub open spec fn filled(len: nat, value: u8) -> Seq<u8> {
    Seq::new(len, |i: int| value)
}

/// A line of `len` bytes that repeats `pattern` from its first byte on.
pub open spec fn patterned(len: nat, pattern: Seq<u8>) -> Seq<u8> {
    Seq::new(len, |i: int| pattern[i % (pattern.len() as int)])
}

/// A one-byte pattern fills a line of any width with that byte.
pub proof fn lemma_single_byte_pattern(len: nat, b: u8)
    ensures
        patterned(len, seq![b]) == filled(len, b),
{
    assert(patterned(len, seq![b]) =~= filled(len, b));
}

/// Sets every byte of every line of `buf` to `value`.
pub fn clear<B: DisplayBuffer>(buf: &mut B, value: u8)
    ensures
        final(buf).lines().len() == old(buf).lines().len(),
        forall|y: int|
            0 <= y < old(buf).lines().len() ==> #[trigger] final(buf).lines()[y] == filled(
                old(buf).lines()[y].len(),
                value,
            ),
{
    let count = buf.line_count();
    let mut line_id: usize = 0;
    while line_id < count
        invariant
            count == old(buf).lines().len(),
            line_id <= count,
            buf.lines().len() == count,
            forall|y: int| 0 <= y < count ==> #[trigger] buf.lines()[y].len() == old(buf).lines()[y].len(),
            forall|y: int|
                0 <= y < line_id ==> #[trigger] buf.lines()[y] == filled(
                    old(buf).lines()[y].len(),
                    value,
                ),
        decreases count - line_id,
    {
        if let Some(line) = buf.get_line_mut(line_id) {
            line_clear(line, value);
        }
        line_id = line_id + 1;
    }
}

/// Sets byte `col` of every line of `buf` to `pattern[col % pattern.len()]`,
/// which repeats the pattern across the whole width.
pub fn clear_pattern<B: DisplayBuffer>(buf: &mut B, pattern: &[u8])
    requires
        pattern@.len() > 0,
    ensures
        final(buf).lines().len() == old(buf).lines().len(),
        forall|y: int|
            0 <= y < old(buf).lines().len() ==> #[trigger] final(buf).lines()[y] == patterned(
                old(buf).lines()[y].len(),
                pattern@,
            ),
{
    let count = buf.line_count();
    let mut line_id: usize = 0;
    while line_id < count
        invariant
            pattern@.len() > 0,
            count == old(buf).lines().len(),
            line_id <= count,
            buf.lines().len() == count,
            forall|y: int| 0 <= y < count ==> #[trigger] buf.lines()[y].len() == old(buf).lines()[y].len(),
            forall|y: int|
                0 <= y < line_id ==> #[trigger] buf.lines()[y] == patterned(
                    old(buf).lines()[y].len(),
                    pattern@,
                ),
        decreases count - line_id,
    {
        if let Some(line) = buf.get_line_mut(line_id) {
            line_set_pattern(line, pattern);
        }
        line_id = line_id + 1;
    }
}

/// Sets every byte of `pixels` to `value`.
fn line_clear(pixels: &mut [u8], value: u8)
    ensures
        final(pixels)@ == filled(old(pixels)@.len(), value),
{
    let len = pixels.len();
    let mut i: usize = 0;
    while i < len
        invariant
            len == pixels@.len(),
            len == old(pixels)@.len(),
            i <= len,
            forall|j: int| 0 <= j < i ==> pixels@[j] == value,
        decreases len - i,
    {
        pixels[i] = value;
        i = i + 1;
    }
    assert(pixels@ =~= filled(len as nat, value));
}

/// Sets byte `i` of `pixels` to `pattern[i % pattern.len()]`.
fn line_set_pattern(pixels: &mut [u8], pattern: &[u8])
    requires
        pattern@.len() > 0,
    ensures
        final(pixels)@ == patterned(old(pixels)@.len(), pattern@),
{
    let len = pixels.len();
    let plen = pattern.len();
    let mut i: usize = 0;
    while i < len
        invariant
            len == pixels@.len(),
            len == old(pixels)@.len(),
            plen == pattern@.len(),
            plen > 0,
            i <= len,
            forall|j: int| 0 <= j < i ==> pixels@[j] == pattern@[j % plen as int],
        decreases len - i,
    {
        pixels[i] = pattern[i % plen];
        i = i + 1;
    }
    assert(pixels@ =~= patterned(len as nat, pattern@));
}

/// `byte` with bit `shift` set when `on`, cleared otherwise.
pub open spec fn with_bit(byte: u8, shift: u8, on: bool) -> u8 {
    if on {
        byte | (1u8 << shift)
    } else {
        byte & !(1u8 << shift)
    }
}

/// Display frame buffer: `W` pixel columns by `H` lines of 8 pixel rows.
pub struct ArrayDisplayBuffer<const W: usize, const H: usize> {
    pixels: [[u8; W]; H],
}

impl<const W: usize, const H: usize> View for ArrayDisplayBuffer<W, H> {
    type V = Seq<Seq<u8>>;

    /// The lines, top to bottom.
    closed spec fn view(&self) -> Seq<Seq<u8>> {
        self.pixels@.map_values(|row: [u8; W]| row@)
    }
}

impl<const W: usize, const H: usize> ArrayDisplayBuffer<W, H> {
    /// The buffer is `H` lines of `W` bytes.
    pub open spec fn well_formed(lines: Seq<Seq<u8>>) -> bool {
        &&& lines.len() == H
        &&& forall|y: int| 0 <= y < H ==> #[trigger] lines[y].len() == W
    }

    /// Every buffer of this type is `H` lines of `W` bytes.
    pub proof fn lemma_well_formed(&self)
        ensures
            Self::well_formed(self@),
    {
    }

    /// A buffer with every pixel off.
    pub fn new() -> (r: Self)
        ensures
            r@ == Seq::new(H as nat, |y: int| filled(W as nat, 0)),
    {
        let r = ArrayDisplayBuffer { pixels: [[0u8; W]; H] };
        assert(r@ =~~= Seq::new(H as nat, |y: int| filled(W as nat, 0)));
        r
    }

    /// The byte in column `x` of line `y`, if there is one.
    pub fn get(&self, x: usize, y: usize) -> (r: Option<u8>)
        ensures
            r == (if x < W && y < H {
                Some(self@[y as int][x as int])
            } else {
                None
            }),
    {
        if x < W && y < H {
            Some(self.pixels[y][x])
        } else {
            None
        }
    }

    /// Turns the pixel at column `x`, row `y` on or off: bit `y % 8` of the
    /// byte in column `x` of line `y / 8`. A pixel outside the buffer is
    /// ignored.
    pub fn set_pixel(&mut self, x: i32, y: i32, on: bool)
        ensures
            (0 <= x < W && 0 <= y && y / 8 < H) ==> final(self)@ == old(self)@.update(
                y / 8,
                old(self)@[y / 8].update(x as int, with_bit(old(self)@[y / 8][x as int], (y % 8) as u8, on)),
            ),
            !(0 <= x < W && 0 <= y && y / 8 < H) ==> final(self)@ == old(self)@,
    {
        if x >= 0 && (x as usize) < W && y >= 0 && (y as usize) / 8 < H {
            let line = (y as usize) / 8;
            let column = x as usize;
            let shift = ((y as usize) % 8) as u8;
            let byte = self.pixels[line][column];
            let bit: u8 = if on { 1 } else { 0 };
            let new_byte = byte & (!(1u8 << shift)) | (bit << shift);
            proof {
                assert(shift < 8 ==> (byte & (!(1u8 << shift)) | (1u8 << shift)) == (byte | (1u8 << shift))) by (bit_vector);
                assert(shift < 8 ==> (byte & (!(1u8 << shift)) | (0u8 << shift)) == (byte & !(1u8 << shift))) by (bit_vector);
            }
            self.pixels[line][column] = new_byte;
            assert(self@ =~~= old(self)@.update(
                y / 8,
                old(self)@[y / 8].update(x as int, with_bit(old(self)@[y / 8][x as int], (y % 8) as u8, on)),
            ));
        }
    }
}

impl<const W: usize, const H: usize> DisplayBuffer for ArrayDisplayBuffer<W, H> {
    open spec fn lines(&self) -> Seq<Seq<u8>> {
        self@
    }

    fn width(&self) -> (r: usize) {
        W
    }

    fn line_count(&self) -> (r: usize) {
        H
    }

    fn get_line(&self, y: usize) -> (r: Option<&[u8]>) {
        if y < H {
            Some(&self.pixels[y])
        } else {
            None
        }
    }

    fn get_line_mut(&mut self, y: usize) -> (r: Option<&mut [u8]>) {
        if y < H {
            Some(&mut self.pixels[y])
        } else {
            None
        }
    }
}

} // verus!
