//! Decoding of packed dot-matrix glyphs into pixel commands.
//!
//! A glyph is a byte buffer in column-major, split-band order: each byte
//! encodes one 8-pixel column slice of an 8-row band, least-significant bit
//! on top; 16 consecutive bytes form one band of 16 columns, and bands are
//! stacked vertically.

use vstd::prelude::*;

verus! {

/// Error returned when a glyph buffer cannot be decoded.
#[derive(Clone, Copy, Debug, PartialEq, Eq, Structural)]
pub enum GlyphError {
    /// The buffer's length is not a multiple of 16, so it does not describe
    /// a whole number of 16-column bands.
    InvalidGlyphLength,
}

/// A command to turn on the pixel at `(x, y)` of the draw surface.
#[derive(Clone, Copy, Debug, PartialEq, Eq, Structural)]
pub struct PixelCommand {
    /// Column of the pixel on the target surface.
    pub x: i32,
    /// Row of the pixel on the target surface.
    pub y: i32,
}

impl View for PixelCommand {
    type V = (int, int);

    open spec fn view(&self) -> (int, int) {
        (self.x as int, self.y as int)
    }
}

/// True when bit `i` (0 = least significant) of byte `b` is set.
pub open spec fn bit_set(b: u8, i: u8) -> bool {
    b & (1u8 << i) != 0
}

/// The 8 bits of one byte, least-significant first: the decoded column
/// slice, read top to bottom.
pub open spec fn bits_of(b: u8) -> Seq<bool> {
    Seq::new(8, |i: int| bit_set(b, i as u8))
}

/// The commands one byte contributes for its bits `0 .. n`: bit `i` maps to
/// row `block_top + i` of column `x`, and set bits are emitted in increasing
/// bit order (top of the band first).
pub open spec fn byte_pixels_up_to(b: u8, x: int, block_top: int, n: int) -> Seq<(int, int)>
    decreases n,
{
    if n <= 0 {
        Seq::empty()
    } else if bit_set(b, (n - 1) as u8) {
        byte_pixels_up_to(b, x, block_top, n - 1).push((x, block_top + n - 1))
    } else {
        byte_pixels_up_to(b, x, block_top, n - 1)
    }
}

/// The commands one byte contributes: one per set bit, walking the byte's
/// column slice top to bottom.
pub open spec fn byte_pixels(b: u8, x: int, block_top: int) -> Seq<(int, int)> {
    byte_pixels_up_to(b, x, block_top, 8)
}

/// Column offset of the byte at buffer position `j`: bytes fill a band left
/// to right, 16 columns per band.
pub open spec fn col_of(j: int) -> int {
    j % 16
}

/// Band index of the byte at buffer position `j`: every 16 bytes start a new
/// 8-row band below the previous one.
pub open spec fn band_of(j: int) -> int {
    j / 16
}

/// The commands of the first `n` bytes of a glyph placed at `(left, top)`,
/// in emission order: bytes in buffer order, bits of each byte bottom of the
/// band last.
pub open spec fn glyph_pixels_up_to(left: int, top: int, data: Seq<u8>, n: int) -> Seq<(int, int)>
    decreases n,
{
    if n <= 0 {
        Seq::empty()
    } else {
        glyph_pixels_up_to(left, top, data, n - 1) + byte_pixels(
            data[n - 1],
            left + col_of(n - 1),
            top + 8 * band_of(n - 1),
        )
    }
}

/// The full command sequence of a glyph placed at `(left, top)`: for each
/// byte `j`, bit `i` set means the pixel at column `left + j % 16`, row
/// `top + 8 * (j / 16) + i` is turned on.
pub open spec fn glyph_pixels(left: int, top: int, data: Seq<u8>) -> Seq<(int, int)> {
    glyph_pixels_up_to(left, top, data, data.len() as int)
}

/// The coordinates a sequence of pixel commands addresses, in order.
pub open spec fn commands_view(s: Seq<PixelCommand>) -> Seq<(int, int)> {
    s.map_values(|p: PixelCommand| p@)
}

/// The number of set bits among bits `0 .. n` of byte `b`.
pub open spec fn byte_bit_count_up_to(b: u8, n: int) -> int
    decreases n,
{
    if n <= 0 {
        0
    } else {
        byte_bit_count_up_to(b, n - 1) + (if bit_set(b, (n - 1) as u8) {
            1int
        } else {
            0int
        })
    }
}

/// The number of set bits of byte `b`.
pub open spec fn byte_bit_count(b: u8) -> int {
    byte_bit_count_up_to(b, 8)
}

/// The number of set bits across the first `n` bytes of a buffer.
pub open spec fn set_bit_count_up_to(data: Seq<u8>, n: int) -> int
    decreases n,
{
    if n <= 0 {
        0
    } else {
        set_bit_count_up_to(data, n - 1) + byte_bit_count(data[n - 1])
    }
}

/// The number of set bits across a whole buffer.
pub open spec fn set_bit_count(data: Seq<u8>) -> int {
    set_bit_count_up_to(data, data.len() as int)
}

proof fn lemma_byte_pixels_count(b: u8, x: int, bt: int, n: int)
    requires
        0 <= n,
    ensures
        byte_pixels_up_to(b, x, bt, n).len() == byte_bit_count_up_to(b, n),
        byte_bit_count_up_to(b, n) <= n,
    decreases n,
{
    if n > 0 {
        lemma_byte_pixels_count(b, x, bt, n - 1);
    }
}

proof fn lemma_glyph_pixels_count(left: int, top: int, data: Seq<u8>, n: int)
    requires
        0 <= n <= data.len(),
    ensures
        glyph_pixels_up_to(left, top, data, n).len() == set_bit_count_up_to(data, n),
        set_bit_count_up_to(data, n) <= 8 * n,
    decreases n,
{
    if n > 0 {
        lemma_glyph_pixels_count(left, top, data, n - 1);
        lemma_byte_pixels_count(data[n - 1], left + col_of(n - 1), top + 8 * band_of(n - 1), 8);
    }
}

/// Law: a glyph emits exactly one command per set bit of its buffer, and
/// never more than 8 commands per byte — so a 32-byte (16 by 16) glyph
/// emits at most 256 commands.
pub proof fn lemma_command_count(left: int, top: int, data: Seq<u8>)
    ensures
        glyph_pixels(left, top, data).len() == set_bit_count(data),
        set_bit_count(data) <= 8 * data.len(),
        data.len() == 32 ==> glyph_pixels(left, top, data).len() <= 256,
{
    lemma_glyph_pixels_count(left, top, data, data.len() as int);
}

/// Law: rendering is deterministic — the command sequence, including its
/// order, is a function of the placement and the glyph bytes alone, so two
/// renders of the same glyph at the same position emit identical,
/// order-equal sequences.
pub proof fn lemma_render_deterministic(
    left: int,
    top: int,
    data: Seq<u8>,
    r1: Seq<(int, int)>,
    r2: Seq<(int, int)>,
)
    requires
        r1 == glyph_pixels(left, top, data),
        r2 == glyph_pixels(left, top, data),
    ensures
        r1 == r2,
{
}

/// No bit of a zero byte is set.
proof fn lemma_zero_byte_no_bits()
    by (bit_vector)
    ensures
        forall|i: u8| 0u8 & (1u8 << i) == 0,
{
}

proof fn lemma_zero_byte_pixels(x: int, bt: int, n: int)
    requires
        0 <= n,
    ensures
        byte_pixels_up_to(0u8, x, bt, n) == Seq::<(int, int)>::empty(),
    decreases n,
{
    lemma_zero_byte_no_bits();
    if n > 0 {
        lemma_zero_byte_pixels(x, bt, n - 1);
    }
}

proof fn lemma_blank_up_to(left: int, top: int, data: Seq<u8>, n: int)
    requires
        0 <= n <= data.len(),
        forall|j: int| 0 <= j < data.len() ==> data[j] == 0,
    ensures
        glyph_pixels_up_to(left, top, data, n) == Seq::<(int, int)>::empty(),
    decreases n,
{
    if n > 0 {
        lemma_blank_up_to(left, top, data, n - 1);
        lemma_zero_byte_pixels(left + col_of(n - 1), top + 8 * band_of(n - 1), 8);
        assert(glyph_pixels_up_to(left, top, data, n) =~= Seq::<(int, int)>::empty());
    }
}

/// Law: a buffer of all-zero bytes, of any length that is a multiple of 16,
/// emits no commands.
pub proof fn lemma_blank_glyph_emits_nothing(left: int, top: int, data: Seq<u8>)
    requires
        data.len() % 16 == 0,
        forall|j: int| 0 <= j < data.len() ==> data[j] == 0,
    ensures
        glyph_pixels(left, top, data) == Seq::<(int, int)>::empty(),
{
    lemma_blank_up_to(left, top, data, data.len() as int);
}

/// Stepping to the next byte either moves one column right within the band,
/// or, after the sixteenth column, returns to the first column of the band
/// below.
proof fn lemma_cursor_advance(j: int)
    requires
        0 <= j,
    ensures
        j % 16 < 15 ==> col_of(j + 1) == col_of(j) + 1 && band_of(j + 1) == band_of(j),
        j % 16 == 15 ==> col_of(j + 1) == 0 && band_of(j + 1) == band_of(j) + 1,
{
}

/// For a buffer holding a whole number of bands, every byte's band starts at
/// least 8 rows above the glyph's bottom edge at row offset `n / 2`.
proof fn lemma_band_bound(j: int, n: int)
    by (nonlinear_arith)
    requires
        0 <= j < n,
        n % 16 == 0,
    ensures
        8 * band_of(j) + 8 <= n / 2,
{
}

/// A dot-matrix glyph: a packed byte buffer together with the pixel
/// coordinate of its top-left corner on the target surface.
pub struct Kanji<'a> {
    left: i32,
    top: i32,
    data: &'a [u8],
}

impl<'a> Kanji<'a> {
    /// Column of the glyph's top-left corner.
    pub closed spec fn spec_left(&self) -> int {
        self.left as int
    }

    /// Row of the glyph's top-left corner.
    pub closed spec fn spec_top(&self) -> int {
        self.top as int
    }

    /// The packed glyph bytes.
    pub closed spec fn glyph_data(&self) -> Seq<u8> {
        self.data@
    }

    /// Places the packed glyph `d` with its top-left corner at `(x, y)`.
    pub fn dot_matrix(x: i32, y: i32, d: &'a [u8]) -> (r: Kanji<'a>)
        ensures
            r.spec_left() == x as int,
            r.spec_top() == y as int,
            r.glyph_data() == d@,
    {
        Kanji { left: x, top: y, data: d }
    }

    /// Unpacks each byte of the buffer into its 8 bits, least-significant
    /// first: the decoded column slices, each read top to bottom.
    fn byte_to_bool_array(&self) -> (r: Vec<[bool; 8]>)
        ensures
            r@.len() == self.data@.len(),
            forall|j: int| 0 <= j < r@.len() ==> r@[j]@ == bits_of(self.data@[j]),
    {
        let mut r: Vec<[bool; 8]> = Vec::new();
        let n = self.data.len();
        for j in 0..n
            invariant
                n == self.data@.len(),
                r@.len() == j,
                forall|k: int| 0 <= k < j ==> r@[k]@ == bits_of(self.data@[k]),
        {
            let u = self.data[j];
            let mut bool_array: [bool; 8] = [false; 8];
            for i in 0..8u8
                invariant
                    forall|k: int| 0 <= k < i ==> bool_array@[k] == bit_set(u, k as u8),
            {
                let bitmask: u8 = 1u8 << i;
                bool_array[i as usize] = (u & bitmask) != 0;
            }
            assert(bool_array@ =~= bits_of(u));
            r.push(bool_array);
        }
        r
    }

    /// Decodes the glyph and returns its pixel commands in emission order:
    /// one command per set bit, bytes in buffer order, the bits of each byte
    /// from the top of its band downwards. Emits nothing for unset bits and
    /// fails exactly when the buffer length is not a multiple of 16.
    pub fn pixel_commands(&self) -> (r: Result<Vec<PixelCommand>, GlyphError>)
        requires
            self.glyph_data().len() % 16 == 0 && self.glyph_data().len() > 0 ==> self.spec_left()
                + 15 <= i32::MAX,
            self.glyph_data().len() % 16 == 0 ==> self.spec_top() + self.glyph_data().len() as int
                / 2 <= i32::MAX,
        ensures
            self.glyph_data().len() % 16 == 0 ==> (r matches Ok(cmds) && commands_view(cmds@)
                == glyph_pixels(self.spec_left(), self.spec_top(), self.glyph_data())),
            self.glyph_data().len() % 16 != 0 ==> (r matches Err(e) && e
                == GlyphError::InvalidGlyphLength),
    {
        if self.data.len() % 16 != 0 {
            return Err(GlyphError::InvalidGlyphLength);
        }
        let rows = self.byte_to_bool_array();
        let n = rows.len();
        let ghost l = self.spec_left();
        let ghost t = self.spec_top();
        let ghost d = self.glyph_data();
        let mut out: Vec<PixelCommand> = Vec::new();
        let mut x: i32 = self.left;
        let mut block_top: i32 = self.top;
        for j in 0..n
            invariant
                n == d.len(),
                n % 16 == 0,
                d == self.glyph_data(),
                l == self.spec_left(),
                t == self.spec_top(),
                n > 0 ==> l + 15 <= i32::MAX,
                t + n as int / 2 <= i32::MAX,
                rows@.len() == n,
                forall|k: int| 0 <= k < n ==> rows@[k]@ == bits_of(d[k]),
                x as int == l + col_of(j as int),
                block_top as int == t + 8 * band_of(j as int),
                commands_view(out@) == glyph_pixels_up_to(l, t, d, j as int),
        {
            proof {
                lemma_band_bound(j as int, n as int);
            }
            let row = rows[j];
            for i in 0..8u8
                invariant
                    j < n <= d.len(),
                    row@ == bits_of(d[j as int]),
                    block_top as int + 8 <= i32::MAX,
                    commands_view(out@) == glyph_pixels_up_to(l, t, d, j as int)
                        + byte_pixels_up_to(d[j as int], x as int, block_top as int, i as int),
            {
                if row[i as usize] {
                    let y = block_top + i as i32;
                    let ghost pre = out@;
                    out.push(PixelCommand { x, y });
                    proof {
                        assert(commands_view(out@) =~= commands_view(pre).push(
                            (x as int, y as int),
                        ));
                    }
                }
            }
            assert(commands_view(out@) == glyph_pixels_up_to(l, t, d, j as int + 1));
            proof {
                lemma_cursor_advance(j as int);
            }
            if x < self.left + 15 {
                x = x + 1;
            } else {
                x = self.left;
                block_top = block_top + 8;
            }
        }
        Ok(out)
    }
}

} // verus!
