//! Assembles decoded scanlines into an RGB8 image.
//!
//! Row samples are intensity levels: millihertz above the black frequency,
//! so that `LEVEL_MAX` (800 Hz above black) is full white. A scanline of the
//! Martin family carries the green, blue and red segments in turn; each output
//! column samples the three segments by linear interpolation.
use vstd::prelude::*;
use vstd::arithmetic::div_mod::{lemma_fundamental_div_mod, lemma_fundamental_div_mod_converse};

verus! {

/// The row-sample level of full white (800 Hz above black, in millihertz).
pub const LEVEL_MAX: u32 = 800_000;

/// The lowest sample rate the decoder accepts, exclusive: twice the 2300 Hz
/// band limit.
pub const MIN_SAMPLE_RATE: u32 = 4600;

/// A decoded image: row-major, top to bottom, three bytes (R, G, B) per pixel.
#[derive(Debug)]
pub struct Image {
    pub width: u32,
    pub height: u32,
    pub data: Vec<u8>,
}

/// How many displayed rows a raw row of `len` samples holds, at 0.48 s per
/// row: `round(len / (0.48 · S))`, halves rounded up.
pub open spec fn rows_in(len: int, sample_rate: int) -> int {
    (100 * len + 24 * sample_rate) / (48 * sample_rate)
}

/// The `k`-th of the equal chunks of `size` samples that a raw row splits into.
pub open spec fn chunk_of(row: Seq<u32>, k: int, size: int) -> Seq<u32> {
    row.subrange(k * size, (k + 1) * size)
}

/// The byte for normalized position `pos / den` of a chunk: the two samples
/// around index `len · pos / den` interpolated linearly, scaled so that
/// `LEVEL_MAX` is 255, rounded down and saturated at 255.
pub open spec fn level_at(chunk: Seq<u32>, pos: int, den: int) -> int {
    let q = pos / den;
    let rem = pos % den;
    let nxt = if rem > 0 && q + 1 < chunk.len() { q + 1 } else { q };
    let v = ((chunk[q] as int) * (den - rem) + (chunk[nxt] as int) * rem) * 255 / (den * LEVEL_MAX);
    if v > 255 { 255 } else { v }
}

/// Segment `k` (0, 1 or 2) of column `x` in a row `width` pixels wide: the
/// chunk sampled at `x / (3 · width) + k / 3`.
pub open spec fn segment_byte(chunk: Seq<u32>, width: int, x: int, k: int) -> int {
    level_at(chunk, chunk.len() * (x + k * width), 3 * width)
}

/// Byte `j` of a rendered pixel row: pixel `j / 3`, channel `j % 3`, where red
/// comes from the third segment, green from the first and blue from the second.
pub open spec fn row_byte(chunk: Seq<u32>, width: int, j: int) -> int {
    let c = j % 3;
    segment_byte(chunk, width, j / 3, if c == 0 { 2 } else if c == 1 { 0 } else { 1 })
}

/// The byte for position `pos / den` of `row[start .. start + len]`.
fn level_byte(row: &[u32], start: usize, len: usize, pos: u128, den: u128) -> (r: u8)
    requires
        len > 0,
        start + len <= row.len(),
        0 < den < 0x4_0000_0000,
        pos < len * den,
    ensures
        r == level_at(row@.subrange(start as int, start + len), pos as int, den as int),
{
    let ghost chunk = row@.subrange(start as int, start + len);
    let q = pos / den;
    let rem = pos % den;
    assert(q < len) by (nonlinear_arith)
        requires
            q == pos / den,
            pos < len * den,
            den > 0,
    ;
    let qi = q as usize;
    assert(start + qi < row@.len());
    let nxt: usize = if rem > 0 && qi + 1 < len { qi + 1 } else { qi };
    let a = row[start + qi] as u128;
    let b = row[start + nxt] as u128;
    assert(a == chunk[q as int]);
    assert(b == chunk[nxt as int]);
    assert(a * (den - rem) <= 0xffff_ffff * 0x4_0000_0000) by (nonlinear_arith)
        requires
            a <= 0xffff_ffff,
            den - rem <= 0x4_0000_0000,
    ;
    assert(b * rem <= 0xffff_ffff * 0x4_0000_0000) by (nonlinear_arith)
        requires
            b <= 0xffff_ffff,
            rem <= 0x4_0000_0000,
    ;
    let mix = a * (den - rem) + b * rem;
    let scale = den * 800_000;
    let v = mix * 255 / scale;
    if v > 255 {
        255
    } else {
        v as u8
    }
}

/// Writes one rendered pixel row of `row[start .. start + len]` into
/// `pixels[base .. base + 3 · width]`.
fn render_row(pixels: &mut Vec<u8>, base: usize, row: &[u32], start: usize, len: usize, width: u32)
    requires
        len > 0,
        start + len <= row.len(),
        base + 3 * width <= old(pixels).len(),
    ensures
        final(pixels)@.len() == old(pixels)@.len(),
        forall|i: int|
            0 <= i < final(pixels)@.len() ==> #[trigger] final(pixels)@[i] == if base <= i < base + 3 * width {
                row_byte(row@.subrange(start as int, start + len), width as int, i - base) as u8
            } else {
                old(pixels)@[i]
            },
{
    let ghost chunk = row@.subrange(start as int, start + len);
    let ghost w = width as int;
    let den = 3 * (width as u128);
    let mut x: u32 = 0;
    while x < width
        invariant
            x <= width,
            den == 3 * w,
            w == width,
            len > 0,
            start + len <= row.len(),
            base + 3 * width <= pixels.len(),
            pixels@.len() == old(pixels)@.len(),
            chunk == row@.subrange(start as int, start + len),
            forall|i: int|
                0 <= i < pixels@.len() ==> #[trigger] pixels@[i] == if base <= i < base + 3 * x {
                    row_byte(chunk, w, i - base) as u8
                } else {
                    old(pixels)@[i]
                },
        decreases width - x,
    {
        let mut bytes: [u8; 3] = [0, 0, 0];
        let mut k: u32 = 0;
        while k < 3
            invariant
                k <= 3,
                x < width,
                den == 3 * w,
                w == width,
                len > 0,
                start + len <= row.len(),
                chunk == row@.subrange(start as int, start + len),
                base + 3 * width <= pixels.len(),
                pixels@.len() == old(pixels)@.len(),
                forall|i: int|
                    0 <= i < pixels@.len() ==> #[trigger] pixels@[i] == if base <= i < base + 3 * x {
                        row_byte(chunk, w, i - base) as u8
                    } else {
                        old(pixels)@[i]
                    },
                forall|c: int| 0 <= c < k ==> bytes[c] == segment_byte(chunk, w, x as int, c) as u8,
            decreases 3 - k,
        {
            assert((k as u128) * (width as u128) <= 2 * 0xffff_ffff) by (nonlinear_arith)
                requires
                    k < 3,
                    width <= 0xffff_ffff,
            ;
            let seg = (x as u128) + (k as u128) * (width as u128);
            assert(seg < den) by (nonlinear_arith)
                requires
                    seg == x + k * width,
                    x < width,
                    k <= 2,
                    den == 3 * width,
            ;
            assert((len as u128) * seg < (len as u128) * den) by (nonlinear_arith)
                requires
                    seg < den,
                    len > 0,
            ;
            assert((len as u128) * seg <= 0xffff_ffff_ffff_ffff * 0x3_0000_0000) by (nonlinear_arith)
                requires
                    len <= 0xffff_ffff_ffff_ffff,
                    seg < 0x3_0000_0000,
            ;
            let pos = (len as u128) * seg;
            let b = level_byte(row, start, len, pos, den);
            assert(chunk.len() == len);
            bytes[k as usize] = b;
            k = k + 1;
        }
        let off = base + 3 * (x as usize);
        let ghost before = pixels@;
        pixels[off] = bytes[2];
        pixels[off + 1] = bytes[0];
        pixels[off + 2] = bytes[1];
        proof {
            assert forall|i: int| 0 <= i < pixels@.len() implies #[trigger] pixels@[i] == if base <= i < base + 3 * (x + 1) {
                row_byte(chunk, w, i - base) as u8
            } else {
                old(pixels)@[i]
            } by {
                if off <= i < off + 3 {
                    let j = i - base;
                    lemma_fundamental_div_mod_converse(j, 3, x as int, i - off);
                } else {
                    assert(pixels@[i] == before[i]);
                }
            }
        }
        x = x + 1;
    }
}

/// The cursor after pushing `rows` rows at cursor `y`: it stops at `height`.
pub open spec fn pushed_y(y: int, rows: int, height: int) -> int {
    if y + rows < height {
        y + rows
    } else {
        height
    }
}

/// A raw row never holds more displayed rows than samples.
proof fn lemma_rows_le_len(len: int, sample_rate: int)
    requires
        len >= 0,
        sample_rate > MIN_SAMPLE_RATE,
        rows_in(len, sample_rate) > 0,
    ensures
        rows_in(len, sample_rate) <= len,
{
    let rows = rows_in(len, sample_rate);
    let d = 48 * sample_rate;
    lemma_fundamental_div_mod(100 * len + 24 * sample_rate, d);
    assert(rows * d <= 100 * len + 24 * sample_rate);
    assert(rows <= len) by (nonlinear_arith)
        requires
            rows * d <= 100 * len + 24 * sample_rate,
            d == 48 * sample_rate,
            sample_rate >= 3,
            rows >= 1,
            len >= 0,
    ;
}

/// The pixel buffer after rows `y .. y2` were rendered from the chunks of
/// `size` samples of a raw row, in order.
pub open spec fn pushed_pixels(pixels: Seq<u8>, width: int, y: int, y2: int, row: Seq<u32>, size: int) -> Seq<u8> {
    Seq::new(
        pixels.len(),
        |i: int|
            if 3 * width * y <= i < 3 * width * y2 {
                row_byte(chunk_of(row, i / (3 * width) - y, size), width, i % (3 * width)) as u8
            } else {
                pixels[i]
            },
    )
}

/// Builds an image row by row from raw scanline samples.
pub struct ImageBuilder {
    sample_rate: u32,
    width: u32,
    height: u32,
    y: u32,
    img: Option<Vec<u8>>,
}

impl ImageBuilder {
    /// The sample rate the rows were taken at, in Hz.
    pub closed spec fn spec_sample_rate(&self) -> int {
        self.sample_rate as int
    }

    /// The image width, in pixels.
    pub closed spec fn spec_width(&self) -> int {
        self.width as int
    }

    /// The image height, in pixels.
    pub closed spec fn spec_height(&self) -> int {
        self.height as int
    }

    /// The next row to write.
    pub closed spec fn spec_y(&self) -> int {
        self.y as int
    }

    /// Whether the pixel buffer is still here (it leaves on `finish`).
    pub closed spec fn has_image(&self) -> bool {
        self.img is Some
    }

    /// The pixel buffer, row-major, three bytes per pixel.
    pub closed spec fn spec_pixels(&self) -> Seq<u8> {
        match self.img {
            Some(v) => v@,
            None => Seq::<u8>::empty(),
        }
    }

    /// The cursor after `push_row(row)`.
    pub open spec fn y_after_push(&self, row: Seq<u32>) -> int {
        pushed_y(self.spec_y(), rows_in(row.len() as int, self.spec_sample_rate()), self.spec_height())
    }

    /// The pixel buffer after `push_row(row)`.
    pub open spec fn pixels_after_push(&self, row: Seq<u32>) -> Seq<u8> {
        pushed_pixels(
            self.spec_pixels(),
            self.spec_width(),
            self.spec_y(),
            self.y_after_push(row),
            row,
            (row.len() as int) / rows_in(row.len() as int, self.spec_sample_rate()),
        )
    }

    /// The builder's invariant: a valid sample rate, a cursor within the
    /// image, and a buffer of `3 · width · height` bytes while it is here.
    pub closed spec fn well_formed(&self) -> bool {
        &&& self.sample_rate > MIN_SAMPLE_RATE
        &&& self.y <= self.height
        &&& 3 * self.width * self.height <= usize::MAX
        &&& (self.img matches Some(v) ==> v@.len() == 3 * self.width * self.height)
    }

    /// A black image of `width × height` pixels for rows sampled at
    /// `sample_rate` Hz, with the cursor on the first row.
    pub fn new(sample_rate: u32, width: u32, height: u32) -> (r: ImageBuilder)
        requires
            sample_rate > MIN_SAMPLE_RATE,
            3 * width * height <= usize::MAX,
        ensures
            r.well_formed(),
            r.has_image(),
            r.spec_sample_rate() == sample_rate,
            r.spec_width() == width,
            r.spec_height() == height,
            r.spec_y() == 0,
            r.spec_pixels() == Seq::new((3 * width * height) as nat, |i: int| 0u8),
    {
        assert(3 * (width as u128) * (height as u128) <= 3 * 0xffff_ffff * 0xffff_ffff) by (nonlinear_arith)
            requires
                width <= 0xffff_ffff,
                height <= 0xffff_ffff,
        ;
        let n = (3 * (width as u128) * (height as u128)) as usize;
        let mut data: Vec<u8> = Vec::new();
        let mut i: usize = 0;
        while i < n
            invariant
                i <= n,
                data@ == Seq::new(i as nat, |j: int| 0u8),
            decreases n - i,
        {
            data.push(0);
            i = i + 1;
        }
        ImageBuilder { sample_rate, width, height, y: 0, img: Some(data) }
    }

    /// The fraction of the image written so far, as `(rows written, height)`.
    pub fn progress(&self) -> (r: (u32, u32))
        ensures
            r.0 == self.spec_y(),
            r.1 == self.spec_height(),
    {
        (self.y, self.height)
    }

    /// Whether every row has been written.
    pub fn finished(&self) -> (r: bool)
        requires
            self.well_formed(),
        ensures
            r == (self.spec_y() == self.spec_height()),
    {
        self.y >= self.height
    }

    /// Hands the pixel buffer over; the builder has no image afterwards.
    pub fn finish(&mut self) -> (r: Image)
        requires
            old(self).has_image(),
        ensures
            r.data@ == old(self).spec_pixels(),
            r.width == old(self).spec_width(),
            r.height == old(self).spec_height(),
            !final(self).has_image(),
            final(self).spec_y() == old(self).spec_y(),
            final(self).spec_width() == old(self).spec_width(),
            final(self).spec_height() == old(self).spec_height(),
            final(self).spec_sample_rate() == old(self).spec_sample_rate(),
            old(self).well_formed() ==> final(self).well_formed(),
    {
        let data = match self.img.take() {
            Some(v) => v,
            None => Vec::new(),
        };
        Image { width: self.width, height: self.height, data }
    }

    /// Renders a raw scanline into the image. The row is split into
    /// `round(len / (0.48 · S))` equal chunks, one displayed row each, written
    /// from the cursor on until the image is full; a row too short for one
    /// chunk is dropped.
    pub fn push_row(&mut self, row: &[u32])
        requires
            old(self).well_formed(),
            old(self).has_image(),
        ensures
            final(self).well_formed(),
            final(self).has_image(),
            final(self).spec_sample_rate() == old(self).spec_sample_rate(),
            final(self).spec_width() == old(self).spec_width(),
            final(self).spec_height() == old(self).spec_height(),
            final(self).spec_y() == old(self).y_after_push(row@),
            final(self).spec_pixels() == old(self).pixels_after_push(row@),
    {
        let len = row.len();
        let rate = self.sample_rate as u128;
        let rows128 = (100 * (len as u128) + 24 * rate) / (48 * rate);
        if rows128 == 0 || self.y >= self.height {
            assert(self.spec_pixels() =~= old(self).pixels_after_push(row@));
            return;
        }
        proof {
            lemma_rows_le_len(len as int, self.sample_rate as int);
        }
        let rows = rows128 as usize;
        let size = len / rows;
        assert(size >= 1) by (nonlinear_arith)
            requires
                size == len / rows,
                1 <= rows <= len,
        ;
        assert(rows * size <= len) by (nonlinear_arith)
            requires
                size == len / rows,
                rows >= 1,
        ;
        let ghost old_pixels = self.spec_pixels();
        let ghost y0 = self.y as int;
        let ghost w = self.width as int;
        let ghost h = self.height as int;
        let ghost rate0 = self.sample_rate;
        let width = self.width;
        assert(3 * (width as int) <= 3 * (width as int) * h) by (nonlinear_arith)
            requires
                h >= 1,
                width >= 0,
        ;
        let stride = 3 * (width as usize);
        assert(stride * (self.height as usize) == 3 * w * h) by (nonlinear_arith)
            requires
                stride == 3 * width,
                w == width,
                h == self.height,
        ;
        let mut pixels = match self.img.take() {
            Some(v) => v,
            None => Vec::new(),
        };
        let mut k: usize = 0;
        while k < rows && self.y < self.height
            invariant
                self.sample_rate > MIN_SAMPLE_RATE,
                self.sample_rate == rate0,
                self.img is None,
                width == w,
                self.width == w,
                self.height == h,
                3 * w * h <= usize::MAX,
                stride == 3 * w,
                stride * h == 3 * w * h,
                self.y == y0 + k,
                self.y <= h,
                k <= rows,
                1 <= size,
                rows * size <= len,
                len == row@.len(),
                size == (row@.len() as int) / rows_in(row@.len() as int, self.sample_rate as int),
                pixels@.len() == 3 * w * h,
                old_pixels.len() == 3 * w * h,
                forall|i: int|
                    0 <= i < pixels@.len() ==> #[trigger] pixels@[i] == if 3 * w * y0 <= i < 3 * w * self.y {
                        row_byte(chunk_of(row@, i / (3 * w) - y0, size as int), w, i % (3 * w)) as u8
                    } else {
                        old_pixels[i]
                    },
            decreases rows - k,
        {
            let ghost before = pixels@;
            let y = self.y;
            assert((y as usize) * stride + stride <= stride * (self.height as usize)) by (nonlinear_arith)
                requires
                    y < self.height,
                    stride >= 0,
            ;
            assert(k * size + size <= rows * size) by (nonlinear_arith)
                requires
                    k < rows,
                    size >= 1,
            ;
            let base = (y as usize) * stride;
            let start = k * size;
            render_row(&mut pixels, base, row, start, size, width);
            proof {
                assert((k + 1) * size == start + size) by (nonlinear_arith)
                    requires
                        start == k * size,
                ;
                assert(base == 3 * w * y) by (nonlinear_arith)
                    requires
                        base == y * stride,
                        stride == 3 * w,
                ;
                assert forall|i: int| 0 <= i < pixels@.len() implies #[trigger] pixels@[i] == if 3 * w * y0 <= i < 3 * w * (y + 1) {
                    row_byte(chunk_of(row@, i / (3 * w) - y0, size as int), w, i % (3 * w)) as u8
                } else {
                    old_pixels[i]
                } by {
                    assert(3 * w * (y + 1) == 3 * w * y + 3 * w) by (nonlinear_arith);
                    assert(3 * w * y0 <= 3 * w * y) by (nonlinear_arith)
                        requires
                            y0 <= y,
                            w >= 0,
                    ;
                    if base <= i < base + 3 * w {
                        assert(base == (y as int) * (3 * w)) by (nonlinear_arith)
                            requires
                                base == 3 * w * y,
                        ;
                        lemma_fundamental_div_mod_converse(i, 3 * w, y as int, i - base);
                        assert(chunk_of(row@, y - y0, size as int) == row@.subrange(start as int, start + size));
                    } else {
                        assert(pixels@[i] == before[i]);
                    }
                }
            }
            self.y = y + 1;
            k = k + 1;
        }
        self.img = Some(pixels);
        assert(self.spec_pixels() =~= old(self).pixels_after_push(row@));
    }
}

/// The cursor of a well-formed builder lies within its height, and the
/// sizes are those of `u32` fields.
pub proof fn lemma_builder_bounds(b: ImageBuilder)
    requires
        b.well_formed(),
    ensures
        0 <= b.spec_y() <= b.spec_height() <= u32::MAX,
        0 <= b.spec_width() <= u32::MAX,
{
}

/// Progress never goes back and a finished image stays finished: pushing any
/// raw row leaves the cursor between where it was and the height, and a
/// cursor at the height stays there.
pub proof fn lemma_progress_monotone(b: ImageBuilder, row: Seq<u32>)
    requires
        b.well_formed(),
    ensures
        b.spec_y() <= b.y_after_push(row) <= b.spec_height(),
        b.spec_y() == b.spec_height() ==> b.y_after_push(row) == b.spec_height(),
{
    let len = row.len() as int;
    let rate = b.spec_sample_rate();
    assert(rows_in(len, rate) >= 0) by (nonlinear_arith)
        requires
            len >= 0,
            rate > 0,
    ;
}

} // verus!
