//! Raster images: flat pixel buffers addressed by row-major coordinates.
use crate::formats::hi;
use crate::formats::lo;
use crate::pixel::Convert;
use crate::pixel::Pixel;
use crate::region::IntoRegion;
use crate::region::Region;
use vstd::arithmetic::div_mod::lemma_fundamental_div_mod;
use vstd::arithmetic::div_mod::lemma_mod_bound;
use vstd::prelude::*;

verus! {

/// Image arranged as a rectangular array of pixels, row-major: row `y`
/// occupies the half-open slice `[y * width, y * width + width)` of the flat
/// buffer.
pub struct Raster<P> {
    width: u32,
    height: u32,
    pixels: Vec<P>,
}

impl<P: Pixel> Raster<P> {
    /// Stored width.
    pub closed spec fn spec_width(&self) -> u32 {
        self.width
    }

    /// Stored height.
    pub closed spec fn spec_height(&self) -> u32 {
        self.height
    }

    /// The flat pixel buffer, row-major.
    pub closed spec fn spec_pixels(&self) -> Seq<P> {
        self.pixels@
    }

    /// The pixel at column `x` of row `y`.
    pub open spec fn spec_pixel(&self, x: int, y: int) -> P {
        self.spec_pixels()[y * self.spec_width() + x]
    }

    /// The buffer holds exactly `width * height` pixels; every construction
    /// path establishes this and every operation keeps it.
    pub open spec fn wf(&self) -> bool {
        self.spec_pixels().len() == self.spec_width() * self.spec_height()
    }

    /// Get width of `Raster`.
    pub fn width(&self) -> (r: u32)
        ensures
            r == self.spec_width(),
    {
        self.width
    }

    /// Get height of `Raster`.
    pub fn height(&self) -> (r: u32)
        ensures
            r == self.spec_height(),
    {
        self.height
    }

    /// Get one pixel. The coordinates must lie inside the raster; there is
    /// no wrapping and no default for an out-of-bounds read.
    pub fn pixel(&self, x: u32, y: u32) -> (r: P)
        requires
            self.wf(),
            x < self.spec_width(),
            y < self.spec_height(),
        ensures
            r == self.spec_pixel(x as int, y as int),
    {
        proof {
            lemma_rowcol_index(
                self.spec_width() as int,
                self.spec_height() as int,
                x as int,
                y as int,
            );
            assert(self.pixels.len() == self.spec_pixels().len());
        }
        self.pixels[(y as usize) * (self.width as usize) + (x as usize)]
    }

    /// Set one pixel value, converting it into the raster's format. The
    /// coordinates must lie inside the raster, as for `pixel`.
    pub fn set_pixel<S>(&mut self, x: u32, y: u32, p: S) where P: Convert<S>
        requires
            old(self).wf(),
            x < old(self).spec_width(),
            y < old(self).spec_height(),
        ensures
            final(self).wf(),
            final(self).spec_width() == old(self).spec_width(),
            final(self).spec_height() == old(self).spec_height(),
            final(self).spec_pixels() == old(self).spec_pixels().update(
                y * old(self).spec_width() + x,
                P::spec_convert(p),
            ),
    {
        proof {
            lemma_rowcol_index(
                self.spec_width() as int,
                self.spec_height() as int,
                x as int,
                y as int,
            );
            assert(self.pixels.len() == self.spec_pixels().len());
        }
        let i = (y as usize) * (self.width as usize) + (x as usize);
        self.pixels[i] = P::convert(p);
    }
}

/// Builder for `Raster` images: each method is a separate construction path
/// that either yields a raster whose buffer length is exactly
/// `width * height`, or refuses to build one.
pub struct RasterBuilder<P> {
    _pixel: core::marker::PhantomData<P>,
}

impl<P: Pixel> Default for RasterBuilder<P> {
    fn default() -> (r: RasterBuilder<P>)
        ensures
            r == RasterBuilder::<P>::spec_new(),
    {
        RasterBuilder { _pixel: core::marker::PhantomData }
    }
}

impl<P: Pixel> RasterBuilder<P> {
    /// The one value a builder has: it carries no state.
    pub closed spec fn spec_new() -> RasterBuilder<P> {
        RasterBuilder { _pixel: core::marker::PhantomData }
    }

    /// Create a new raster builder for pixel format `P`.
    pub fn new() -> (r: RasterBuilder<P>)
        ensures
            r == RasterBuilder::<P>::spec_new(),
    {
        RasterBuilder { _pixel: core::marker::PhantomData }
    }

    /// Build a `Raster` with all pixels set to the default value.
    pub fn with_clear(self, width: u32, height: u32) -> (r: Raster<P>)
        requires
            width as int * height as int <= usize::MAX as int,
        ensures
            r.wf(),
            r.spec_width() == width,
            r.spec_height() == height,
            r.spec_pixels() == Seq::new((width as int * height as int) as nat, |i: int| P::spec_default()),
    {
        self.with_color(width, height, P::default_pixel())
    }

    /// Build a `Raster` with all pixels set to one color.
    pub fn with_color(self, width: u32, height: u32, clr: P) -> (r: Raster<P>)
        requires
            width as int * height as int <= usize::MAX as int,
        ensures
            r.wf(),
            r.spec_width() == width,
            r.spec_height() == height,
            r.spec_pixels() == Seq::new((width as int * height as int) as nat, |i: int| clr),
    {
        let len = (width as usize) * (height as usize);
        let mut pixels: Vec<P> = Vec::new();
        let mut i: usize = 0;
        while i < len
            invariant
                i <= len,
                pixels@.len() == i,
                forall|j: int| 0 <= j < i ==> pixels@[j] == clr,
            decreases len - i,
        {
            pixels.push(clr);
            i = i + 1;
        }
        proof {
            assert(pixels@ =~= Seq::new((width as int * height as int) as nat, |k: int| clr));
        }
        Raster { width, height, pixels }
    }

    /// Build a `Raster` with owned pixel data. The pixel count must equal
    /// `width * height` exactly; otherwise nothing is built.
    pub fn with_pixels(self, width: u32, height: u32, pixels: Vec<P>) -> (r: Option<Raster<P>>)
        ensures
            match r {
                Some(ra) => {
                    &&& pixels@.len() == width as int * height as int
                    &&& ra.wf()
                    &&& ra.spec_width() == width
                    &&& ra.spec_height() == height
                    &&& ra.spec_pixels() == pixels@
                },
                None => pixels@.len() != width as int * height as int,
            },
    {
        let len = (width as usize).checked_mul(height as usize);
        match len {
            Some(len) => {
                if pixels.len() == len {
                    Some(Raster { width, height, pixels })
                } else {
                    None
                }
            },
            None => {
                proof {
                    assert(pixels.len() == pixels@.len());
                }
                None
            },
        }
    }
    /// Build a `Raster` from a byte buffer, one byte per channel. The buffer
    /// length must equal `width * height * P::spec_size()` exactly and the
    /// format's channels must be single bytes; otherwise nothing is built.
    pub fn with_u8_buffer(self, width: u32, height: u32, buffer: Vec<u8>) -> (r: Option<
        Raster<P>,
    >)
        ensures
            match r {
                Some(ra) => {
                    &&& P::spec_channel_bytes() == 1
                    &&& buffer@.len() == (width as int * height as int) * P::spec_size()
                    &&& ra.wf()
                    &&& ra.spec_width() == width
                    &&& ra.spec_height() == height
                    &&& ra.spec_pixels() == pixels_of_bytes::<P>(
                        buffer@,
                        width as int * height as int,
                    )
                },
                None => P::spec_channel_bytes() != 1 || buffer@.len() != (width as int
                    * height as int) * P::spec_size(),
            },
    {
        proof {
            assert(buffer.len() == buffer@.len());
        }
        if P::channel_bytes() != 1 {
            return None;
        }
        let size = P::size_bytes();
        let n = (width as usize).checked_mul(height as usize);
        match n {
            Some(n) => {
                let total = n.checked_mul(size);
                match total {
                    Some(total) => {
                        if buffer.len() == total {
                            let pixels = decode_pixels::<P>(&buffer, n);
                            Some(Raster { width, height, pixels })
                        } else {
                            None
                        }
                    },
                    None => {
                        proof {
                            lemma_len_not_product(
                                buffer@.len() as int,
                                n as int,
                                P::spec_size() as int,
                            );
                        }
                        None
                    },
                }
            },
            None => {
                proof {
                    lemma_len_not_wide_product(
                        buffer@.len() as int,
                        width as int,
                        height as int,
                        P::spec_size() as int,
                    );
                }
                None
            },
        }
    }

    /// Build a `Raster` from a buffer of two-byte words in little-endian
    /// order, two bytes per channel. The byte count, twice the word count,
    /// must equal `width * height * P::spec_size()` exactly and the format's
    /// channels must be two bytes wide; otherwise nothing is built.
    pub fn with_u16_buffer(self, width: u32, height: u32, buffer: Vec<u16>) -> (r: Option<
        Raster<P>,
    >)
        ensures
            match r {
                Some(ra) => {
                    &&& P::spec_channel_bytes() == 2
                    &&& buffer@.len() * 2 == (width as int * height as int) * P::spec_size()
                    &&& ra.wf()
                    &&& ra.spec_width() == width
                    &&& ra.spec_height() == height
                    &&& ra.spec_pixels() == pixels_of_bytes::<P>(
                        bytes_of_words(buffer@),
                        width as int * height as int,
                    )
                },
                None => P::spec_channel_bytes() != 2 || buffer@.len() * 2 != (width as int
                    * height as int) * P::spec_size(),
            },
    {
        if P::channel_bytes() != 2 {
            return None;
        }
        let mut bytes: Vec<u8> = Vec::new();
        let mut i: usize = 0;
        let len = buffer.len();
        while i < len
            invariant
                i <= len,
                len == buffer@.len(),
                bytes@ == bytes_of_words(buffer@.subrange(0, i as int)),
                bytes@.len() == 2 * i,
            decreases len - i,
        {
            let w = buffer[i];
            bytes.push((w % 256) as u8);
            bytes.push((w / 256) as u8);
            proof {
                lemma_bytes_of_words_step(buffer@, i as int);
            }
            i = i + 1;
        }
        proof {
            assert(buffer@.subrange(0, len as int) =~= buffer@);
        }
        let size = P::size_bytes();
        let n = (width as usize).checked_mul(height as usize);
        match n {
            Some(n) => {
                let total = n.checked_mul(size);
                match total {
                    Some(total) => {
                        if bytes.len() == total {
                            let pixels = decode_pixels::<P>(&bytes, n);
                            Some(Raster { width, height, pixels })
                        } else {
                            None
                        }
                    },
                    None => {
                        proof {
                            assert(bytes.len() == bytes@.len());
                            lemma_len_not_product(
                                bytes@.len() as int,
                                n as int,
                                P::spec_size() as int,
                            );
                        }
                        None
                    },
                }
            },
            None => {
                proof {
                    assert(bytes.len() == bytes@.len());
                    lemma_len_not_wide_product(
                        bytes@.len() as int,
                        width as int,
                        height as int,
                        P::spec_size() as int,
                    );
                }
                None
            },
        }
    }
}

/// A length that fits `usize` differs from a product that does not.
proof fn lemma_len_not_product(len: int, n: int, size: int)
    requires
        len <= usize::MAX as int,
        n * size > usize::MAX as int,
    ensures
        len != n * size,
{
}

/// A length that fits `usize` differs from `w * h * size` when already
/// `w * h` exceeds `usize` and `size` is at least one.
proof fn lemma_len_not_wide_product(len: int, w: int, h: int, size: int)
    requires
        len <= usize::MAX as int,
        w * h > usize::MAX as int,
        1 <= size,
    ensures
        len != (w * h) * size,
{
    assert((w * h) * size >= w * h) by (nonlinear_arith)
        requires
            1 <= size,
            w * h > 0,
    ;
}


impl<P: Pixel> RasterBuilder<P> {
    /// Build a `Raster` by copying another raster, converting every pixel
    /// from the source format into this one. This is the canonical
    /// format-conversion entry point.
    pub fn with_raster<S: Pixel>(self, src: &Raster<S>) -> (r: Raster<P>) where P: Convert<S>
        requires
            src.wf(),
            src.spec_width() < i32::MAX,
            src.spec_height() < i32::MAX,
        ensures
            r.wf(),
            r.spec_width() == src.spec_width(),
            r.spec_height() == src.spec_height(),
            r.spec_pixels() == src.spec_pixels().map_values(|p: S| P::spec_convert(p)),
    {
        let w = src.width();
        let h = src.height();
        proof {
            assert(src.pixels.len() == src.spec_pixels().len());
        }
        let mut r = RasterBuilder::<P>::new().with_clear(w, h);
        let reg = src.region();
        proof {
            lemma_rows_full(src, 0);
            assert((0int) * (w as int) == 0) by (nonlinear_arith);
            assert(src.spec_region_seq(reg) =~= src.spec_pixels());
        }
        let it = src.region_iter(reg);
        let ghost r0 = r;
        r.set_region(reg, it);
        proof {
            let conv = |p: S| P::spec_convert(p);
            let n = src.spec_pixels().len() as int;
            assert forall|j: int| 0 <= j < n implies r.spec_pixels()[j] == src.spec_pixels(
            ).map_values(conv)[j] by {
                assert(0 < w as int) by (nonlinear_arith)
                    requires
                        0 <= j < (w as int) * (h as int),
                ;
                lemma_index_to_rowcol(w as int, h as int, j);
                let yi = j / (w as int);
                let xi = j % (w as int);
                assert(r0.in_dest(reg, xi, yi));
                assert(r0.dest_index(reg, xi, yi) == j);
                assert(it.src_at(j) == Some(src.spec_pixels()[j]));
                assert(r.spec_pixel(xi, yi) == P::spec_convert(src.spec_pixels()[j]));
            }
            assert(r.spec_pixels() =~= src.spec_pixels().map_values(conv));
        }
        r
    }
}

/// The rows of the full width of a raster, from row `y` down, are exactly
/// the tail of the flat buffer from `y * width` on.
proof fn lemma_rows_full<P: Pixel>(ra: &Raster<P>, y: int)
    requires
        ra.wf(),
        0 <= y <= ra.spec_height(),
    ensures
        ra.spec_rows(0, ra.spec_width() as int, y, ra.spec_height() as int) == ra.spec_pixels(
        ).skip(y * ra.spec_width()),
    decreases ra.spec_height() - y,
{
    let w = ra.spec_width() as int;
    let h = ra.spec_height() as int;
    if y >= h {
        assert(y * w == w * h) by (nonlinear_arith)
            requires
                y == h,
        ;
        assert(ra.spec_pixels().skip(y * w).len() == 0);
        assert(ra.spec_rows(0, w, y, h) =~= ra.spec_pixels().skip(y * w));
    } else {
        lemma_rows_full(ra, y + 1);
        lemma_row_bounds(w, h, y);
        assert(ra.spec_rows(0, w, y, h) =~= ra.spec_pixels().skip(y * w));
    }
}

/// A row-major index below `w * h` splits into a row below `h` and a column
/// below `w`.
proof fn lemma_index_to_rowcol(w: int, h: int, j: int)
    requires
        0 < w,
        0 <= j < w * h,
    ensures
        0 <= j % w < w,
        0 <= j / w < h,
        j == (j / w) * w + j % w,
{
    lemma_fundamental_div_mod(j, w);
    lemma_mod_bound(j, w);
    assert((j / w) * w == w * (j / w)) by (nonlinear_arith);
    assert(0 <= j / w && j / w < h) by (nonlinear_arith)
        requires
            0 < w,
            0 <= j < w * h,
            j == w * (j / w) + j % w,
            0 <= j % w < w,
    ;
}

impl<P: Pixel> Raster<P> {
    /// Take the pixel buffer back out of the raster, row-major.
    pub fn into_pixels(self) -> (r: Vec<P>)
        ensures
            r@ == self.spec_pixels(),
    {
        self.pixels
    }

    /// Clear all pixels to the format's default value.
    pub fn clear(&mut self)
        requires
            old(self).wf(),
        ensures
            final(self).wf(),
            final(self).spec_width() == old(self).spec_width(),
            final(self).spec_height() == old(self).spec_height(),
            final(self).spec_pixels() == Seq::new(
                old(self).spec_pixels().len(),
                |i: int| P::spec_default(),
            ),
    {
        let len = self.pixels.len();
        let mut i: usize = 0;
        while i < len
            invariant
                i <= len,
                self.wf(),
                self.spec_width() == old(self).spec_width(),
                self.spec_height() == old(self).spec_height(),
                self.spec_pixels().len() == len,
                forall|j: int| 0 <= j < i ==> self.spec_pixels()[j] == P::spec_default(),
            decreases len - i,
        {
            self.pixels[i] = P::default_pixel();
            i = i + 1;
        }
        proof {
            assert(self.spec_pixels() =~= Seq::new(
                old(self).spec_pixels().len(),
                |i: int| P::spec_default(),
            ));
        }
    }

    /// Get the `Region` of the entire raster: origin zero, full extent.
    pub fn region(&self) -> (r: Region)
        ensures
            r == (Region {
                x: 0,
                y: 0,
                width: self.spec_width(),
                height: self.spec_height(),
            }),
    {
        Region::new(0, 0, self.width, self.height)
    }

    /// Get view of pixels as a slice.
    pub fn as_slice(&self) -> (r: &[P])
        ensures
            r@ == self.spec_pixels(),
    {
        self.pixels.as_slice()
    }

    /// Get view of pixels as a mutable slice. Writing through the slice
    /// rewrites the raster's pixels in place; the slice's length is the
    /// pixel count and cannot change.
    pub fn as_slice_mut(&mut self) -> (r: &mut [P])
        ensures
            r@ == old(self).spec_pixels(),
            final(self).spec_width() == old(self).spec_width(),
            final(self).spec_height() == old(self).spec_height(),
            final(self).spec_pixels() == final(r)@,
    {
        self.pixels.as_mut_slice()
    }

    /// Get view of a row of pixels as a slice.
    pub fn as_slice_row(&self, y: u32) -> (r: &[P])
        requires
            self.wf(),
            y < self.spec_height(),
        ensures
            r@ == self.spec_pixels().subrange(
                y as int * self.spec_width() as int,
                (y as int + 1) * self.spec_width() as int,
            ),
    {
        proof {
            lemma_row_bounds(self.spec_width() as int, self.spec_height() as int, y as int);
            assert(self.pixels.len() == self.spec_pixels().len());
        }
        let s = (y as usize) * (self.width as usize);
        let t = s + (self.width as usize);
        &self.pixels.as_slice()[s..t]
    }

    /// Get view of a row of pixels as a mutable slice. The final buffer is
    /// the old one with row `y` replaced by what the caller leaves in the
    /// returned slice.
    pub fn as_slice_row_mut(&mut self, y: u32) -> (r: &mut [P])
        requires
            old(self).wf(),
            y < old(self).spec_height(),
        ensures
            r@ == old(self).spec_pixels().subrange(
                y as int * old(self).spec_width() as int,
                (y as int + 1) * old(self).spec_width() as int,
            ),
            final(self).spec_width() == old(self).spec_width(),
            final(self).spec_height() == old(self).spec_height(),
            final(self).spec_pixels() == old(self).spec_pixels().subrange(
                0,
                y as int * old(self).spec_width() as int,
            ) + final(r)@ + old(self).spec_pixels().subrange(
                (y as int + 1) * old(self).spec_width() as int,
                old(self).spec_pixels().len() as int,
            ),
    {
        proof {
            lemma_row_bounds(self.spec_width() as int, self.spec_height() as int, y as int);
            assert(self.pixels.len() == self.spec_pixels().len());
        }
        let s = (y as usize) * (self.width as usize);
        let t = s + (self.width as usize);
        let whole = self.pixels.as_mut_slice();
        let (_, tail) = whole.split_at_mut(s);
        let (row, _) = tail.split_at_mut(t - s);
        row
    }

    /// Get the raster's pixels as raw bytes, row-major, channels in
    /// declaration order, two-byte channels little-endian. The bytes are
    /// copied out of the buffer.
    pub fn as_u8_slice(&self) -> (r: Vec<u8>)
        ensures
            r@ == bytes_of_seq(self.spec_pixels()),
            r@.len() == self.spec_pixels().len() * P::spec_size(),
    {
        let mut out: Vec<u8> = Vec::new();
        let len = self.pixels.len();
        let mut i: usize = 0;
        while i < len
            invariant
                i <= len,
                len == self.spec_pixels().len(),
                out@ == bytes_of_seq(self.spec_pixels().subrange(0, i as int)),
            decreases len - i,
        {
            let p = self.pixels[i];
            p.push_bytes(&mut out);
            proof {
                lemma_bytes_of_seq_step(self.spec_pixels(), 0, i as int);
            }
            i = i + 1;
        }
        proof {
            assert(self.spec_pixels().subrange(0, len as int) =~= self.spec_pixels());
            lemma_bytes_of_seq_len(self.spec_pixels());
        }
        out
    }

    /// Get one row of the raster as raw bytes, laid out as in
    /// `as_u8_slice`. The bytes are copied out of the buffer.
    pub fn as_u8_slice_row(&self, y: u32) -> (r: Vec<u8>)
        requires
            self.wf(),
            y < self.spec_height(),
        ensures
            r@ == bytes_of_seq(
                self.spec_pixels().subrange(
                    y as int * self.spec_width() as int,
                    (y as int + 1) * self.spec_width() as int,
                ),
            ),
    {
        proof {
            lemma_row_bounds(self.spec_width() as int, self.spec_height() as int, y as int);
            assert(self.pixels.len() == self.spec_pixels().len());
        }
        let s = (y as usize) * (self.width as usize);
        let t = s + (self.width as usize);
        let mut out: Vec<u8> = Vec::new();
        let mut i: usize = s;
        while i < t
            invariant
                s <= i <= t,
                t <= self.spec_pixels().len(),
                out@ == bytes_of_seq(self.spec_pixels().subrange(s as int, i as int)),
            decreases t - i,
        {
            let p = self.pixels[i];
            p.push_bytes(&mut out);
            proof {
                lemma_bytes_of_seq_step(self.spec_pixels(), s as int, i as int);
            }
            i = i + 1;
        }
        out
    }

    /// Overwrite the whole pixel buffer from raw bytes laid out as
    /// `as_u8_slice` returns them. This is the writing counterpart of the
    /// copied-out byte view.
    pub fn set_u8_slice(&mut self, bytes: &Vec<u8>)
        requires
            old(self).wf(),
            bytes@.len() == old(self).spec_pixels().len() * P::spec_size(),
        ensures
            final(self).wf(),
            final(self).spec_width() == old(self).spec_width(),
            final(self).spec_height() == old(self).spec_height(),
            final(self).spec_pixels() == pixels_of_bytes::<P>(
                bytes@,
                old(self).spec_pixels().len() as int,
            ),
    {
        let n = self.pixels.len();
        let pixels = decode_pixels::<P>(bytes, n);
        self.pixels = pixels;
    }
}

/// The bytes of a pixel sequence: each pixel's bytes in order.
pub open spec fn bytes_of_seq<P: Pixel>(s: Seq<P>) -> Seq<u8>
    decreases s.len(),
{
    if s.len() == 0 {
        Seq::empty()
    } else {
        bytes_of_seq(s.drop_last()) + s.last().spec_bytes()
    }
}

/// The bytes of a sequence of two-byte words, each word little-endian.
pub open spec fn bytes_of_words(s: Seq<u16>) -> Seq<u8>
    decreases s.len(),
{
    if s.len() == 0 {
        Seq::empty()
    } else {
        bytes_of_words(s.drop_last()) + seq![lo(s.last()), hi(s.last())]
    }
}

/// The pixels decoded from `n * P::spec_size()` bytes, chunk by chunk.
pub open spec fn pixels_of_bytes<P: Pixel>(b: Seq<u8>, n: int) -> Seq<P> {
    Seq::new(
        n as nat,
        |k: int| P::spec_from_bytes(b.subrange(k * P::spec_size(), (k + 1) * P::spec_size())),
    )
}

/// A pixel sequence's bytes count `len * P::spec_size()`.
pub proof fn lemma_bytes_of_seq_len<P: Pixel>(s: Seq<P>)
    ensures
        bytes_of_seq(s).len() == s.len() * P::spec_size(),
    decreases s.len(),
{
    if s.len() == 0 {
    } else {
        lemma_bytes_of_seq_len::<P>(s.drop_last());
        s.last().lemma_bytes_len();
        assert((s.len() - 1) * P::spec_size() + P::spec_size() == s.len() * P::spec_size())
            by (nonlinear_arith);
    }
}

/// Encoding one more pixel appends its bytes.
pub proof fn lemma_bytes_of_seq_step<P: Pixel>(s: Seq<P>, a: int, i: int)
    requires
        0 <= a <= i < s.len(),
    ensures
        bytes_of_seq(s.subrange(a, i + 1)) == bytes_of_seq(s.subrange(a, i)) + s[i].spec_bytes(),
{
    assert(s.subrange(a, i + 1).drop_last() =~= s.subrange(a, i));
    assert(s.subrange(a, i + 1).last() == s[i]);
}

/// A word sequence's bytes count twice its words.
pub proof fn lemma_bytes_of_words_len(s: Seq<u16>)
    ensures
        bytes_of_words(s).len() == 2 * s.len(),
    decreases s.len(),
{
    if s.len() == 0 {
    } else {
        lemma_bytes_of_words_len(s.drop_last());
    }
}

/// Encoding one more word appends its two bytes.
pub proof fn lemma_bytes_of_words_step(s: Seq<u16>, i: int)
    requires
        0 <= i < s.len(),
    ensures
        bytes_of_words(s.subrange(0, i + 1)) == bytes_of_words(s.subrange(0, i)) + seq![
            lo(s[i]),
            hi(s[i]),
        ],
{
    assert(s.subrange(0, i + 1).drop_last() =~= s.subrange(0, i));
    assert(s.subrange(0, i + 1).last() == s[i]);
}

/// Decoding `n * P::spec_size()` bytes into pixels and encoding the pixels
/// again reproduces the bytes.
pub proof fn lemma_pixels_bytes_roundtrip<P: Pixel>(b: Seq<u8>, n: int)
    requires
        0 <= n,
        b.len() == n * P::spec_size(),
    ensures
        bytes_of_seq(pixels_of_bytes::<P>(b, n)) == b,
    decreases n,
{
    let size = P::spec_size() as int;
    let s = pixels_of_bytes::<P>(b, n);
    if n == 0 {
        assert(n * P::spec_size() == 0) by (nonlinear_arith)
            requires
                n == 0,
        ;
        assert(bytes_of_seq(s) =~= b);
    } else {
        let head = b.subrange(0, (n - 1) * size);
        assert((n - 1) * size + size == n * size) by (nonlinear_arith);
        assert(0 <= (n - 1) * size) by (nonlinear_arith)
            requires
                0 <= n - 1,
                0 <= size,
        ;
        lemma_pixels_bytes_roundtrip::<P>(head, n - 1);
        assert(s.drop_last() =~= pixels_of_bytes::<P>(head, n - 1)) by {
            assert forall|k: int| 0 <= k < n - 1 implies s.drop_last()[k] == pixels_of_bytes::<
                P,
            >(head, n - 1)[k] by {
                assert((k + 1) * size <= (n - 1) * size) by (nonlinear_arith)
                    requires
                        k + 1 <= n - 1,
                        0 <= size,
                ;
                assert(0 <= k * size) by (nonlinear_arith)
                    requires
                        0 <= k,
                        0 <= size,
                ;
                assert(k * size + size == (k + 1) * size) by (nonlinear_arith);
                assert(head.subrange(k * size, (k + 1) * size) =~= b.subrange(
                    k * size,
                    (k + 1) * size,
                ));
            }
        }
        let tail = b.subrange((n - 1) * size, n * size);
        P::lemma_bytes_roundtrip(tail);
        assert(s.last() == P::spec_from_bytes(tail));
        assert(bytes_of_seq(s) == head + tail);
        assert(head + tail =~= b);
    }
}

/// A raster built from two-byte words, read back as raw bytes, reproduces
/// the words' little-endian byte image.
pub proof fn lemma_words_bytes_roundtrip<P: Pixel>(words: Seq<u16>, n: int)
    requires
        0 <= n,
        2 * words.len() == n * P::spec_size(),
    ensures
        bytes_of_seq(pixels_of_bytes::<P>(bytes_of_words(words), n)) == bytes_of_words(words),
{
    lemma_bytes_of_words_len(words);
    lemma_pixels_bytes_roundtrip::<P>(bytes_of_words(words), n);
}

/// Decode `n` pixels from a byte buffer of exactly `n * P::spec_size()`
/// bytes.
fn decode_pixels<P: Pixel>(bytes: &Vec<u8>, n: usize) -> (r: Vec<P>)
    requires
        bytes@.len() == n as int * P::spec_size(),
    ensures
        r@ == pixels_of_bytes::<P>(bytes@, n as int),
{
    let size = P::size_bytes();
    let mut out: Vec<P> = Vec::new();
    let mut i: usize = 0;
    while i < n
        invariant
            i <= n,
            size == P::spec_size(),
            bytes@.len() == n as int * P::spec_size(),
            out@.len() == i,
            forall|k: int| 0 <= k < i ==> out@[k] == P::spec_from_bytes(
                bytes@.subrange(k * P::spec_size(), (k + 1) * P::spec_size()),
            ),
        decreases n - i,
    {
        proof {
            assert(bytes.len() == bytes@.len());
            assert(i as int * size + size == (i as int + 1) * size) by (nonlinear_arith);
            assert((i as int + 1) * size <= n as int * size) by (nonlinear_arith)
                requires
                    i as int + 1 <= n as int,
                    0 <= size,
            ;
            assert(0 <= i as int * size) by (nonlinear_arith)
                requires
                    0 <= i as int,
                    0 <= size,
            ;
        }
        let p = P::read_bytes(bytes, i * size);
        out.push(p);
        i = i + 1;
    }
    proof {
        assert(out@ =~= pixels_of_bytes::<P>(bytes@, n as int));
    }
    out
}

/// A stream of pixels feeding `Raster::set_region`: a single pixel stands
/// for an endless repetition of itself, a `RasterIter` for the pixels of a
/// clipped region in row-major order.
pub trait PixelSource<S>: Sized {
    /// Validity of the source's internal state.
    spec fn src_wf(&self) -> bool;

    /// The pixel that the `i`-th `next_pixel` call from this state will
    /// return, or `None` where the stream yields nothing then.
    spec fn src_at(&self, i: int) -> Option<S>;

    /// Take the next pixel; afterwards the stream is shifted by one.
    fn next_pixel(&mut self) -> (r: Option<S>)
        requires
            old(self).src_wf(),
        ensures
            final(self).src_wf(),
            r == old(self).src_at(0),
            forall|i: int| 0 <= i ==> final(self).src_at(i) == old(self).src_at(i + 1),
    ;
}

/// A pixel is its own endless source: every draw yields the pixel again.
impl<S: Pixel> PixelSource<S> for S {
    open spec fn src_wf(&self) -> bool {
        true
    }

    open spec fn src_at(&self, i: int) -> Option<S> {
        Some(*self)
    }

    fn next_pixel(&mut self) -> (r: Option<S>) {
        Some(*self)
    }
}

/// Iterator over the pixels of a region of a `Raster`, row-major, left to
/// right then top to bottom. The bounds are the region clipped to
/// non-negative, in-raster coordinates; once exhausted it stays exhausted.
/// Create one with `Raster::region_iter`.
pub struct RasterIter<'a, P> {
    raster: &'a Raster<P>,
    left: u32,
    right: u32,
    bottom: u32,
    x: u32,
    y: u32,
    done: bool,
}

impl<P: Pixel> Raster<P> {
    /// Columns `a..b` of row `y`, as stored in the buffer.
    pub open spec fn spec_row_seg(&self, y: int, a: int, b: int) -> Seq<P> {
        Seq::new(
            if a <= b {
                (b - a) as nat
            } else {
                0
            },
            |i: int| self.spec_pixels()[y * self.spec_width() + a + i],
        )
    }

    /// Columns `left..right` of rows `y..bottom`, row-major.
    pub open spec fn spec_rows(&self, left: int, right: int, y: int, bottom: int) -> Seq<P>
        decreases bottom - y,
    {
        if y >= bottom {
            Seq::empty()
        } else {
            self.spec_row_seg(y, left, right) + self.spec_rows(left, right, y + 1, bottom)
        }
    }

    /// A column coordinate clipped to `[0, width]`.
    pub open spec fn clip_h(&self, v: int) -> int {
        if v < 0 {
            0
        } else if v > self.spec_width() {
            self.spec_width() as int
        } else {
            v
        }
    }

    /// A row coordinate clipped to `[0, height]`.
    pub open spec fn clip_v(&self, v: int) -> int {
        if v < 0 {
            0
        } else if v > self.spec_height() {
            self.spec_height() as int
        } else {
            v
        }
    }

    /// The pixels of `reg` clipped against the raster bounds, row-major.
    pub open spec fn spec_region_seq(&self, reg: Region) -> Seq<P> {
        self.spec_rows(
            self.clip_h(reg.x as int),
            self.clip_h(reg.spec_right()),
            self.clip_v(reg.y as int),
            self.clip_v(reg.spec_bottom()),
        )
    }

    /// Get an iterator over the pixels of `reg` clipped against the raster
    /// bounds.
    pub fn region_iter<'a, R: IntoRegion>(&'a self, reg: R) -> (r: RasterIter<'a, P>)
        requires
            self.wf(),
        ensures
            r.src_wf(),
            r.remaining() == self.spec_region_seq(reg.spec_region()),
    {
        let reg = reg.into_region();
        RasterIter::new(self, reg)
    }
}

impl<'a, P: Pixel> RasterIter<'a, P> {
    /// The pixels this iterator will still yield, in order.
    pub closed spec fn remaining(&self) -> Seq<P> {
        if self.done {
            Seq::empty()
        } else {
            self.raster.spec_row_seg(self.y as int, self.x as int, self.right as int)
                + self.raster.spec_rows(
                self.left as int,
                self.right as int,
                self.y as int + 1,
                self.bottom as int,
            )
        }
    }

    /// Validity of the cursor: while not exhausted it sits inside the
    /// clipped bounds, which in turn lie inside the raster.
    pub closed spec fn iter_wf(&self) -> bool {
        &&& self.raster.wf()
        &&& !self.done ==> {
            &&& self.left < self.right <= self.raster.spec_width()
            &&& self.left <= self.x <= self.right
            &&& self.y < self.bottom <= self.raster.spec_height()
        }
    }

    /// Create a new raster pixel iterator over `region` clipped against the
    /// raster bounds.
    fn new(raster: &'a Raster<P>, region: Region) -> (r: RasterIter<'a, P>)
        requires
            raster.wf(),
        ensures
            r.src_wf(),
            r.remaining() == raster.spec_region_seq(region),
    {
        let rr = region.right();
        let rb = region.bottom();
        let left: u32 = clip_u32(region.x, raster.width());
        let right: u32 = clip_u32(rr, raster.width());
        let top: u32 = clip_u32(region.y, raster.height());
        let bottom: u32 = clip_u32(rb, raster.height());
        let done = !(left < right && top < bottom);
        let r = RasterIter { raster, left, right, bottom, x: left, y: top, done };
        proof {
            if done {
                if top < bottom {
                    lemma_rows_thin(raster, left as int, right as int, top as int, bottom as int);
                }
                assert(raster.spec_region_seq(region) =~= Seq::<P>::empty());
            }
        }
        r
    }
}

/// Clip a signed coordinate to `[0, limit]`.
fn clip_u32(v: i32, limit: u32) -> (r: u32)
    ensures
        r as int == if v < 0 {
            0
        } else if v > limit {
            limit as int
        } else {
            v as int
        },
{
    if v < 0 {
        0
    } else if (v as u32) > limit {
        limit
    } else {
        v as u32
    }
}

/// Rows of a segment without columns hold no pixels.
proof fn lemma_rows_thin<P: Pixel>(ra: &Raster<P>, left: int, right: int, y: int, bottom: int)
    requires
        right <= left,
    ensures
        ra.spec_rows(left, right, y, bottom) == Seq::<P>::empty(),
    decreases bottom - y,
{
    if y >= bottom {
    } else {
        lemma_rows_thin(ra, left, right, y + 1, bottom);
        assert(ra.spec_rows(left, right, y, bottom) =~= Seq::<P>::empty());
    }
}

/// A non-empty row segment is its first pixel followed by the rest.
proof fn lemma_row_seg_head<P: Pixel>(ra: &Raster<P>, y: int, a: int, b: int)
    requires
        a < b,
    ensures
        ra.spec_row_seg(y, a, b) == seq![ra.spec_pixels()[y * ra.spec_width() + a]]
            + ra.spec_row_seg(y, a + 1, b),
{
    assert(ra.spec_row_seg(y, a, b) =~= seq![ra.spec_pixels()[y * ra.spec_width() + a]]
        + ra.spec_row_seg(y, a + 1, b));
}

impl<'a, P: Pixel> PixelSource<P> for RasterIter<'a, P> {
    open spec fn src_wf(&self) -> bool {
        self.iter_wf()
    }

    open spec fn src_at(&self, i: int) -> Option<P> {
        if 0 <= i < self.remaining().len() {
            Some(self.remaining()[i])
        } else {
            None
        }
    }

    fn next_pixel(&mut self) -> (r: Option<P>) {
        if self.done {
            return None;
        }
        if self.x >= self.right {
            proof {
                assert(self.raster.spec_row_seg(
                    self.y as int,
                    self.x as int,
                    self.right as int,
                ) =~= Seq::<P>::empty());
            }
            self.x = self.left;
            self.y = self.y + 1;
            if self.y >= self.bottom {
                proof {
                    assert(old(self).remaining() =~= Seq::<P>::empty());
                }
                self.done = true;
                return None;
            }
        }
        let ghost mid = *self;
        proof {
            if old(self).x < old(self).right {
                lemma_row_seg_head(
                    self.raster,
                    self.y as int,
                    self.x as int,
                    self.right as int,
                );
            } else {
                assert(mid.remaining() == self.raster.spec_rows(
                    self.left as int,
                    self.right as int,
                    self.y as int,
                    self.bottom as int,
                ) + Seq::<P>::empty()) by {
                    assert(old(self).remaining() =~= mid.remaining());
                };
                lemma_row_seg_head(
                    self.raster,
                    self.y as int,
                    self.x as int,
                    self.right as int,
                );
            }
        }
        let p = self.raster.pixel(self.x, self.y);
        self.x = self.x + 1;
        proof {
            assert(mid.remaining() =~= seq![p] + self.remaining());
            assert(old(self).remaining() =~= seq![p] + self.remaining());
        }
        Some(p)
    }
}

impl<P: Pixel> Raster<P> {
    /// Leftmost column of the rectangle `set_region` writes: a negative
    /// origin collapses the axis to the raster's own extent, so the write
    /// becomes empty on that axis.
    pub open spec fn dest_x0(&self, reg: Region) -> int {
        if reg.x >= 0 {
            reg.x as int
        } else {
            self.spec_width() as int
        }
    }

    /// Column just right of the rectangle `set_region` writes.
    pub open spec fn dest_x1(&self, reg: Region) -> int {
        let x1 = self.dest_x0(reg) + reg.width;
        if x1 <= self.spec_width() {
            x1
        } else {
            self.spec_width() as int
        }
    }

    /// Topmost row of the rectangle `set_region` writes.
    pub open spec fn dest_y0(&self, reg: Region) -> int {
        if reg.y >= 0 {
            reg.y as int
        } else {
            self.spec_height() as int
        }
    }

    /// Row just below the rectangle `set_region` writes.
    pub open spec fn dest_y1(&self, reg: Region) -> int {
        let y1 = self.dest_y0(reg) + reg.height;
        if y1 <= self.spec_height() {
            y1
        } else {
            self.spec_height() as int
        }
    }

    /// Whether `set_region` writes the cell at column `xi` of row `yi`.
    pub open spec fn in_dest(&self, reg: Region, xi: int, yi: int) -> bool {
        &&& self.dest_x0(reg) <= xi < self.dest_x1(reg)
        &&& self.dest_y0(reg) <= yi < self.dest_y1(reg)
    }

    /// How many source pixels `set_region` consumes before it reaches the
    /// cell at column `xi` of row `yi` of the rectangle.
    pub open spec fn dest_index(&self, reg: Region, xi: int, yi: int) -> int {
        (yi - self.dest_y0(reg)) * (self.dest_x1(reg) - self.dest_x0(reg)) + (xi - self.dest_x0(
            reg,
        ))
    }

    /// Set a region of the raster from a pixel source, converting each
    /// source pixel into the raster's format.
    ///
    /// The written rectangle is the region clamped as `dest_x0` .. `dest_y1`
    /// describe; its cells are filled row-major from the source. A cell for
    /// which the source has nothing left keeps its old pixel, and source
    /// pixels beyond the rectangle are never consumed.
    pub fn set_region<R: IntoRegion, S: Pixel, I: PixelSource<S>>(&mut self, reg: R, src: I) where
        P: Convert<S>,

        requires
            old(self).wf(),
            src.src_wf(),
        ensures
            final(self).wf(),
            final(self).spec_width() == old(self).spec_width(),
            final(self).spec_height() == old(self).spec_height(),
            forall|xi: int, yi: int|
                old(self).in_dest(reg.spec_region(), xi, yi) ==> #[trigger] final(self).spec_pixel(
                    xi,
                    yi,
                ) == (match src.src_at(old(self).dest_index(reg.spec_region(), xi, yi)) {
                    Some(p) => P::spec_convert(p),
                    None => old(self).spec_pixel(xi, yi),
                }),
            forall|xi: int, yi: int|
                0 <= xi < old(self).spec_width() && 0 <= yi < old(self).spec_height() && !old(
                    self,
                ).in_dest(reg.spec_region(), xi, yi) ==> #[trigger] final(self).spec_pixel(xi, yi)
                    == old(self).spec_pixel(xi, yi),
    {
        let regv = reg.into_region();
        let ghost regs = reg.spec_region();
        let mut it = src;
        let ghost src0 = it;
        let x0: u32 = if regv.x >= 0 {
            regv.x as u32
        } else {
            self.width
        };
        let x1: u32 = {
            let wide = (x0 as u64) + (regv.width as u64);
            if wide <= (self.width as u64) {
                wide as u32
            } else {
                self.width
            }
        };
        let y0: u32 = if regv.y >= 0 {
            regv.y as u32
        } else {
            self.height
        };
        let y1: u32 = {
            let wide = (y0 as u64) + (regv.height as u64);
            if wide <= (self.height as u64) {
                wide as u32
            } else {
                self.height
            }
        };
        proof {
            assert(x0 as int == old(self).dest_x0(regs));
            assert(x1 as int == old(self).dest_x1(regs));
            assert(y0 as int == old(self).dest_y0(regs));
            assert(y1 as int == old(self).dest_y1(regs));
        }
        if y0 < y1 && x0 < x1 {
            let rw = x1 - x0;
            proof {
                assert((y0 as int - y0 as int) * (rw as int) == 0) by (nonlinear_arith);
            }
            let mut yi = y0;
            while yi < y1
                invariant
                    old(self).wf(),
                    self.wf(),
                    self.spec_width() == old(self).spec_width(),
                    self.spec_height() == old(self).spec_height(),
                    x0 as int == old(self).dest_x0(regs),
                    x1 as int == old(self).dest_x1(regs),
                    y0 as int == old(self).dest_y0(regs),
                    y1 as int == old(self).dest_y1(regs),
                    x0 < x1 <= self.spec_width(),
                    y0 <= yi <= y1 <= self.spec_height(),
                    rw == x1 - x0,
                    it.src_wf(),
                    forall|i: int|
                        0 <= i ==> #[trigger] it.src_at(i) == src0.src_at(
                            i + (yi - y0) * (rw as int),
                        ),
                    forall|xj: int, yj: int|
                        old(self).in_dest(regs, xj, yj) && yj < yi ==> #[trigger] self.spec_pixel(
                            xj,
                            yj,
                        ) == (match src0.src_at(old(self).dest_index(regs, xj, yj)) {
                            Some(p) => P::spec_convert(p),
                            None => old(self).spec_pixel(xj, yj),
                        }),
                    forall|xj: int, yj: int|
                        0 <= xj < old(self).spec_width() && 0 <= yj < old(self).spec_height()
                            && !(old(self).in_dest(regs, xj, yj) && yj < yi)
                            ==> #[trigger] self.spec_pixel(xj, yj) == old(self).spec_pixel(xj, yj),
                decreases y1 - yi,
            {
                let mut xi = x0;
                while xi < x1
                    invariant
                        old(self).wf(),
                        self.wf(),
                        self.spec_width() == old(self).spec_width(),
                        self.spec_height() == old(self).spec_height(),
                        x0 as int == old(self).dest_x0(regs),
                        x1 as int == old(self).dest_x1(regs),
                        y0 as int == old(self).dest_y0(regs),
                        y1 as int == old(self).dest_y1(regs),
                        x0 < x1 <= self.spec_width(),
                        y0 <= yi < y1 <= self.spec_height(),
                        x0 <= xi <= x1,
                        rw == x1 - x0,
                        it.src_wf(),
                        forall|i: int|
                            0 <= i ==> #[trigger] it.src_at(i) == src0.src_at(
                                i + (yi - y0) * (rw as int) + (xi - x0),
                            ),
                        forall|xj: int, yj: int|
                            old(self).in_dest(regs, xj, yj) && (yj < yi || (yj == yi && xj < xi))
                                ==> #[trigger] self.spec_pixel(xj, yj) == (match src0.src_at(
                                old(self).dest_index(regs, xj, yj),
                            ) {
                                Some(p) => P::spec_convert(p),
                                None => old(self).spec_pixel(xj, yj),
                            }),
                        forall|xj: int, yj: int|
                            0 <= xj < old(self).spec_width() && 0 <= yj < old(self).spec_height()
                                && !(old(self).in_dest(regs, xj, yj) && (yj < yi || (yj == yi && xj
                                < xi))) ==> #[trigger] self.spec_pixel(xj, yj) == old(
                                self,
                            ).spec_pixel(xj, yj),
                    decreases x1 - xi,
                {
                    let ghost self_before = *self;
                    let ghost k = old(self).dest_index(regs, xi as int, yi as int);
                    proof {
                        assert(k == (yi - y0) * (rw as int) + (xi - x0));
                        assert(it.src_at(0) == src0.src_at(k));
                    }
                    let v = it.next_pixel();
                    match v {
                        Some(p) => {
                            proof {
                                lemma_rowcol_index(
                                    self.spec_width() as int,
                                    self.spec_height() as int,
                                    xi as int,
                                    yi as int,
                                );
                                assert(self.pixels.len() == self.spec_pixels().len());
                            }
                            let i = (yi as usize) * (self.width as usize) + (xi as usize);
                            self.pixels[i] = P::convert(p);
                            proof {
                                assert forall|xj: int, yj: int|
                                    0 <= xj < self.spec_width() && 0 <= yj < self.spec_height()
                                        && !(xj == xi as int && yj == yi as int) implies #[trigger] self.spec_pixel(
                                    xj,
                                    yj,
                                ) == self_before.spec_pixel(xj, yj) by {
                                    lemma_rowcol_injective(
                                        self.spec_width() as int,
                                        xj,
                                        yj,
                                        xi as int,
                                        yi as int,
                                    );
                                    lemma_rowcol_index(
                                        self.spec_width() as int,
                                        self.spec_height() as int,
                                        xj,
                                        yj,
                                    );
                                }
                                assert(self.spec_pixel(xi as int, yi as int)
                                    == P::spec_convert(p));
                            }
                        },
                        None => {
                        },
                    }
                    xi = xi + 1;
                }
                proof {
                    assert((yi - y0) * (rw as int) + (rw as int) == (yi + 1 - y0) * (rw as int))
                        by (nonlinear_arith);
                    assert forall|xj: int, yj: int|
                        old(self).in_dest(regs, xj, yj) && (yj < yi || (yj == yi && xj
                            < x1 as int)) implies (old(self).in_dest(regs, xj, yj) && yj < yi
                        + 1) by {}
                }
                yi = yi + 1;
            }
        } else {
            proof {
                assert forall|xj: int, yj: int| !old(self).in_dest(regs, xj, yj) by {}
            }
        }
    }
}

/// Distinct cells of a `w`-wide buffer have distinct row-major indices.
proof fn lemma_rowcol_injective(w: int, x1: int, y1: int, x2: int, y2: int)
    requires
        0 <= x1 < w,
        0 <= x2 < w,
        0 <= y1,
        0 <= y2,
        !(x1 == x2 && y1 == y2),
    ensures
        y1 * w + x1 != y2 * w + x2,
{
    assert(y1 * w + x1 != y2 * w + x2) by (nonlinear_arith)
        requires
            0 <= x1 < w,
            0 <= x2 < w,
            0 <= y1,
            0 <= y2,
            !(x1 == x2 && y1 == y2),
    ;
}

/// Row `y` of a `w * h` buffer spans indices `[y * w, y * w + w)`, which lie
/// inside the buffer.
pub proof fn lemma_row_bounds(w: int, h: int, y: int)
    requires
        0 <= w,
        0 <= y < h,
    ensures
        0 <= y * w,
        (y + 1) * w <= w * h,
        y * w + w == (y + 1) * w,
{
    assert(0 <= y * w && (y + 1) * w <= w * h && y * w + w == (y + 1) * w) by (nonlinear_arith)
        requires
            0 <= w,
            0 <= y < h,
    ;
}

/// The row-major index of column `x` in row `y` lies inside a `w * h` buffer.
pub proof fn lemma_rowcol_index(w: int, h: int, x: int, y: int)
    requires
        0 <= x < w,
        0 <= y < h,
    ensures
        0 <= y * w + x < w * h,
{
    assert(0 <= y * w + x < w * h) by (nonlinear_arith)
        requires
            0 <= x < w,
            0 <= y < h,
    ;
}

} // verus!
