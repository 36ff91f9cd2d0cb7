//! Concrete integer pixel formats.
//!
//! Channels are one or two bytes wide; two-byte channels are laid out
//! little-endian. Conversions follow the usual raster conventions: a gray
//! value from color channels is their maximum, color channels from a gray
//! value replicate it, a mask carries only the alpha channel, and a format
//! without an alpha channel converts as if its alpha were at maximum.
use crate::pixel::Convert;
use crate::pixel::Pixel;
use vstd::arithmetic::div_mod::lemma_fundamental_div_mod_converse;
use vstd::prelude::*;

verus! {

/// Low byte of a two-byte channel.
pub open spec fn lo(v: u16) -> u8 {
    (v % 256) as u8
}

/// High byte of a two-byte channel.
pub open spec fn hi(v: u16) -> u8 {
    (v / 256) as u8
}

/// The two-byte channel encoded by a low and a high byte.
pub open spec fn u16_of(l: u8, h: u8) -> u16 {
    (l + h * 256) as u16
}

/// A one-byte channel widened to two bytes, spreading the value so that the
/// maximum maps to the maximum.
pub open spec fn widen(v: u8) -> u16 {
    (v * 257) as u16
}

/// A two-byte channel narrowed to one byte: its high byte.
pub open spec fn narrow(v: u16) -> u8 {
    hi(v)
}

/// Maximum of three one-byte channels.
pub open spec fn max3_u8(a: u8, b: u8, c: u8) -> u8 {
    if a >= b && a >= c {
        a
    } else if b >= c {
        b
    } else {
        c
    }
}

/// Maximum of three two-byte channels.
pub open spec fn max3_u16(a: u16, b: u16, c: u16) -> u16 {
    if a >= b && a >= c {
        a
    } else if b >= c {
        b
    } else {
        c
    }
}

/// Joining two bytes into a channel and splitting it gives the bytes back.
pub proof fn lemma_u16_join_split(l: u8, h: u8)
    ensures
        lo(u16_of(l, h)) == l,
        hi(u16_of(l, h)) == h,
{
    lemma_fundamental_div_mod_converse(l as int + h as int * 256, 256, h as int, l as int);
}

/// Split a two-byte channel into its low and high byte.
fn split_u16(v: u16) -> (r: (u8, u8))
    ensures
        r.0 == lo(v),
        r.1 == hi(v),
{
    ((v % 256) as u8, (v / 256) as u8)
}

/// Join a low and a high byte into a two-byte channel.
fn join_u16(l: u8, h: u8) -> (r: u16)
    ensures
        r == u16_of(l, h),
{
    (l as u16) + (h as u16) * 256
}

/// Widen a one-byte channel to two bytes.
fn widen_chan(v: u8) -> (r: u16)
    ensures
        r == widen(v),
{
    (v as u16) * 257
}

/// Narrow a two-byte channel to one byte.
fn narrow_chan(v: u16) -> (r: u8)
    ensures
        r == narrow(v),
{
    (v / 256) as u8
}

/// One-channel alpha mask, one byte.
#[derive(Clone, Copy, PartialEq, Eq, Structural, Debug)]
pub struct Mask8 {
    /// Coverage value.
    pub alpha: u8,
}

/// One-channel alpha mask, two bytes.
#[derive(Clone, Copy, PartialEq, Eq, Structural, Debug)]
pub struct Mask16 {
    /// Coverage value.
    pub alpha: u16,
}

/// Gray value, one byte, no alpha.
#[derive(Clone, Copy, PartialEq, Eq, Structural, Debug)]
pub struct SGray8 {
    /// Gray value.
    pub value: u8,
}

/// Gray value, two bytes, no alpha.
#[derive(Clone, Copy, PartialEq, Eq, Structural, Debug)]
pub struct SGray16 {
    /// Gray value.
    pub value: u16,
}

/// Gray value with alpha, one byte per channel.
#[derive(Clone, Copy, PartialEq, Eq, Structural, Debug)]
pub struct SGrayAlpha8 {
    /// Gray value.
    pub value: u8,
    /// Coverage value.
    pub alpha: u8,
}

/// Gray value with alpha, two bytes per channel.
#[derive(Clone, Copy, PartialEq, Eq, Structural, Debug)]
pub struct SGrayAlpha16 {
    /// Gray value.
    pub value: u16,
    /// Coverage value.
    pub alpha: u16,
}

/// Red, green and blue, one byte per channel, no alpha.
#[derive(Clone, Copy, PartialEq, Eq, Structural, Debug)]
pub struct SRgb8 {
    /// Red channel.
    pub red: u8,
    /// Green channel.
    pub green: u8,
    /// Blue channel.
    pub blue: u8,
}

/// Red, green and blue, two bytes per channel, no alpha.
#[derive(Clone, Copy, PartialEq, Eq, Structural, Debug)]
pub struct SRgb16 {
    /// Red channel.
    pub red: u16,
    /// Green channel.
    pub green: u16,
    /// Blue channel.
    pub blue: u16,
}

/// Red, green and blue with alpha, one byte per channel.
#[derive(Clone, Copy, PartialEq, Eq, Structural, Debug)]
pub struct SRgba8 {
    /// Red channel.
    pub red: u8,
    /// Green channel.
    pub green: u8,
    /// Blue channel.
    pub blue: u8,
    /// Coverage value.
    pub alpha: u8,
}

/// Red, green and blue with alpha, two bytes per channel.
#[derive(Clone, Copy, PartialEq, Eq, Structural, Debug)]
pub struct SRgba16 {
    /// Red channel.
    pub red: u16,
    /// Green channel.
    pub green: u16,
    /// Blue channel.
    pub blue: u16,
    /// Coverage value.
    pub alpha: u16,
}

impl Mask8 {
    /// Mask with the given coverage.
    pub fn new(alpha: u8) -> (r: Mask8)
        ensures
            r == (Mask8 { alpha }),
    {
        Mask8 { alpha }
    }
}

impl Pixel for Mask8 {
    open spec fn spec_default() -> Mask8 {
        Mask8 { alpha: 0 }
    }

    open spec fn spec_size() -> usize {
        1
    }

    open spec fn spec_channel_bytes() -> usize {
        1
    }

    open spec fn spec_bytes(self) -> Seq<u8> {
        seq![self.alpha]
    }

    open spec fn spec_from_bytes(b: Seq<u8>) -> Mask8 {
        Mask8 { alpha: b[0] }
    }

    proof fn lemma_bytes_len(self) {
    }

    proof fn lemma_bytes_roundtrip(b: Seq<u8>) {
        assert(Mask8::spec_from_bytes(b).spec_bytes() =~= b);
    }

    fn default_pixel() -> (r: Mask8) {
        Mask8 { alpha: 0 }
    }

    fn size_bytes() -> (r: usize) {
        1
    }

    fn channel_bytes() -> (r: usize) {
        1
    }

    fn push_bytes(self, out: &mut Vec<u8>) {
        out.push(self.alpha);
    }

    fn read_bytes(b: &Vec<u8>, off: usize) -> (r: Mask8) {
        Mask8 { alpha: b[off] }
    }
}

impl Pixel for Mask16 {
    open spec fn spec_default() -> Mask16 {
        Mask16 { alpha: 0 }
    }

    open spec fn spec_size() -> usize {
        2
    }

    open spec fn spec_channel_bytes() -> usize {
        2
    }

    open spec fn spec_bytes(self) -> Seq<u8> {
        seq![lo(self.alpha), hi(self.alpha)]
    }

    open spec fn spec_from_bytes(b: Seq<u8>) -> Mask16 {
        Mask16 { alpha: u16_of(b[0], b[1]) }
    }

    proof fn lemma_bytes_len(self) {
    }

    proof fn lemma_bytes_roundtrip(b: Seq<u8>) {
        lemma_u16_join_split(b[0], b[1]);
        assert(Mask16::spec_from_bytes(b).spec_bytes() =~= b);
    }

    fn default_pixel() -> (r: Mask16) {
        Mask16 { alpha: 0 }
    }

    fn size_bytes() -> (r: usize) {
        2
    }

    fn channel_bytes() -> (r: usize) {
        2
    }

    fn push_bytes(self, out: &mut Vec<u8>) {
        let (alpha_l, alpha_h) = split_u16(self.alpha);
        out.push(alpha_l);
        out.push(alpha_h);
        proof {
            assert(out@ =~= old(out)@ + self.spec_bytes());
        }
    }

    fn read_bytes(b: &Vec<u8>, off: usize) -> (r: Mask16) {
        proof {
            assert(b.len() == b@.len());
        }
        let r = Mask16 { alpha: join_u16(b[off], b[off + 1]) };
        proof {
            assert(r.spec_bytes() =~= b@.subrange(off as int, off as int + 2));
            Mask16::lemma_bytes_roundtrip(b@.subrange(off as int, off as int + 2));
        }
        r
    }
}

impl Pixel for SGray8 {
    open spec fn spec_default() -> SGray8 {
        SGray8 { value: 0 }
    }

    open spec fn spec_size() -> usize {
        1
    }

    open spec fn spec_channel_bytes() -> usize {
        1
    }

    open spec fn spec_bytes(self) -> Seq<u8> {
        seq![self.value]
    }

    open spec fn spec_from_bytes(b: Seq<u8>) -> SGray8 {
        SGray8 { value: b[0] }
    }

    proof fn lemma_bytes_len(self) {
    }

    proof fn lemma_bytes_roundtrip(b: Seq<u8>) {
        assert(SGray8::spec_from_bytes(b).spec_bytes() =~= b);
    }

    fn default_pixel() -> (r: SGray8) {
        SGray8 { value: 0 }
    }

    fn size_bytes() -> (r: usize) {
        1
    }

    fn channel_bytes() -> (r: usize) {
        1
    }

    fn push_bytes(self, out: &mut Vec<u8>) {
        out.push(self.value);
    }

    fn read_bytes(b: &Vec<u8>, off: usize) -> (r: SGray8) {
        proof {
            assert(b.len() == b@.len());
        }
        let r = SGray8 { value: b[off] };
        proof {
            assert(r.spec_bytes() =~= b@.subrange(off as int, off as int + 1));
            SGray8::lemma_bytes_roundtrip(b@.subrange(off as int, off as int + 1));
        }
        r
    }
}

impl Pixel for SGray16 {
    open spec fn spec_default() -> SGray16 {
        SGray16 { value: 0 }
    }

    open spec fn spec_size() -> usize {
        2
    }

    open spec fn spec_channel_bytes() -> usize {
        2
    }

    open spec fn spec_bytes(self) -> Seq<u8> {
        seq![lo(self.value), hi(self.value)]
    }

    open spec fn spec_from_bytes(b: Seq<u8>) -> SGray16 {
        SGray16 { value: u16_of(b[0], b[1]) }
    }

    proof fn lemma_bytes_len(self) {
    }

    proof fn lemma_bytes_roundtrip(b: Seq<u8>) {
        lemma_u16_join_split(b[0], b[1]);
        assert(SGray16::spec_from_bytes(b).spec_bytes() =~= b);
    }

    fn default_pixel() -> (r: SGray16) {
        SGray16 { value: 0 }
    }

    fn size_bytes() -> (r: usize) {
        2
    }

    fn channel_bytes() -> (r: usize) {
        2
    }

    fn push_bytes(self, out: &mut Vec<u8>) {
        let (value_l, value_h) = split_u16(self.value);
        out.push(value_l);
        out.push(value_h);
        proof {
            assert(out@ =~= old(out)@ + self.spec_bytes());
        }
    }

    fn read_bytes(b: &Vec<u8>, off: usize) -> (r: SGray16) {
        proof {
            assert(b.len() == b@.len());
        }
        let r = SGray16 { value: join_u16(b[off], b[off + 1]) };
        proof {
            assert(r.spec_bytes() =~= b@.subrange(off as int, off as int + 2));
            SGray16::lemma_bytes_roundtrip(b@.subrange(off as int, off as int + 2));
        }
        r
    }
}

impl Pixel for SGrayAlpha8 {
    open spec fn spec_default() -> SGrayAlpha8 {
        SGrayAlpha8 { value: 0, alpha: 0 }
    }

    open spec fn spec_size() -> usize {
        2
    }

    open spec fn spec_channel_bytes() -> usize {
        1
    }

    open spec fn spec_bytes(self) -> Seq<u8> {
        seq![self.value, self.alpha]
    }

    open spec fn spec_from_bytes(b: Seq<u8>) -> SGrayAlpha8 {
        SGrayAlpha8 { value: b[0], alpha: b[1] }
    }

    proof fn lemma_bytes_len(self) {
    }

    proof fn lemma_bytes_roundtrip(b: Seq<u8>) {
        assert(SGrayAlpha8::spec_from_bytes(b).spec_bytes() =~= b);
    }

    fn default_pixel() -> (r: SGrayAlpha8) {
        SGrayAlpha8 { value: 0, alpha: 0 }
    }

    fn size_bytes() -> (r: usize) {
        2
    }

    fn channel_bytes() -> (r: usize) {
        1
    }

    fn push_bytes(self, out: &mut Vec<u8>) {
        out.push(self.value);
        out.push(self.alpha);
    }

    fn read_bytes(b: &Vec<u8>, off: usize) -> (r: SGrayAlpha8) {
        proof {
            assert(b.len() == b@.len());
        }
        let r = SGrayAlpha8 { value: b[off], alpha: b[off + 1] };
        proof {
            assert(r.spec_bytes() =~= b@.subrange(off as int, off as int + 2));
            SGrayAlpha8::lemma_bytes_roundtrip(b@.subrange(off as int, off as int + 2));
        }
        r
    }
}

impl Pixel for SGrayAlpha16 {
    open spec fn spec_default() -> SGrayAlpha16 {
        SGrayAlpha16 { value: 0, alpha: 0 }
    }

    open spec fn spec_size() -> usize {
        4
    }

    open spec fn spec_channel_bytes() -> usize {
        2
    }

    open spec fn spec_bytes(self) -> Seq<u8> {
        seq![lo(self.value), hi(self.value), lo(self.alpha), hi(self.alpha)]
    }

    open spec fn spec_from_bytes(b: Seq<u8>) -> SGrayAlpha16 {
        SGrayAlpha16 { value: u16_of(b[0], b[1]), alpha: u16_of(b[2], b[3]) }
    }

    proof fn lemma_bytes_len(self) {
    }

    proof fn lemma_bytes_roundtrip(b: Seq<u8>) {
        lemma_u16_join_split(b[0], b[1]);
        lemma_u16_join_split(b[2], b[3]);
        assert(SGrayAlpha16::spec_from_bytes(b).spec_bytes() =~= b);
    }

    fn default_pixel() -> (r: SGrayAlpha16) {
        SGrayAlpha16 { value: 0, alpha: 0 }
    }

    fn size_bytes() -> (r: usize) {
        4
    }

    fn channel_bytes() -> (r: usize) {
        2
    }

    fn push_bytes(self, out: &mut Vec<u8>) {
        let (value_l, value_h) = split_u16(self.value);
        out.push(value_l);
        out.push(value_h);
        let (alpha_l, alpha_h) = split_u16(self.alpha);
        out.push(alpha_l);
        out.push(alpha_h);
        proof {
            assert(out@ =~= old(out)@ + self.spec_bytes());
        }
    }

    fn read_bytes(b: &Vec<u8>, off: usize) -> (r: SGrayAlpha16) {
        proof {
            assert(b.len() == b@.len());
        }
        let r = SGrayAlpha16 { value: join_u16(b[off], b[off + 1]), alpha: join_u16(b[off + 2], b[off + 3]) };
        proof {
            assert(r.spec_bytes() =~= b@.subrange(off as int, off as int + 4));
            SGrayAlpha16::lemma_bytes_roundtrip(b@.subrange(off as int, off as int + 4));
        }
        r
    }
}

impl Pixel for SRgb8 {
    open spec fn spec_default() -> SRgb8 {
        SRgb8 { red: 0, green: 0, blue: 0 }
    }

    open spec fn spec_size() -> usize {
        3
    }

    open spec fn spec_channel_bytes() -> usize {
        1
    }

    open spec fn spec_bytes(self) -> Seq<u8> {
        seq![self.red, self.green, self.blue]
    }

    open spec fn spec_from_bytes(b: Seq<u8>) -> SRgb8 {
        SRgb8 { red: b[0], green: b[1], blue: b[2] }
    }

    proof fn lemma_bytes_len(self) {
    }

    proof fn lemma_bytes_roundtrip(b: Seq<u8>) {
        assert(SRgb8::spec_from_bytes(b).spec_bytes() =~= b);
    }

    fn default_pixel() -> (r: SRgb8) {
        SRgb8 { red: 0, green: 0, blue: 0 }
    }

    fn size_bytes() -> (r: usize) {
        3
    }

    fn channel_bytes() -> (r: usize) {
        1
    }

    fn push_bytes(self, out: &mut Vec<u8>) {
        out.push(self.red);
        out.push(self.green);
        out.push(self.blue);
    }

    fn read_bytes(b: &Vec<u8>, off: usize) -> (r: SRgb8) {
        proof {
            assert(b.len() == b@.len());
        }
        let r = SRgb8 { red: b[off], green: b[off + 1], blue: b[off + 2] };
        proof {
            assert(r.spec_bytes() =~= b@.subrange(off as int, off as int + 3));
            SRgb8::lemma_bytes_roundtrip(b@.subrange(off as int, off as int + 3));
        }
        r
    }
}

impl Pixel for SRgb16 {
    open spec fn spec_default() -> SRgb16 {
        SRgb16 { red: 0, green: 0, blue: 0 }
    }

    open spec fn spec_size() -> usize {
        6
    }

    open spec fn spec_channel_bytes() -> usize {
        2
    }

    open spec fn spec_bytes(self) -> Seq<u8> {
        seq![lo(self.red), hi(self.red), lo(self.green), hi(self.green), lo(self.blue), hi(self.blue)]
    }

    open spec fn spec_from_bytes(b: Seq<u8>) -> SRgb16 {
        SRgb16 { red: u16_of(b[0], b[1]), green: u16_of(b[2], b[3]), blue: u16_of(b[4], b[5]) }
    }

    proof fn lemma_bytes_len(self) {
    }

    proof fn lemma_bytes_roundtrip(b: Seq<u8>) {
        lemma_u16_join_split(b[0], b[1]);
        lemma_u16_join_split(b[2], b[3]);
        lemma_u16_join_split(b[4], b[5]);
        assert(SRgb16::spec_from_bytes(b).spec_bytes() =~= b);
    }

    fn default_pixel() -> (r: SRgb16) {
        SRgb16 { red: 0, green: 0, blue: 0 }
    }

    fn size_bytes() -> (r: usize) {
        6
    }

    fn channel_bytes() -> (r: usize) {
        2
    }

    fn push_bytes(self, out: &mut Vec<u8>) {
        let (red_l, red_h) = split_u16(self.red);
        out.push(red_l);
        out.push(red_h);
        let (green_l, green_h) = split_u16(self.green);
        out.push(green_l);
        out.push(green_h);
        let (blue_l, blue_h) = split_u16(self.blue);
        out.push(blue_l);
        out.push(blue_h);
        proof {
            assert(out@ =~= old(out)@ + self.spec_bytes());
        }
    }

    fn read_bytes(b: &Vec<u8>, off: usize) -> (r: SRgb16) {
        proof {
            assert(b.len() == b@.len());
        }
        let r = SRgb16 { red: join_u16(b[off], b[off + 1]), green: join_u16(b[off + 2], b[off + 3]), blue: join_u16(b[off + 4], b[off + 5]) };
        proof {
            assert(r.spec_bytes() =~= b@.subrange(off as int, off as int + 6));
            SRgb16::lemma_bytes_roundtrip(b@.subrange(off as int, off as int + 6));
        }
        r
    }
}

impl Pixel for SRgba8 {
    open spec fn spec_default() -> SRgba8 {
        SRgba8 { red: 0, green: 0, blue: 0, alpha: 0 }
    }

    open spec fn spec_size() -> usize {
        4
    }

    open spec fn spec_channel_bytes() -> usize {
        1
    }

    open spec fn spec_bytes(self) -> Seq<u8> {
        seq![self.red, self.green, self.blue, self.alpha]
    }

    open spec fn spec_from_bytes(b: Seq<u8>) -> SRgba8 {
        SRgba8 { red: b[0], green: b[1], blue: b[2], alpha: b[3] }
    }

    proof fn lemma_bytes_len(self) {
    }

    proof fn lemma_bytes_roundtrip(b: Seq<u8>) {
        assert(SRgba8::spec_from_bytes(b).spec_bytes() =~= b);
    }

    fn default_pixel() -> (r: SRgba8) {
        SRgba8 { red: 0, green: 0, blue: 0, alpha: 0 }
    }

    fn size_bytes() -> (r: usize) {
        4
    }

    fn channel_bytes() -> (r: usize) {
        1
    }

    fn push_bytes(self, out: &mut Vec<u8>) {
        out.push(self.red);
        out.push(self.green);
        out.push(self.blue);
        out.push(self.alpha);
    }

    fn read_bytes(b: &Vec<u8>, off: usize) -> (r: SRgba8) {
        proof {
            assert(b.len() == b@.len());
        }
        let r = SRgba8 { red: b[off], green: b[off + 1], blue: b[off + 2], alpha: b[off + 3] };
        proof {
            assert(r.spec_bytes() =~= b@.subrange(off as int, off as int + 4));
            SRgba8::lemma_bytes_roundtrip(b@.subrange(off as int, off as int + 4));
        }
        r
    }
}

impl Pixel for SRgba16 {
    open spec fn spec_default() -> SRgba16 {
        SRgba16 { red: 0, green: 0, blue: 0, alpha: 0 }
    }

    open spec fn spec_size() -> usize {
        8
    }

    open spec fn spec_channel_bytes() -> usize {
        2
    }

    open spec fn spec_bytes(self) -> Seq<u8> {
        seq![lo(self.red), hi(self.red), lo(self.green), hi(self.green), lo(self.blue), hi(self.blue), lo(self.alpha), hi(self.alpha)]
    }

    open spec fn spec_from_bytes(b: Seq<u8>) -> SRgba16 {
        SRgba16 { red: u16_of(b[0], b[1]), green: u16_of(b[2], b[3]), blue: u16_of(b[4], b[5]), alpha: u16_of(b[6], b[7]) }
    }

    proof fn lemma_bytes_len(self) {
    }

    proof fn lemma_bytes_roundtrip(b: Seq<u8>) {
        lemma_u16_join_split(b[0], b[1]);
        lemma_u16_join_split(b[2], b[3]);
        lemma_u16_join_split(b[4], b[5]);
        lemma_u16_join_split(b[6], b[7]);
        assert(SRgba16::spec_from_bytes(b).spec_bytes() =~= b);
    }

    fn default_pixel() -> (r: SRgba16) {
        SRgba16 { red: 0, green: 0, blue: 0, alpha: 0 }
    }

    fn size_bytes() -> (r: usize) {
        8
    }

    fn channel_bytes() -> (r: usize) {
        2
    }

    fn push_bytes(self, out: &mut Vec<u8>) {
        let (red_l, red_h) = split_u16(self.red);
        out.push(red_l);
        out.push(red_h);
        let (green_l, green_h) = split_u16(self.green);
        out.push(green_l);
        out.push(green_h);
        let (blue_l, blue_h) = split_u16(self.blue);
        out.push(blue_l);
        out.push(blue_h);
        let (alpha_l, alpha_h) = split_u16(self.alpha);
        out.push(alpha_l);
        out.push(alpha_h);
        proof {
            assert(out@ =~= old(out)@ + self.spec_bytes());
        }
    }

    fn read_bytes(b: &Vec<u8>, off: usize) -> (r: SRgba16) {
        proof {
            assert(b.len() == b@.len());
        }
        let r = SRgba16 { red: join_u16(b[off], b[off + 1]), green: join_u16(b[off + 2], b[off + 3]), blue: join_u16(b[off + 4], b[off + 5]), alpha: join_u16(b[off + 6], b[off + 7]) };
        proof {
            assert(r.spec_bytes() =~= b@.subrange(off as int, off as int + 8));
            SRgba16::lemma_bytes_roundtrip(b@.subrange(off as int, off as int + 8));
        }
        r
    }
}

/// A raw byte sets a one-byte mask's coverage directly.
impl Convert<u8> for Mask8 {
    open spec fn spec_convert(s: u8) -> Mask8 {
        Mask8 { alpha: s }
    }

    fn convert(s: u8) -> (r: Mask8) {
        Mask8 { alpha: s }
    }
}

/// A raw word sets a two-byte mask's coverage directly.
impl Convert<u16> for Mask16 {
    open spec fn spec_convert(s: u16) -> Mask16 {
        Mask16 { alpha: s }
    }

    fn convert(s: u16) -> (r: Mask16) {
        Mask16 { alpha: s }
    }
}

/// A one-byte mask widens its coverage channel.
impl Convert<Mask8> for Mask16 {
    open spec fn spec_convert(s: Mask8) -> Mask16 {
        Mask16 { alpha: widen(s.alpha) }
    }

    fn convert(s: Mask8) -> (r: Mask16) {
        Mask16 { alpha: widen_chan(s.alpha) }
    }
}

/// A one-byte gray value widens its channel.
impl Convert<SGray8> for SGray16 {
    open spec fn spec_convert(s: SGray8) -> SGray16 {
        SGray16 { value: widen(s.value) }
    }

    fn convert(s: SGray8) -> (r: SGray16) {
        SGray16 { value: widen_chan(s.value) }
    }
}

/// A gray value replicates into the three color channels.
impl Convert<SGray8> for SRgb8 {
    open spec fn spec_convert(s: SGray8) -> SRgb8 {
        SRgb8 { red: s.value, green: s.value, blue: s.value }
    }

    fn convert(s: SGray8) -> (r: SRgb8) {
        SRgb8 { red: s.value, green: s.value, blue: s.value }
    }
}

/// The gray value of a color pixel is its largest channel, narrowed.
impl Convert<SRgb16> for SGray8 {
    open spec fn spec_convert(s: SRgb16) -> SGray8 {
        SGray8 { value: narrow(max3_u16(s.red, s.green, s.blue)) }
    }

    fn convert(s: SRgb16) -> (r: SGray8) {
        SGray8 { value: narrow_chan(pick_max3_u16(s.red, s.green, s.blue)) }
    }
}

/// A mask carries only the coverage of a gray-with-alpha pixel.
impl Convert<SGrayAlpha8> for Mask16 {
    open spec fn spec_convert(s: SGrayAlpha8) -> Mask16 {
        Mask16 { alpha: widen(s.alpha) }
    }

    fn convert(s: SGrayAlpha8) -> (r: Mask16) {
        Mask16 { alpha: widen_chan(s.alpha) }
    }
}

/// A mask becomes full gray with the mask as coverage.
impl Convert<Mask16> for SGrayAlpha8 {
    open spec fn spec_convert(s: Mask16) -> SGrayAlpha8 {
        SGrayAlpha8 { value: 255, alpha: narrow(s.alpha) }
    }

    fn convert(s: Mask16) -> (r: SGrayAlpha8) {
        SGrayAlpha8 { value: 255, alpha: narrow_chan(s.alpha) }
    }
}

/// One-byte color channels widen.
impl Convert<SRgb8> for SRgb16 {
    open spec fn spec_convert(s: SRgb8) -> SRgb16 {
        SRgb16 { red: widen(s.red), green: widen(s.green), blue: widen(s.blue) }
    }

    fn convert(s: SRgb8) -> (r: SRgb16) {
        SRgb16 { red: widen_chan(s.red), green: widen_chan(s.green), blue: widen_chan(s.blue) }
    }
}

/// A pixel without alpha converts as fully covered.
impl Convert<SRgb8> for SRgba8 {
    open spec fn spec_convert(s: SRgb8) -> SRgba8 {
        SRgba8 { red: s.red, green: s.green, blue: s.blue, alpha: 255 }
    }

    fn convert(s: SRgb8) -> (r: SRgba8) {
        SRgba8 { red: s.red, green: s.green, blue: s.blue, alpha: 255 }
    }
}

/// One-byte color widens; absent alpha is full coverage.
impl Convert<SRgb8> for SRgba16 {
    open spec fn spec_convert(s: SRgb8) -> SRgba16 {
        SRgba16 { red: widen(s.red), green: widen(s.green), blue: widen(s.blue), alpha: 65535 }
    }

    fn convert(s: SRgb8) -> (r: SRgba16) {
        SRgba16 { red: widen_chan(s.red), green: widen_chan(s.green), blue: widen_chan(s.blue), alpha: 65535 }
    }
}

/// The gray value of a color pixel is its largest channel.
impl Convert<SRgb8> for SGray8 {
    open spec fn spec_convert(s: SRgb8) -> SGray8 {
        SGray8 { value: max3_u8(s.red, s.green, s.blue) }
    }

    fn convert(s: SRgb8) -> (r: SGray8) {
        SGray8 { value: pick_max3_u8(s.red, s.green, s.blue) }
    }
}

/// The gray value of a color pixel is its largest channel, widened.
impl Convert<SRgb8> for SGray16 {
    open spec fn spec_convert(s: SRgb8) -> SGray16 {
        SGray16 { value: widen(max3_u8(s.red, s.green, s.blue)) }
    }

    fn convert(s: SRgb8) -> (r: SGray16) {
        SGray16 { value: widen_chan(pick_max3_u8(s.red, s.green, s.blue)) }
    }
}

/// Largest channel as gray; absent alpha is full coverage.
impl Convert<SRgb8> for SGrayAlpha8 {
    open spec fn spec_convert(s: SRgb8) -> SGrayAlpha8 {
        SGrayAlpha8 { value: max3_u8(s.red, s.green, s.blue), alpha: 255 }
    }

    fn convert(s: SRgb8) -> (r: SGrayAlpha8) {
        SGrayAlpha8 { value: pick_max3_u8(s.red, s.green, s.blue), alpha: 255 }
    }
}

/// Largest channel as gray, widened; absent alpha is full coverage.
impl Convert<SRgb8> for SGrayAlpha16 {
    open spec fn spec_convert(s: SRgb8) -> SGrayAlpha16 {
        SGrayAlpha16 { value: widen(max3_u8(s.red, s.green, s.blue)), alpha: 65535 }
    }

    fn convert(s: SRgb8) -> (r: SGrayAlpha16) {
        SGrayAlpha16 { value: widen_chan(pick_max3_u8(s.red, s.green, s.blue)), alpha: 65535 }
    }
}

/// A mask carries coverage only; a pixel without alpha is fully covered.
impl Convert<SRgb8> for Mask8 {
    open spec fn spec_convert(s: SRgb8) -> Mask8 {
        Mask8 { alpha: 255 }
    }

    fn convert(s: SRgb8) -> (r: Mask8) {
        Mask8 { alpha: 255 }
    }
}

/// A mask carries coverage only; a pixel without alpha is fully covered.
impl Convert<SRgb8> for Mask16 {
    open spec fn spec_convert(s: SRgb8) -> Mask16 {
        Mask16 { alpha: 65535 }
    }

    fn convert(s: SRgb8) -> (r: Mask16) {
        Mask16 { alpha: 65535 }
    }
}

/// A mask becomes full color; its coverage has no color channel to go to.
impl Convert<Mask8> for SRgb8 {
    open spec fn spec_convert(s: Mask8) -> SRgb8 {
        SRgb8 { red: 255, green: 255, blue: 255 }
    }

    fn convert(s: Mask8) -> (r: SRgb8) {
        SRgb8 { red: 255, green: 255, blue: 255 }
    }
}

/// A mask becomes full color; its coverage has no color channel to go to.
impl Convert<Mask8> for SRgb16 {
    open spec fn spec_convert(s: Mask8) -> SRgb16 {
        SRgb16 { red: 65535, green: 65535, blue: 65535 }
    }

    fn convert(s: Mask8) -> (r: SRgb16) {
        SRgb16 { red: 65535, green: 65535, blue: 65535 }
    }
}

/// A mask becomes full color with the mask as coverage.
impl Convert<Mask8> for SRgba8 {
    open spec fn spec_convert(s: Mask8) -> SRgba8 {
        SRgba8 { red: 255, green: 255, blue: 255, alpha: s.alpha }
    }

    fn convert(s: Mask8) -> (r: SRgba8) {
        SRgba8 { red: 255, green: 255, blue: 255, alpha: s.alpha }
    }
}

/// A mask becomes full color with the widened mask as coverage.
impl Convert<Mask8> for SRgba16 {
    open spec fn spec_convert(s: Mask8) -> SRgba16 {
        SRgba16 { red: 65535, green: 65535, blue: 65535, alpha: widen(s.alpha) }
    }

    fn convert(s: Mask8) -> (r: SRgba16) {
        SRgba16 { red: 65535, green: 65535, blue: 65535, alpha: widen_chan(s.alpha) }
    }
}

/// A mask becomes full gray; its coverage has no gray channel to go to.
impl Convert<Mask8> for SGray8 {
    open spec fn spec_convert(s: Mask8) -> SGray8 {
        SGray8 { value: 255 }
    }

    fn convert(s: Mask8) -> (r: SGray8) {
        SGray8 { value: 255 }
    }
}

/// A mask becomes full gray; its coverage has no gray channel to go to.
impl Convert<Mask8> for SGray16 {
    open spec fn spec_convert(s: Mask8) -> SGray16 {
        SGray16 { value: 65535 }
    }

    fn convert(s: Mask8) -> (r: SGray16) {
        SGray16 { value: 65535 }
    }
}

/// A mask becomes full gray with the mask as coverage.
impl Convert<Mask8> for SGrayAlpha8 {
    open spec fn spec_convert(s: Mask8) -> SGrayAlpha8 {
        SGrayAlpha8 { value: 255, alpha: s.alpha }
    }

    fn convert(s: Mask8) -> (r: SGrayAlpha8) {
        SGrayAlpha8 { value: 255, alpha: s.alpha }
    }
}

/// A mask becomes full gray with the widened mask as coverage.
impl Convert<Mask8> for SGrayAlpha16 {
    open spec fn spec_convert(s: Mask8) -> SGrayAlpha16 {
        SGrayAlpha16 { value: 65535, alpha: widen(s.alpha) }
    }

    fn convert(s: Mask8) -> (r: SGrayAlpha16) {
        SGrayAlpha16 { value: 65535, alpha: widen_chan(s.alpha) }
    }
}

/// Pick the largest of three one-byte channels.
fn pick_max3_u8(a: u8, b: u8, c: u8) -> (r: u8)
    ensures
        r == max3_u8(a, b, c),
{
    if a >= b && a >= c {
        a
    } else if b >= c {
        b
    } else {
        c
    }
}

/// Pick the largest of three two-byte channels.
fn pick_max3_u16(a: u16, b: u16, c: u16) -> (r: u16)
    ensures
        r == max3_u16(a, b, c),
{
    if a >= b && a >= c {
        a
    } else if b >= c {
        b
    } else {
        c
    }
}

impl Mask16 {
    /// Mask with the given coverage.
    pub fn new(alpha: u16) -> (r: Mask16)
        ensures
            r == (Mask16 { alpha }),
    {
        Mask16 { alpha }
    }
}

impl SGray8 {
    /// Gray pixel with the given value.
    pub fn new(value: u8) -> (r: SGray8)
        ensures
            r == (SGray8 { value }),
    {
        SGray8 { value }
    }
}

impl From<u8> for SGray8 {
    fn from(value: u8) -> (r: SGray8) {
        SGray8 { value }
    }
}

impl vstd::std_specs::convert::FromSpecImpl<u8> for SGray8 {
    open spec fn obeys_from_spec() -> bool {
        true
    }

    open spec fn from_spec(value: u8) -> SGray8 {
        SGray8 { value }
    }
}

impl SGray16 {
    /// Gray pixel with the given value.
    pub fn new(value: u16) -> (r: SGray16)
        ensures
            r == (SGray16 { value }),
    {
        SGray16 { value }
    }
}

impl SGrayAlpha8 {
    /// Gray pixel with the given value and full coverage.
    pub fn new(value: u8) -> (r: SGrayAlpha8)
        ensures
            r == (SGrayAlpha8 { value, alpha: 255 }),
    {
        SGrayAlpha8 { value, alpha: 255 }
    }

    /// Gray pixel with the given value and coverage.
    pub fn with_alpha(value: u8, alpha: u8) -> (r: SGrayAlpha8)
        ensures
            r == (SGrayAlpha8 { value, alpha }),
    {
        SGrayAlpha8 { value, alpha }
    }
}

impl SGrayAlpha16 {
    /// Gray pixel with the given value and full coverage.
    pub fn new(value: u16) -> (r: SGrayAlpha16)
        ensures
            r == (SGrayAlpha16 { value, alpha: 65535 }),
    {
        SGrayAlpha16 { value, alpha: 65535 }
    }

    /// Gray pixel with the given value and coverage.
    pub fn with_alpha(value: u16, alpha: u16) -> (r: SGrayAlpha16)
        ensures
            r == (SGrayAlpha16 { value, alpha }),
    {
        SGrayAlpha16 { value, alpha }
    }
}

impl SRgb8 {
    /// Color pixel with the given channels.
    pub fn new(red: u8, green: u8, blue: u8) -> (r: SRgb8)
        ensures
            r == (SRgb8 { red, green, blue }),
    {
        SRgb8 { red, green, blue }
    }
}

impl SRgb16 {
    /// Color pixel with the given channels.
    pub fn new(red: u16, green: u16, blue: u16) -> (r: SRgb16)
        ensures
            r == (SRgb16 { red, green, blue }),
    {
        SRgb16 { red, green, blue }
    }
}

} // verus!
