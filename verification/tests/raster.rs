//! Raster construction, region writes and format-converting copies.
//!
//! The library keeps pixel formats behind the `Pixel` and `Convert`
//! capabilities. The formats defined in this file implement them with `f32`
//! channels, including the gamma decoding of sRGB-encoded gray, so the
//! copies can be exercised end to end; their capability stubs marked
//! unreachable exist only to satisfy the traits and are never run.
use pix::Convert;
use pix::Mask16;
use pix::Mask8;
use pix::Pixel;
use pix::RasterBuilder;
use pix::Region;
use pix::SGray16;
use pix::SGray8;
use pix::SGrayAlpha16;
use pix::SGrayAlpha8;
use pix::SRgb16;
use pix::SRgb8;
use pix::SRgba16;
use pix::SRgba8;
use vstd::prelude::Seq;

/// A single `f32` channel in the unit range.
#[derive(Clone, Copy, PartialEq, Debug)]
pub struct Ch32(f32);

impl Ch32 {
    pub fn new(v: f32) -> Self {
        Ch32(v)
    }
}

/// Alpha mask over any channel representation.
#[derive(Clone, Copy, PartialEq, Debug)]
pub struct Mask<C> {
    alpha: C,
}

impl<C> Mask<C> {
    pub fn new(alpha: C) -> Self {
        Mask { alpha }
    }
}

pub type Mask32 = Mask<Ch32>;

impl Pixel for Mask32 {
    fn spec_default() -> Self {
        unreachable!()
    }

    fn spec_size() -> usize {
        unreachable!()
    }

    fn spec_channel_bytes() -> usize {
        unreachable!()
    }

    fn spec_bytes(self) -> Seq<u8> {
        unreachable!()
    }

    fn spec_from_bytes(_b: Seq<u8>) -> Self {
        unreachable!()
    }

    fn lemma_bytes_len(self) {
        unreachable!()
    }

    fn lemma_bytes_roundtrip(_b: Seq<u8>) {
        unreachable!()
    }

    fn default_pixel() -> Self {
        Mask::new(Ch32::new(0.0))
    }

    fn size_bytes() -> usize {
        4
    }

    fn channel_bytes() -> usize {
        4
    }

    fn push_bytes(self, out: &mut Vec<u8>) {
        out.extend_from_slice(&self.alpha.0.to_le_bytes());
    }

    fn read_bytes(b: &Vec<u8>, off: usize) -> Self {
        Mask::new(Ch32::new(f32::from_le_bytes([b[off], b[off + 1], b[off + 2], b[off + 3]])))
    }
}

/// Linear (non-gamma-encoded) gray, two bytes.
#[derive(Clone, Copy, PartialEq, Debug)]
pub struct Gray16 {
    value: u16,
}

impl Pixel for Gray16 {
    fn spec_default() -> Self {
        unreachable!()
    }

    fn spec_size() -> usize {
        unreachable!()
    }

    fn spec_channel_bytes() -> usize {
        unreachable!()
    }

    fn spec_bytes(self) -> Seq<u8> {
        unreachable!()
    }

    fn spec_from_bytes(_b: Seq<u8>) -> Self {
        unreachable!()
    }

    fn lemma_bytes_len(self) {
        unreachable!()
    }

    fn lemma_bytes_roundtrip(_b: Seq<u8>) {
        unreachable!()
    }

    fn default_pixel() -> Self {
        Gray16 { value: 0 }
    }

    fn size_bytes() -> usize {
        2
    }

    fn channel_bytes() -> usize {
        2
    }

    fn push_bytes(self, out: &mut Vec<u8>) {
        out.extend_from_slice(&self.value.to_le_bytes());
    }

    fn read_bytes(b: &Vec<u8>, off: usize) -> Self {
        Gray16 { value: u16::from_le_bytes([b[off], b[off + 1]]) }
    }
}

/// Decode an sRGB-encoded two-byte channel into linear light.
fn srgb_to_linear_u16(v: u16) -> u16 {
    let s = v as f32 / 65535.0;
    let l = if s <= 0.04045 { s / 12.92 } else { ((s + 0.055) / 1.055).powf(2.4) };
    (l * 65535.0).round() as u16
}

impl Convert<SGray16> for Gray16 {
    fn spec_convert(_s: SGray16) -> Self {
        unreachable!()
    }

    fn convert(s: SGray16) -> Self {
        Gray16 { value: srgb_to_linear_u16(s.value) }
    }
}

fn chan8_to_f32(v: u8) -> f32 {
    v as f32 / 255.0
}

fn max3(a: u8, b: u8, c: u8) -> u8 {
    a.max(b).max(c)
}

#[derive(Clone, Copy, PartialEq, Debug)]
pub struct SRgb32 {
    red: f32,
    green: f32,
    blue: f32,
}

impl Pixel for SRgb32 {
    fn spec_default() -> Self {
        unreachable!()
    }

    fn spec_size() -> usize {
        unreachable!()
    }

    fn spec_channel_bytes() -> usize {
        unreachable!()
    }

    fn spec_bytes(self) -> Seq<u8> {
        unreachable!()
    }

    fn spec_from_bytes(_b: Seq<u8>) -> Self {
        unreachable!()
    }

    fn lemma_bytes_len(self) {
        unreachable!()
    }

    fn lemma_bytes_roundtrip(_b: Seq<u8>) {
        unreachable!()
    }

    fn default_pixel() -> Self {
        SRgb32 { red: 0.0, green: 0.0, blue: 0.0 }
    }

    fn size_bytes() -> usize {
        12
    }

    fn channel_bytes() -> usize {
        4
    }

    fn push_bytes(self, out: &mut Vec<u8>) {
        out.extend_from_slice(&self.red.to_le_bytes());
        out.extend_from_slice(&self.green.to_le_bytes());
        out.extend_from_slice(&self.blue.to_le_bytes());
    }

    fn read_bytes(b: &Vec<u8>, off: usize) -> Self {
        SRgb32 {
            red: f32::from_le_bytes([b[off], b[off + 1], b[off + 2], b[off + 3]]),
            green: f32::from_le_bytes([b[off + 4], b[off + 5], b[off + 6], b[off + 7]]),
            blue: f32::from_le_bytes([b[off + 8], b[off + 9], b[off + 10], b[off + 11]]),
        }
    }
}

#[derive(Clone, Copy, PartialEq, Debug)]
pub struct SRgba32 {
    red: f32,
    green: f32,
    blue: f32,
    alpha: f32,
}

impl Pixel for SRgba32 {
    fn spec_default() -> Self {
        unreachable!()
    }

    fn spec_size() -> usize {
        unreachable!()
    }

    fn spec_channel_bytes() -> usize {
        unreachable!()
    }

    fn spec_bytes(self) -> Seq<u8> {
        unreachable!()
    }

    fn spec_from_bytes(_b: Seq<u8>) -> Self {
        unreachable!()
    }

    fn lemma_bytes_len(self) {
        unreachable!()
    }

    fn lemma_bytes_roundtrip(_b: Seq<u8>) {
        unreachable!()
    }

    fn default_pixel() -> Self {
        SRgba32 { red: 0.0, green: 0.0, blue: 0.0, alpha: 0.0 }
    }

    fn size_bytes() -> usize {
        16
    }

    fn channel_bytes() -> usize {
        4
    }

    fn push_bytes(self, out: &mut Vec<u8>) {
        out.extend_from_slice(&self.red.to_le_bytes());
        out.extend_from_slice(&self.green.to_le_bytes());
        out.extend_from_slice(&self.blue.to_le_bytes());
        out.extend_from_slice(&self.alpha.to_le_bytes());
    }

    fn read_bytes(b: &Vec<u8>, off: usize) -> Self {
        SRgba32 {
            red: f32::from_le_bytes([b[off], b[off + 1], b[off + 2], b[off + 3]]),
            green: f32::from_le_bytes([b[off + 4], b[off + 5], b[off + 6], b[off + 7]]),
            blue: f32::from_le_bytes([b[off + 8], b[off + 9], b[off + 10], b[off + 11]]),
            alpha: f32::from_le_bytes([b[off + 12], b[off + 13], b[off + 14], b[off + 15]]),
        }
    }
}

#[derive(Clone, Copy, PartialEq, Debug)]
pub struct SGray32 {
    value: f32,
}

impl Pixel for SGray32 {
    fn spec_default() -> Self {
        unreachable!()
    }

    fn spec_size() -> usize {
        unreachable!()
    }

    fn spec_channel_bytes() -> usize {
        unreachable!()
    }

    fn spec_bytes(self) -> Seq<u8> {
        unreachable!()
    }

    fn spec_from_bytes(_b: Seq<u8>) -> Self {
        unreachable!()
    }

    fn lemma_bytes_len(self) {
        unreachable!()
    }

    fn lemma_bytes_roundtrip(_b: Seq<u8>) {
        unreachable!()
    }

    fn default_pixel() -> Self {
        SGray32 { value: 0.0 }
    }

    fn size_bytes() -> usize {
        4
    }

    fn channel_bytes() -> usize {
        4
    }

    fn push_bytes(self, out: &mut Vec<u8>) {
        out.extend_from_slice(&self.value.to_le_bytes());
    }

    fn read_bytes(b: &Vec<u8>, off: usize) -> Self {
        SGray32 { value: f32::from_le_bytes([b[off], b[off + 1], b[off + 2], b[off + 3]]) }
    }
}

#[derive(Clone, Copy, PartialEq, Debug)]
pub struct SGrayAlpha32 {
    value: f32,
    alpha: f32,
}

impl Pixel for SGrayAlpha32 {
    fn spec_default() -> Self {
        unreachable!()
    }

    fn spec_size() -> usize {
        unreachable!()
    }

    fn spec_channel_bytes() -> usize {
        unreachable!()
    }

    fn spec_bytes(self) -> Seq<u8> {
        unreachable!()
    }

    fn spec_from_bytes(_b: Seq<u8>) -> Self {
        unreachable!()
    }

    fn lemma_bytes_len(self) {
        unreachable!()
    }

    fn lemma_bytes_roundtrip(_b: Seq<u8>) {
        unreachable!()
    }

    fn default_pixel() -> Self {
        SGrayAlpha32 { value: 0.0, alpha: 0.0 }
    }

    fn size_bytes() -> usize {
        8
    }

    fn channel_bytes() -> usize {
        4
    }

    fn push_bytes(self, out: &mut Vec<u8>) {
        out.extend_from_slice(&self.value.to_le_bytes());
        out.extend_from_slice(&self.alpha.to_le_bytes());
    }

    fn read_bytes(b: &Vec<u8>, off: usize) -> Self {
        SGrayAlpha32 {
            value: f32::from_le_bytes([b[off], b[off + 1], b[off + 2], b[off + 3]]),
            alpha: f32::from_le_bytes([b[off + 4], b[off + 5], b[off + 6], b[off + 7]]),
        }
    }
}

impl Convert<SRgb8> for SRgb32 {
    fn spec_convert(_s: SRgb8) -> Self {
        unreachable!()
    }

    fn convert(s: SRgb8) -> Self {
        SRgb32 {
            red: chan8_to_f32(s.red),
            green: chan8_to_f32(s.green),
            blue: chan8_to_f32(s.blue),
        }
    }
}

impl Convert<SRgb8> for SRgba32 {
    fn spec_convert(_s: SRgb8) -> Self {
        unreachable!()
    }

    fn convert(s: SRgb8) -> Self {
        SRgba32 {
            red: chan8_to_f32(s.red),
            green: chan8_to_f32(s.green),
            blue: chan8_to_f32(s.blue),
            alpha: 1.0,
        }
    }
}

impl Convert<SRgb8> for SGray32 {
    fn spec_convert(_s: SRgb8) -> Self {
        unreachable!()
    }

    fn convert(s: SRgb8) -> Self {
        SGray32 { value: chan8_to_f32(max3(s.red, s.green, s.blue)) }
    }
}

impl Convert<SRgb8> for SGrayAlpha32 {
    fn spec_convert(_s: SRgb8) -> Self {
        unreachable!()
    }

    fn convert(s: SRgb8) -> Self {
        SGrayAlpha32 { value: chan8_to_f32(max3(s.red, s.green, s.blue)), alpha: 1.0 }
    }
}

impl Convert<SRgb8> for Mask32 {
    fn spec_convert(_s: SRgb8) -> Self {
        unreachable!()
    }

    fn convert(_s: SRgb8) -> Self {
        Mask::new(Ch32::new(1.0))
    }
}

impl Convert<Mask8> for SRgb32 {
    fn spec_convert(_s: Mask8) -> Self {
        unreachable!()
    }

    fn convert(_s: Mask8) -> Self {
        SRgb32 { red: 1.0, green: 1.0, blue: 1.0 }
    }
}

impl Convert<Mask8> for SRgba32 {
    fn spec_convert(_s: Mask8) -> Self {
        unreachable!()
    }

    fn convert(s: Mask8) -> Self {
        SRgba32 { red: 1.0, green: 1.0, blue: 1.0, alpha: chan8_to_f32(s.alpha) }
    }
}

impl Convert<Mask8> for SGray32 {
    fn spec_convert(_s: Mask8) -> Self {
        unreachable!()
    }

    fn convert(_s: Mask8) -> Self {
        SGray32 { value: 1.0 }
    }
}

impl Convert<Mask8> for SGrayAlpha32 {
    fn spec_convert(_s: Mask8) -> Self {
        unreachable!()
    }

    fn convert(s: Mask8) -> Self {
        SGrayAlpha32 { value: 1.0, alpha: chan8_to_f32(s.alpha) }
    }
}

impl Convert<Mask8> for Mask32 {
    fn spec_convert(_s: Mask8) -> Self {
        unreachable!()
    }

    fn convert(s: Mask8) -> Self {
        Mask::new(Ch32::new(chan8_to_f32(s.alpha)))
    }
}

#[test]
fn mask8() {
    let mut r = RasterBuilder::<Mask8>::new().with_clear(3, 3);
    r.set_pixel(0, 0, 0xFF);
    r.set_pixel(2, 0, 0x12);
    r.set_pixel(1, 1, 0x34);
    r.set_pixel(0, 2, 0x56);
    r.set_pixel(2, 2, 0x78);
    let v = vec![0xFF, 0x00, 0x12, 0x00, 0x34, 0x00, 0x56, 0x00, 0x78];
    assert_eq!(r.as_u8_slice(), &v[..]);
}

#[test]
fn mask16() {
    let mut r = RasterBuilder::<Mask16>::new().with_clear(3, 3);
    r.set_pixel(2, 0, 0x9ABC);
    r.set_pixel(1, 1, 0x5678);
    r.set_pixel(0, 2, 0x1234);
    r.set_pixel(0, 0, 0xFFFF);
    r.set_pixel(2, 2, 0x8080);
    let v = vec![
        0xFF, 0xFF, 0x00, 0x00, 0xBC, 0x9A, 0x00, 0x00, 0x78, 0x56, 0x00, 0x00, 0x34, 0x12, 0x00,
        0x00, 0x80, 0x80,
    ];
    assert_eq!(r.as_u8_slice(), &v[..]);
}

#[test]
fn mask32() {
    let p: Vec<_> = vec![
        0.25, 0.5, 0.75, 1.0, 0.5, 0.55, 0.7, 0.8, 0.75, 0.65, 0.6, 0.4, 1.0, 0.75, 0.5, 0.25,
    ]
    .iter()
    .map(|p| Mask::new(Ch32::new(*p)))
    .collect();
    let mut r = RasterBuilder::<Mask32>::new().with_pixels(4, 4, p).unwrap();
    let clr = Mask32::new(Ch32::new(0.05));
    r.set_region((1, 1, 2, 2), clr);
    let v: Vec<_> = vec![
        0.25, 0.5, 0.75, 1.0, 0.5, 0.05, 0.05, 0.8, 0.75, 0.05, 0.05, 0.4, 1.0, 0.75, 0.5, 0.25,
    ]
    .iter()
    .map(|p| Mask::new(Ch32::new(*p)))
    .collect();
    let r2 = RasterBuilder::<Mask32>::new().with_pixels(4, 4, v).unwrap();
    assert_eq!(r.as_slice(), r2.as_slice());
}

#[test]
fn rgb8() {
    let mut r = RasterBuilder::<SRgb8>::new().with_clear(4, 4);
    let rgb = SRgb8::new(0xCC, 0xAA, 0xBB);
    r.set_region((1, 1, 2, 2), rgb);
    let v = vec![
        0x00, 0x00, 0x00, 0x00, 0x00, 0x00, 0x00, 0x00, 0x00, 0x00, 0x00, 0x00, 0x00, 0x00, 0x00,
        0xCC, 0xAA, 0xBB, 0xCC, 0xAA, 0xBB, 0x00, 0x00, 0x00, 0x00, 0x00, 0x00, 0xCC, 0xAA, 0xBB,
        0xCC, 0xAA, 0xBB, 0x00, 0x00, 0x00, 0x00, 0x00, 0x00, 0x00, 0x00, 0x00, 0x00, 0x00, 0x00,
        0x00, 0x00, 0x00,
    ];
    assert_eq!(r.as_u8_slice(), &v[..]);
}

#[test]
fn gray8() {
    let mut r = RasterBuilder::<SGray8>::new().with_clear(4, 4);
    r.set_region((0, 0, 1, 1), SGray8::from(0x23));
    r.set_region((10, 10, 1, 1), SGray8::from(0x45));
    r.set_region((2, 2, 10, 10), SGray8::from(0xBB));
    let v = vec![
        0x23, 0x00, 0x00, 0x00, 0x00, 0x00, 0x00, 0x00, 0x00, 0x00, 0xBB, 0xBB, 0x00, 0x00, 0xBB,
        0xBB,
    ];
    assert_eq!(r.as_u8_slice(), &v[..]);
}

#[test]
fn rgb8_buffer() {
    let b = vec![
        0xAA, 0x00, 0x00, 0x00, 0x11, 0x22, 0x33, 0x44, 0x55, 0x00, 0xBB, 0x00, 0x66, 0x77, 0x88,
        0x99, 0xAA, 0xBB, 0x00, 0x00, 0xCC, 0xCC, 0xDD, 0xEE, 0xFF, 0x00, 0x11,
    ];
    let mut r = RasterBuilder::<SRgb8>::new().with_u8_buffer(3, 3, b).unwrap();
    let rgb = SRgb8::new(0x12, 0x34, 0x56);
    r.set_region((0, 1, 2, 1), rgb);
    let v = vec![
        0xAA, 0x00, 0x00, 0x00, 0x11, 0x22, 0x33, 0x44, 0x55, 0x12, 0x34, 0x56, 0x12, 0x34, 0x56,
        0x99, 0xAA, 0xBB, 0x00, 0x00, 0xCC, 0xCC, 0xDD, 0xEE, 0xFF, 0x00, 0x11,
    ];
    assert_eq!(r.as_u8_slice(), &v[..]);
}

#[test]
fn grayalpha16_buffer() {
    let b = vec![
        0x1001, 0x5005, 0x1000, 0x3002, 0x5004, 0x7006, 0x2002, 0x6006, 0x9008, 0xB00A, 0xD00C,
        0xF00E, 0x3003, 0x7007, 0xE00F, 0xC00D, 0xA00B, 0x8009,
    ];
    let mut r = RasterBuilder::<SGrayAlpha16>::new().with_u16_buffer(3, 3, b).unwrap();
    r.set_region((1, 0, 2, 2), SGrayAlpha16::new(0x4444));
    let v = vec![
        0x01, 0x10, 0x05, 0x50, 0x44, 0x44, 0xFF, 0xFF, 0x44, 0x44, 0xFF, 0xFF, 0x02, 0x20, 0x06,
        0x60, 0x44, 0x44, 0xFF, 0xFF, 0x44, 0x44, 0xFF, 0xFF, 0x03, 0x30, 0x07, 0x70, 0x0F, 0xE0,
        0x0D, 0xC0, 0x0B, 0xA0, 0x09, 0x80,
    ];
    assert_eq!(r.as_u8_slice(), &v[..]);
}

#[test]
fn gray_to_rgb() {
    let mut r = RasterBuilder::<SGray8>::new().with_clear(3, 3);
    r.set_region((2, 0, 4, 2), SGray8::new(0x45));
    r.set_region((0, 2, 2, 10), SGray8::new(0xDA));
    let r = RasterBuilder::<SRgb8>::new().with_raster(&r);
    let v = vec![
        0x00, 0x00, 0x00, 0x00, 0x00, 0x00, 0x45, 0x45, 0x45, 0x00, 0x00, 0x00, 0x00, 0x00, 0x00,
        0x45, 0x45, 0x45, 0xDA, 0xDA, 0xDA, 0xDA, 0xDA, 0xDA, 0x00, 0x00, 0x00,
    ];
    assert_eq!(r.as_u8_slice(), &v[..]);
}

#[test]
fn rgb_to_gray() {
    let mut r = RasterBuilder::<SRgb16>::new().with_clear(3, 3);
    r.set_region((1, 0, 4, 2), SRgb16::new(0x4321, 0x9085, 0x5543));
    r.set_region((0, 1, 1, 10), SRgb16::new(0x5768, 0x4091, 0x5000));
    let r = RasterBuilder::<SGray8>::new().with_raster(&r);
    let v = vec![0x00, 0x90, 0x90, 0x57, 0x90, 0x90, 0x57, 0x00, 0x00];
    assert_eq!(r.as_u8_slice(), &v[..]);
}

#[test]
fn gray_to_mask() {
    let mut r = RasterBuilder::<SGrayAlpha8>::new().with_clear(3, 3);
    r.set_region((0, 1, 2, 8), SGrayAlpha8::with_alpha(0x67, 0x94));
    r.set_region((2, 0, 1, 10), SGrayAlpha8::with_alpha(0xBA, 0xA2));
    let r = RasterBuilder::<Mask16>::new().with_raster(&r);
    let v = vec![
        0x00, 0x00, 0x00, 0x00, 0xA2, 0xA2, 0x94, 0x94, 0x94, 0x94, 0xA2, 0xA2, 0x94, 0x94, 0x94,
        0x94, 0xA2, 0xA2,
    ];
    assert_eq!(r.as_u8_slice(), &v[..]);
}

#[test]
fn mask_to_gray() {
    let mut r = RasterBuilder::<Mask16>::new().with_clear(3, 3);
    r.set_region((0, 1, 3, 8), Mask16::new(0xABCD));
    r.set_region((2, 0, 1, 3), Mask16::new(0x9876));
    let r = RasterBuilder::<SGrayAlpha8>::new().with_raster(&r);
    let v = vec![
        0xFF, 0x00, 0xFF, 0x00, 0xFF, 0x98, 0xFF, 0xAB, 0xFF, 0xAB, 0xFF, 0x98, 0xFF, 0xAB, 0xFF,
        0xAB, 0xFF, 0x98,
    ];
    assert_eq!(r.as_u8_slice(), &v[..]);
}

#[test]
fn copy_region_gray() {
    let mut g0 = RasterBuilder::<SGray16>::new().with_clear(3, 3);
    let mut g1 = RasterBuilder::<Gray16>::new().with_clear(3, 3);
    g0.set_region((0, 2, 2, 5), SGray16::new(0x4455));
    g0.set_region((2, 0, 3, 2), SGray8::new(0x33));
    g1.set_region(g1.region(), g0.region_iter(g0.region()));
    let v = vec![
        0x00, 0x00, 0x00, 0x00, 0x7A, 0x08, 0x00, 0x00, 0x00, 0x00, 0x7A, 0x08, 0xD4, 0x0E, 0xD4,
        0x0E, 0x00, 0x00,
    ];
    assert_eq!(g1.as_u8_slice(), &v[..]);
}

#[test]
fn from_rgb8() {
    let r = RasterBuilder::<SRgb8>::new().with_clear(50, 50);
    let _ = RasterBuilder::<SRgb16>::new().with_raster(&r);
    let _ = RasterBuilder::<SRgb32>::new().with_raster(&r);
    let _ = RasterBuilder::<SRgba8>::new().with_raster(&r);
    let _ = RasterBuilder::<SRgba16>::new().with_raster(&r);
    let _ = RasterBuilder::<SRgba32>::new().with_raster(&r);
    let _ = RasterBuilder::<SGray8>::new().with_raster(&r);
    let _ = RasterBuilder::<SGray16>::new().with_raster(&r);
    let _ = RasterBuilder::<SGray32>::new().with_raster(&r);
    let _ = RasterBuilder::<SGrayAlpha8>::new().with_raster(&r);
    let _ = RasterBuilder::<SGrayAlpha16>::new().with_raster(&r);
    let _ = RasterBuilder::<SGrayAlpha32>::new().with_raster(&r);
    let _ = RasterBuilder::<Mask8>::new().with_raster(&r);
    let _ = RasterBuilder::<Mask16>::new().with_raster(&r);
    let _ = RasterBuilder::<Mask32>::new().with_raster(&r);
}

#[test]
fn from_mask8() {
    let r = RasterBuilder::<Mask8>::new().with_clear(50, 50);
    let _ = RasterBuilder::<SRgb8>::new().with_raster(&r);
    let _ = RasterBuilder::<SRgb16>::new().with_raster(&r);
    let _ = RasterBuilder::<SRgb32>::new().with_raster(&r);
    let _ = RasterBuilder::<SRgba8>::new().with_raster(&r);
    let _ = RasterBuilder::<SRgba16>::new().with_raster(&r);
    let _ = RasterBuilder::<SRgba32>::new().with_raster(&r);
    let _ = RasterBuilder::<SGray8>::new().with_raster(&r);
    let _ = RasterBuilder::<SGray16>::new().with_raster(&r);
    let _ = RasterBuilder::<SGray32>::new().with_raster(&r);
    let _ = RasterBuilder::<SGrayAlpha8>::new().with_raster(&r);
    let _ = RasterBuilder::<SGrayAlpha16>::new().with_raster(&r);
    let _ = RasterBuilder::<SGrayAlpha32>::new().with_raster(&r);
    let _ = RasterBuilder::<Mask8>::new().with_raster(&r);
    let _ = RasterBuilder::<Mask16>::new().with_raster(&r);
    let _ = RasterBuilder::<Mask32>::new().with_raster(&r);
}

#[test]
fn region_size() {
    assert_eq!(std::mem::size_of::<Region>(), 16);
}

#[test]
fn intersect() -> Result<(), ()> {
    let r = Region::new(0, 0, 5, 5);
    assert_eq!(r, Region::new(0, 0, 5, 5));
    assert_eq!(r, r.intersection(Region::new(0, 0, 10, 10)));
    assert_eq!(r, r.intersection(Region::new(-5, -5, 10, 10)));
    assert_eq!(Region::new(0, 0, 4, 4), r.intersection(Region::new(-1, -1, 5, 5)));
    assert_eq!(Region::new(1, 2, 1, 3), r.intersection(Region::new(1, 2, 1, 100)));
    assert_eq!(Region::new(2, 1, 3, 1), r.intersection(Region::new(2, 1, 100, 1)));
    Ok(())
}
