//! Scenario tests for the construction paths, the region algebra and the
//! byte views.
use pix::IntoRegion;
use pix::Mask8;
use pix::PixelSource;
use pix::RasterBuilder;
use pix::Region;
use pix::SGray16;
use pix::SGray8;
use pix::SGrayAlpha16;
use pix::SRgb8;

#[test]
fn default_builder_builds() {
    let r = RasterBuilder::<SGray8>::default().with_clear(2, 2);
    assert_eq!(r.as_u8_slice(), &vec![0, 0, 0, 0][..]);
}

#[test]
fn clear_raster_is_all_default() {
    let r = RasterBuilder::<SGray8>::new().with_clear(4, 3);
    assert_eq!(r.as_slice().len(), 12);
    for p in r.as_slice() {
        assert_eq!(*p, SGray8::new(0));
    }
}

#[test]
fn color_raster_is_all_color() {
    let clr = SRgb8::new(0x40, 0xAA, 0xBB);
    let r = RasterBuilder::<SRgb8>::new().with_color(2, 3, clr);
    assert_eq!(r.as_slice().len(), 6);
    for p in r.as_slice() {
        assert_eq!(*p, clr);
    }
}

#[test]
fn intersection_commutes() {
    let a = Region::new(-3, 7, 10, 4);
    let b = Region::new(2, -1, 6, 40);
    assert_eq!(a.intersection(b), b.intersection(a));
    let c = Region::new(5, 5, 0, 9);
    assert_eq!(a.intersection(c), c.intersection(a));
    assert_eq!(a.intersection(a), a);
    assert_eq!(b.intersection(b), b);
}

#[test]
fn intersection_saturated_side() {
    // The far side saturates the signed range, so the rectangle is treated
    // as ending at its own origin: intersecting it with itself collapses
    // the saturated axis.
    let a = Region::new(0, 0, u32::MAX, 1);
    assert_eq!(a.intersection(a), Region::new(0, 0, 0, 1));
}

#[test]
fn tuple_stands_for_region() {
    let t = (3, -4, 7, 9);
    assert_eq!(t.into_region(), Region::new(3, -4, 7, 9));
}

#[test]
fn pixels_roundtrip() {
    let v = vec![
        SRgb8::new(1, 2, 3),
        SRgb8::new(4, 5, 6),
        SRgb8::new(7, 8, 9),
        SRgb8::new(10, 11, 12),
        SRgb8::new(13, 14, 15),
        SRgb8::new(16, 17, 18),
    ];
    let r = RasterBuilder::<SRgb8>::new().with_pixels(3, 2, v.clone()).unwrap();
    let back: Vec<SRgb8> = r.into_pixels();
    assert_eq!(back, v);
}

#[test]
fn identity_conversion_keeps_pixels() {
    let mut r = RasterBuilder::<SGray8>::new().with_clear(3, 3);
    r.set_region((0, 1, 2, 2), SGray8::new(0x5A));
    r.set_pixel(2, 0, SGray8::new(0x11));
    let copy = RasterBuilder::<SGray8>::new().with_raster(&r);
    assert_eq!(r.as_slice(), copy.as_slice());
}

#[test]
fn region_write_block() {
    let mut r = RasterBuilder::<SGray8>::new().with_clear(4, 4);
    r.set_region((1, 1, 2, 2), SGray8::new(0x7D));
    let v = vec![
        0x00, 0x00, 0x00, 0x00, 0x00, 0x7D, 0x7D, 0x00, 0x00, 0x7D, 0x7D, 0x00, 0x00, 0x00, 0x00,
        0x00,
    ];
    assert_eq!(r.as_u8_slice(), &v[..]);
}

#[test]
fn mismatched_pixels_refused() {
    let v = vec![SGray8::new(1), SGray8::new(2), SGray8::new(3)];
    assert!(RasterBuilder::<SGray8>::new().with_pixels(2, 2, v).is_none());
}

#[test]
fn mismatched_u8_buffer_refused() {
    assert!(RasterBuilder::<SGray8>::new().with_u8_buffer(2, 2, vec![1, 2, 3]).is_none());
    // A format with two-byte channels refuses the one-byte path outright.
    assert!(RasterBuilder::<SGray16>::new().with_u8_buffer(1, 1, vec![1, 2]).is_none());
}

#[test]
fn mismatched_u16_buffer_refused() {
    assert!(RasterBuilder::<SGrayAlpha16>::new().with_u16_buffer(2, 2, vec![1, 2, 3]).is_none());
    // A format with one-byte channels refuses the two-byte path outright.
    assert!(RasterBuilder::<SGray8>::new().with_u16_buffer(2, 1, vec![1]).is_none());
}

#[test]
fn u16_buffer_bytes_roundtrip() {
    let b = vec![0x1001, 0x5005, 0x2002, 0x6006];
    let r = RasterBuilder::<SGrayAlpha16>::new().with_u16_buffer(2, 1, b).unwrap();
    let v = vec![0x01, 0x10, 0x05, 0x50, 0x02, 0x20, 0x06, 0x60];
    assert_eq!(r.as_u8_slice(), &v[..]);
}

#[test]
fn set_u8_slice_rewrites_buffer() {
    let mut r = RasterBuilder::<SGray16>::new().with_clear(2, 1);
    r.set_u8_slice(&vec![0x34, 0x12, 0x78, 0x56]);
    assert_eq!(r.pixel(0, 0), SGray16::new(0x1234));
    assert_eq!(r.pixel(1, 0), SGray16::new(0x5678));
    assert_eq!(r.as_u8_slice(), &vec![0x34, 0x12, 0x78, 0x56][..]);
}

#[test]
fn pixel_and_set_pixel() {
    let mut r = RasterBuilder::<SRgb8>::new().with_clear(3, 2);
    assert_eq!(r.width(), 3);
    assert_eq!(r.height(), 2);
    r.set_pixel(2, 1, SRgb8::new(9, 8, 7));
    assert_eq!(r.pixel(2, 1), SRgb8::new(9, 8, 7));
    assert_eq!(r.pixel(0, 0), SRgb8::new(0, 0, 0));
}

#[test]
fn clear_resets_all_pixels() {
    let mut r = RasterBuilder::<SGray8>::new().with_color(2, 2, SGray8::new(0x99));
    r.clear();
    assert_eq!(r.as_u8_slice(), &vec![0x00, 0x00, 0x00, 0x00][..]);
}

#[test]
fn full_region_of_raster() {
    let r = RasterBuilder::<SGray8>::new().with_clear(7, 5);
    assert_eq!(r.region(), Region::new(0, 0, 7, 5));
}

#[test]
fn row_views() {
    let v = vec![
        SGray8::new(1),
        SGray8::new(2),
        SGray8::new(3),
        SGray8::new(4),
        SGray8::new(5),
        SGray8::new(6),
    ];
    let mut r = RasterBuilder::<SGray8>::new().with_pixels(3, 2, v).unwrap();
    assert_eq!(r.as_slice_row(1), &[SGray8::new(4), SGray8::new(5), SGray8::new(6)][..]);
    assert_eq!(r.as_u8_slice_row(0), &vec![1, 2, 3][..]);
    let row = r.as_slice_row_mut(0);
    row[2] = SGray8::new(0x33);
    assert_eq!(r.as_u8_slice(), &vec![1, 2, 0x33, 4, 5, 6][..]);
    let all = r.as_slice_mut();
    all[3] = SGray8::new(0x44);
    assert_eq!(r.as_u8_slice(), &vec![1, 2, 0x33, 0x44, 5, 6][..]);
}

#[test]
fn region_iter_row_major_and_fused() {
    let v = vec![SGray8::new(1), SGray8::new(2), SGray8::new(3), SGray8::new(4)];
    let r = RasterBuilder::<SGray8>::new().with_pixels(2, 2, v).unwrap();
    let mut it = r.region_iter(r.region());
    assert_eq!(it.next_pixel(), Some(SGray8::new(1)));
    assert_eq!(it.next_pixel(), Some(SGray8::new(2)));
    assert_eq!(it.next_pixel(), Some(SGray8::new(3)));
    assert_eq!(it.next_pixel(), Some(SGray8::new(4)));
    assert_eq!(it.next_pixel(), None);
    assert_eq!(it.next_pixel(), None);
}

#[test]
fn region_iter_clips_to_raster() {
    let v = vec![SGray8::new(1), SGray8::new(2), SGray8::new(3), SGray8::new(4)];
    let r = RasterBuilder::<SGray8>::new().with_pixels(2, 2, v).unwrap();
    // Negative origin clamps to zero; the oversized extent clips to bounds.
    let mut it = r.region_iter((-1, -1, 10, 2));
    assert_eq!(it.next_pixel(), Some(SGray8::new(1)));
    assert_eq!(it.next_pixel(), Some(SGray8::new(2)));
    assert_eq!(it.next_pixel(), None);
    // An empty region yields nothing at all.
    let mut it = r.region_iter((0, 0, 0, 2));
    assert_eq!(it.next_pixel(), None);
}

#[test]
fn short_source_leaves_rest_unmodified() {
    let mut dst = RasterBuilder::<SGray8>::new().with_color(3, 3, SGray8::new(0xEE));
    let v = vec![SGray8::new(1), SGray8::new(2), SGray8::new(3), SGray8::new(4)];
    let src = RasterBuilder::<SGray8>::new().with_pixels(2, 2, v).unwrap();
    // The source has four pixels; the 3 x 3 destination keeps its last five.
    dst.set_region(dst.region(), src.region_iter(src.region()));
    let v = vec![1, 2, 3, 4, 0xEE, 0xEE, 0xEE, 0xEE, 0xEE];
    assert_eq!(dst.as_u8_slice(), &v[..]);
}

#[test]
fn off_raster_origin_writes_nothing() {
    let mut r = RasterBuilder::<SGray8>::new().with_color(2, 2, SGray8::new(0x11));
    r.set_region((-1, 0, 2, 2), SGray8::new(0x99));
    r.set_region((0, -2, 2, 2), SGray8::new(0x99));
    assert_eq!(r.as_u8_slice(), &vec![0x11, 0x11, 0x11, 0x11][..]);
}

#[test]
fn widening_copy_matches_channels() {
    let mut r = RasterBuilder::<SGray8>::new().with_clear(2, 1);
    r.set_pixel(0, 0, SGray8::new(0x12));
    r.set_pixel(1, 0, SGray8::new(0xFF));
    let wide = RasterBuilder::<SGray16>::new().with_raster(&r);
    assert_eq!(wide.pixel(0, 0), SGray16::new(0x1212));
    assert_eq!(wide.pixel(1, 0), SGray16::new(0xFFFF));
}

#[test]
fn mask_set_pixel_raw_values() {
    let mut r = RasterBuilder::<Mask8>::new().with_clear(2, 1);
    r.set_pixel(1, 0, 0xA5);
    assert_eq!(r.pixel(1, 0), Mask8::new(0xA5));
    assert_eq!(r.pixel(0, 0), Mask8::new(0));
}
