//! The pixel-format capability.
//!
//! The raster core never computes with channels itself: it asks a format for
//! its default value, for the conversion of a foreign pixel into the format,
//! and for the byte layout of a pixel. Every concrete format in this crate
//! proves the layout laws; outside code may supply further formats.
use vstd::prelude::*;

verus! {

/// A pixel format: a fixed-size value with a default, and a little-endian
/// byte layout that can be written out and read back.
pub trait Pixel: Copy + Sized {
    /// The format's default pixel value.
    spec fn spec_default() -> Self;

    /// Number of bytes a pixel occupies when laid out as raw bytes.
    spec fn spec_size() -> usize;

    /// Number of bytes of a single channel of the format.
    spec fn spec_channel_bytes() -> usize;

    /// The bytes of a pixel, channels in declaration order, each channel
    /// little-endian.
    spec fn spec_bytes(self) -> Seq<u8>;

    /// The pixel encoded by `spec_size()` bytes.
    spec fn spec_from_bytes(b: Seq<u8>) -> Self;

    /// A pixel's byte layout has exactly `spec_size()` bytes.
    proof fn lemma_bytes_len(self)
        ensures
            self.spec_bytes().len() == Self::spec_size(),
            0 < Self::spec_size(),
    ;

    /// Reading bytes back as a pixel and laying the pixel out again
    /// reproduces the bytes.
    proof fn lemma_bytes_roundtrip(b: Seq<u8>)
        requires
            b.len() == Self::spec_size(),
        ensures
            Self::spec_from_bytes(b).spec_bytes() == b,
    ;

    /// Produce the format's default pixel value.
    fn default_pixel() -> (r: Self)
        ensures
            r == Self::spec_default(),
    ;

    /// Number of bytes a pixel occupies.
    fn size_bytes() -> (r: usize)
        ensures
            r == Self::spec_size(),
            0 < r,
    ;

    /// Number of bytes of a single channel.
    fn channel_bytes() -> (r: usize)
        ensures
            r == Self::spec_channel_bytes(),
    ;

    /// Append the pixel's bytes to `out`.
    fn push_bytes(self, out: &mut Vec<u8>)
        ensures
            final(out)@ == old(out)@ + self.spec_bytes(),
    ;

    /// Read one pixel from `b` starting at `off`.
    fn read_bytes(b: &Vec<u8>, off: usize) -> (r: Self)
        requires
            off + Self::spec_size() <= b@.len(),
        ensures
            r == Self::spec_from_bytes(b@.subrange(off as int, off as int + Self::spec_size())),
    ;
}

/// Conversion of a source value into the implementing pixel format.
///
/// `spec_convert` is the mathematical conversion; each implementation opens
/// its body, so contracts written over it are exact.
pub trait Convert<S>: Sized {
    /// What the conversion returns.
    spec fn spec_convert(s: S) -> Self;

    /// Convert `s` into this format.
    fn convert(s: S) -> (r: Self)
        ensures
            r == Self::spec_convert(s),
    ;
}

/// Every format converts from itself by identity, so a same-format copy is
/// pixel-for-pixel equality.
impl<P: Pixel> Convert<P> for P {
    open spec fn spec_convert(s: P) -> P {
        s
    }

    fn convert(s: P) -> (r: P) {
        s
    }
}

/// Format conversion is idempotent: converting a pixel sequence from a
/// format to the format itself changes nothing, so a raster copied into its
/// own format is pixel-for-pixel equal to the source.
pub proof fn lemma_identity_conversion<P: Pixel>(s: Seq<P>)
    ensures
        s.map_values(|p: P| <P as Convert<P>>::spec_convert(p)) == s,
{
    assert(s.map_values(|p: P| <P as Convert<P>>::spec_convert(p)) =~= s);
}

} // verus!
