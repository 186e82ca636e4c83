//! Rasters of RGBA pixels, and the two operations on them that the `image`
//! crate performs for this library: resampling a frame and overlaying one
//! raster on another.

use image::imageops::{overlay, resize, FilterType};
use image::{ImageBuffer, Rgba};
use vstd::prelude::*;

verus! {

/// A raster as a mathematical value: its size and its bytes, four per pixel
/// (red, green, blue, alpha), rows from top to bottom, each row from left to
/// right.
pub struct RasterView {
    pub width: nat,
    pub height: nat,
    pub pixels: Seq<u8>,
}

impl RasterView {
    /// There are exactly four bytes for each pixel.
    pub open spec fn wf(self) -> bool {
        self.pixels.len() == 4 * (self.width * self.height)
    }

    /// Whether `(x, y)` is a pixel of this raster.
    pub open spec fn contains(self, x: int, y: int) -> bool {
        0 <= x < self.width && 0 <= y < self.height
    }

    /// Where the four bytes of pixel `(x, y)` start.
    pub open spec fn offset(self, x: int, y: int) -> int {
        4 * (y * self.width + x)
    }

    /// The four bytes of pixel `(x, y)`.
    pub open spec fn pixel(self, x: int, y: int) -> Seq<u8> {
        self.pixels.subrange(self.offset(x, y), self.offset(x, y) + 4)
    }
}

/// The pixel that shows nothing: all four bytes zero.
pub open spec fn transparent() -> Seq<u8> {
    seq![0u8, 0u8, 0u8, 0u8]
}

/// What `image`'s `Pixel::blend` makes of an RGBA pixel `below` when the
/// pixel `above` is blended onto it, each pixel given as its four bytes.
/// It is spoken of only where `above` is neither fully transparent nor
/// fully opaque: there the crate mixes the two in floating point.
pub uninterp spec fn blended_pixel(below: Seq<u8>, above: Seq<u8>) -> Seq<u8>;

/// The pixel that results from laying `above` over `below`: `below` itself
/// where `above` is fully transparent, `above` where it is fully opaque,
/// and the crate's blend of the two otherwise.
pub open spec fn composite_pixel(below: Seq<u8>, above: Seq<u8>) -> Seq<u8> {
    if above[3] == 0 {
        below
    } else if above[3] == 255 {
        above
    } else {
        blended_pixel(below, above)
    }
}

/// Whether a raster of this size can be allocated: it takes four bytes for
/// each pixel, and no allocation exceeds `isize::MAX` bytes.
pub open spec fn can_hold_raster(width: nat, height: nat) -> bool {
    4 * (width * height) <= isize::MAX
}

/// Whether the working copy that resampling makes of a raster of this size
/// can be allocated: it takes four 32-bit numbers for each pixel.
pub open spec fn can_hold_working_copy(width: nat, height: nat) -> bool {
    16 * (width * height) <= isize::MAX
}

/// The four bytes of a pixel lie inside the buffer, one after the other from
/// the pixel's offset.
pub proof fn lemma_pixel_in_buffer(v: RasterView, x: int, y: int)
    requires
        v.wf(),
        v.contains(x, y),
    ensures
        0 <= v.offset(x, y),
        v.offset(x, y) + 4 <= v.pixels.len(),
        v.pixel(x, y).len() == 4,
        forall|c: int| 0 <= c < 4 ==> v.pixel(x, y)[c] == v.pixels[v.offset(x, y) + c],
{
    let w = v.width as int;
    let h = v.height as int;
    assert(y * w + x + 1 <= w * h) by (nonlinear_arith)
        requires
            0 <= x < w,
            0 <= y < h,
    ;
    assert(0 <= y * w) by (nonlinear_arith)
        requires
            0 <= y,
            0 <= w,
    ;
}

/// A well-formed raster is determined by its size and its pixels: two that
/// agree on both are the same byte for byte.
pub proof fn lemma_pixels_determine_raster(a: RasterView, b: RasterView)
    requires
        a.wf(),
        b.wf(),
        a.width == b.width,
        a.height == b.height,
        forall|x: int, y: int| a.contains(x, y) ==> a.pixel(x, y) == b.pixel(x, y),
    ensures
        a == b,
{
    let w = a.width as int;
    let h = a.height as int;
    assert forall|k: int| 0 <= k < a.pixels.len() implies a.pixels[k] == b.pixels[k] by {
        let p = k / 4;
        let c = k % 4;
        assert(0 <= p < w * h);
        assert(w > 0) by (nonlinear_arith)
            requires
                0 <= p < w * h,
                w >= 0,
        ;
        let y = p / w;
        let x = p % w;
        assert(p == y * w + x && 0 <= x < w && 0 <= y) by (nonlinear_arith)
            requires
                w > 0,
                p >= 0,
                y == p / w,
                x == p % w,
        ;
        assert(y < h) by (nonlinear_arith)
            requires
                p == y * w + x,
                0 <= x,
                p < w * h,
                w > 0,
        ;
        lemma_pixel_in_buffer(a, x, y);
        lemma_pixel_in_buffer(b, x, y);
        assert(a.pixel(x, y)[c] == a.pixels[k]);
        assert(b.pixel(x, y)[c] == b.pixels[k]);
    }
    assert(a.pixels =~= b.pixels);
}

/// The number of pixels of a raster of the given size.
pub fn pixel_count(width: u32, height: u32) -> (n: u64)
    ensures
        n == width * height,
{
    proof {
        assert(width * height <= 0xffff_ffff * 0xffff_ffff) by (nonlinear_arith)
            requires
                width <= 0xffff_ffff,
                height <= 0xffff_ffff,
        ;
    }
    width as u64 * height as u64
}

/// Whether a raster of the given size can be allocated.
pub fn fits_raster(width: u32, height: u32) -> (ok: bool)
    ensures
        ok == can_hold_raster(width as nat, height as nat),
{
    4 * (pixel_count(width, height) as u128) <= isize::MAX as u128
}

/// Whether the working copy that resampling makes of a raster of the given
/// size can be allocated.
pub fn fits_working_copy(width: u32, height: u32) -> (ok: bool)
    ensures
        ok == can_hold_working_copy(width as nat, height as nat),
{
    16 * (pixel_count(width, height) as u128) <= isize::MAX as u128
}

/// A raster of RGBA pixels, eight bits per channel.
#[derive(Clone, Debug, PartialEq, Eq)]
pub struct Raster {
    /// Pixels per row.
    pub width: u32,
    /// Number of rows.
    pub height: u32,
    /// Four bytes per pixel, row by row.
    pub data: Vec<u8>,
}

impl View for Raster {
    type V = RasterView;

    open spec fn view(&self) -> RasterView {
        RasterView { width: self.width as nat, height: self.height as nat, pixels: self.data@ }
    }
}

impl Raster {
    /// The buffer holds exactly the pixels that the size announces.
    pub open spec fn wf(&self) -> bool {
        self@.wf()
    }

    /// Whether the buffer holds exactly the pixels that the size announces.
    pub fn is_well_formed(&self) -> (ok: bool)
        ensures
            ok == self.wf(),
    {
        self.data.len() as u128 == 4 * (pixel_count(self.width, self.height) as u128)
    }
}

impl Raster {
    /// A raster from its size and its bytes, where the two agree.
    pub fn from_raw(width: u32, height: u32, data: Vec<u8>) -> (res: Option<Raster>)
        ensures
            res is Some <==> data@.len() == 4 * (width * height),
            res matches Some(r) ==> r.width == width && r.height == height && r.data@ == data@
                && r.wf(),
    {
        if data.len() as u128 == 4 * (pixel_count(width, height) as u128) {
            Some(Raster { width, height, data })
        } else {
            None
        }
    }

    /// A raster of the given size in which every pixel is transparent.
    pub fn blank(width: u32, height: u32) -> (r: Raster)
        requires
            can_hold_raster(width as nat, height as nat),
        ensures
            r.wf(),
            r.width == width,
            r.height == height,
            forall|k: int| 0 <= k < r.data@.len() ==> r.data@[k] == 0,
            forall|x: int, y: int| r@.contains(x, y) ==> r@.pixel(x, y) == transparent(),
    {
        let len: usize = (4 * pixel_count(width, height)) as usize;
        let data: Vec<u8> = vec![0u8; len];
        let r = Raster { width, height, data };
        proof {
            assert forall|x: int, y: int| r@.contains(x, y) implies r@.pixel(x, y)
                == transparent() by {
                lemma_pixel_in_buffer(r@, x, y);
                assert(r@.pixel(x, y) =~= transparent());
            }
        }
        r
    }

    /// The four bytes of pixel `(x, y)`, if the raster has such a pixel.
    pub fn get_pixel(&self, x: u32, y: u32) -> (res: Option<[u8; 4]>)
        requires
            self.wf(),
        ensures
            res is Some <==> self@.contains(x as int, y as int),
            res matches Some(p) ==> p@ == self@.pixel(x as int, y as int),
    {
        if x >= self.width || y >= self.height {
            return None;
        }
        let row: u64 = pixel_count(y, self.width);
        let len: usize = self.data.len();
        proof {
            lemma_pixel_in_buffer(self@, x as int, y as int);
            assert(self@.offset(x as int, y as int) == 4 * (row + x));
            assert(4 * (row + x) + 4 <= len);
        }
        let at: usize = (4 * (row + x as u64)) as usize;
        let p: [u8; 4] = [self.data[at], self.data[at + 1], self.data[at + 2], self.data[at + 3]];
        proof {
            assert(p@ =~= self@.pixel(x as int, y as int));
        }
        Some(p)
    }
}

/// Calls `image::imageops::resize` with the `Lanczos3` filter on a frame
/// that has pixels. Claimed of it: the result has the size asked for, four
/// bytes per pixel; and where that size is the frame's own, the crate copies
/// the frame instead of resampling it. Nothing is claimed of the resampled
/// bytes, which the crate computes in floating point. The bounds keep the
/// result and the crate's working copy (the frame's width by the new
/// height, four 32-bit numbers per pixel) within what can be allocated.
#[verifier::external_body]
pub(crate) fn resample(frame: &Raster, width: u32, height: u32) -> (scaled: Raster)
    requires
        frame.wf(),
        frame.width > 0,
        frame.height > 0,
        can_hold_raster(width as nat, height as nat),
        can_hold_working_copy(frame.width as nat, height as nat),
    ensures
        scaled.wf(),
        scaled.width == width,
        scaled.height == height,
        width == frame.width && height == frame.height ==> scaled@ == frame@,
{
    let source: ImageBuffer<Rgba<u8>, &[u8]> =
        ImageBuffer::from_raw(frame.width, frame.height, frame.data.as_slice()).unwrap();
    let out = resize(&source, width, height, FilterType::Lanczos3);
    Raster { width: out.width(), height: out.height(), data: out.into_raw() }
}

/// Calls `image::imageops::overlay`, which lays `top` over `bottom` with
/// `top`'s corner at `(x, y)` and clips it at `bottom`'s edges. Claimed of
/// it: `bottom` keeps its size; each of its pixels that `top` covers becomes
/// what `Pixel::blend` makes of the two pixels (the lower one unchanged
/// under a fully transparent upper one, the upper one where that is fully
/// opaque); every other pixel stays as it was.
#[verifier::external_body]
pub(crate) fn overlay_onto(bottom: &mut Raster, top: &Raster, x: i64, y: i64)
    requires
        old(bottom).wf(),
        top.wf(),
        0 <= x,
        0 <= y,
    ensures
        final(bottom).wf(),
        final(bottom).width == old(bottom).width,
        final(bottom).height == old(bottom).height,
        forall|px: int, py: int|
            #![trigger final(bottom)@.pixel(px, py)]
            old(bottom)@.contains(px, py) ==> final(bottom)@.pixel(px, py) == (if !top@.contains(
                px - x,
                py - y,
            ) {
                old(bottom)@.pixel(px, py)
            } else if top@.pixel(px - x, py - y)[3] == 0 {
                old(bottom)@.pixel(px, py)
            } else if top@.pixel(px - x, py - y)[3] == 255 {
                top@.pixel(px - x, py - y)
            } else {
                blended_pixel(old(bottom)@.pixel(px, py), top@.pixel(px - x, py - y))
            }),
{
    let mut below: ImageBuffer<Rgba<u8>, &mut [u8]> =
        ImageBuffer::from_raw(bottom.width, bottom.height, bottom.data.as_mut_slice()).unwrap();
    let above: ImageBuffer<Rgba<u8>, &[u8]> =
        ImageBuffer::from_raw(top.width, top.height, top.data.as_slice()).unwrap();
    overlay(&mut below, &above, x, y);
}

} // verus!
