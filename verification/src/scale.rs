//! Scale-to-fit arithmetic: the size a frame takes inside a tile when it is
//! scaled by one factor in both directions, and the margin that centres it.
//!
//! The factor is the smaller of `tile width / frame width` and
//! `tile height / frame height`. It is never formed as a number: both scaled
//! dimensions are computed in integers, rounded down, so that the limiting
//! dimension always comes out as the tile's own.

use vstd::prelude::*;
use crate::error::SheetError;

verus! {

/// The fixed size of every tile of a sheet. Both dimensions of a usable tile
/// are positive.
#[derive(Clone, Copy, Debug, PartialEq, Eq, Structural)]
pub struct TileSize {
    pub width: u32,
    pub height: u32,
}

impl TileSize {
    /// Both dimensions are positive.
    pub open spec fn wf(self) -> bool {
        self.width > 0 && self.height > 0
    }

    /// A tile of the given size, unless a dimension is zero.
    pub fn new(width: u32, height: u32) -> (tile: Option<TileSize>)
        ensures
            tile is Some <==> width > 0 && height > 0,
            tile matches Some(t) ==> t.width == width && t.height == height && t.wf(),
    {
        if width == 0 || height == 0 {
            None
        } else {
            Some(TileSize { width, height })
        }
    }
}

/// Whether the width is the dimension that limits the scale factor, that is
/// whether `tile_w / frame_w <= tile_h / frame_h` as fractions.
pub open spec fn width_limits(frame_w: nat, frame_h: nat, tile_w: nat, tile_h: nat) -> bool {
    tile_w * frame_h <= tile_h * frame_w
}

/// The width of the frame after scaling to fit the tile, rounded down.
pub open spec fn fitted_width(frame_w: nat, frame_h: nat, tile_w: nat, tile_h: nat) -> nat
    recommends
        frame_w > 0,
        frame_h > 0,
{
    if width_limits(frame_w, frame_h, tile_w, tile_h) {
        tile_w
    } else {
        (frame_w * tile_h) / frame_h
    }
}

/// The height of the frame after scaling to fit the tile, rounded down.
pub open spec fn fitted_height(frame_w: nat, frame_h: nat, tile_w: nat, tile_h: nat) -> nat
    recommends
        frame_w > 0,
        frame_h > 0,
{
    if width_limits(frame_w, frame_h, tile_w, tile_h) {
        (frame_h * tile_w) / frame_w
    } else {
        tile_h
    }
}

/// The margin left of (or above) content of size `inner` centred in `outer`.
/// An odd pixel left over goes to the right (or below).
pub open spec fn centre_margin(outer: nat, inner: nat) -> nat
    recommends
        inner <= outer,
{
    ((outer - inner) / 2) as nat
}

/// The size and the margins of one frame inside its tile.
#[derive(Clone, Copy, Debug, PartialEq, Eq, Structural)]
pub struct Placement {
    /// Width of the scaled frame.
    pub width: u32,
    /// Height of the scaled frame.
    pub height: u32,
    /// Columns of the tile left free to the left of the scaled frame.
    pub margin_x: u32,
    /// Rows of the tile left free above the scaled frame.
    pub margin_y: u32,
}

/// The placement that scale-to-fit and centring give a frame of the given
/// size in the given tile.
pub open spec fn placement_of(frame_w: nat, frame_h: nat, tile: TileSize) -> Placement {
    let w = fitted_width(frame_w, frame_h, tile.width as nat, tile.height as nat);
    let h = fitted_height(frame_w, frame_h, tile.width as nat, tile.height as nat);
    Placement {
        width: w as u32,
        height: h as u32,
        margin_x: centre_margin(tile.width as nat, w) as u32,
        margin_y: centre_margin(tile.height as nat, h) as u32,
    }
}

/// A scaled frame never exceeds its tile, and touches it in the limiting
/// dimension.
pub proof fn lemma_fit_stays_in_tile(frame_w: nat, frame_h: nat, tile_w: nat, tile_h: nat)
    requires
        frame_w > 0,
        frame_h > 0,
    ensures
        fitted_width(frame_w, frame_h, tile_w, tile_h) <= tile_w,
        fitted_height(frame_w, frame_h, tile_w, tile_h) <= tile_h,
        fitted_width(frame_w, frame_h, tile_w, tile_h) == tile_w || fitted_height(
            frame_w,
            frame_h,
            tile_w,
            tile_h,
        ) == tile_h,
{
    if width_limits(frame_w, frame_h, tile_w, tile_h) {
        assert(frame_h * tile_w <= tile_h * frame_w) by (nonlinear_arith)
            requires
                tile_w * frame_h <= tile_h * frame_w,
        ;
        lemma_floor_quotient_bound(frame_h * tile_w, frame_w, tile_h);
    } else {
        assert(frame_w * tile_h <= tile_w * frame_h) by (nonlinear_arith)
            requires
                tile_w * frame_h > tile_h * frame_w,
        ;
        lemma_floor_quotient_bound(frame_w * tile_h, frame_h, tile_w);
    }
}

/// Scaling keeps the aspect ratio up to the pixel lost in rounding down:
/// cross-multiplied, the two ratios differ by less than one frame dimension.
pub proof fn lemma_fit_keeps_aspect(frame_w: nat, frame_h: nat, tile_w: nat, tile_h: nat)
    requires
        frame_w > 0,
        frame_h > 0,
    ensures
        ({
            let w = fitted_width(frame_w, frame_h, tile_w, tile_h);
            let h = fitted_height(frame_w, frame_h, tile_w, tile_h);
            if width_limits(frame_w, frame_h, tile_w, tile_h) {
                0 <= w * frame_h - h * frame_w < frame_w
            } else {
                0 <= h * frame_w - w * frame_h < frame_h
            }
        }),
{
    if width_limits(frame_w, frame_h, tile_w, tile_h) {
        lemma_floor_quotient_step(frame_h * tile_w, frame_w);
        assert(tile_w * frame_h == frame_h * tile_w) by (nonlinear_arith);
    } else {
        lemma_floor_quotient_step(frame_w * tile_h, frame_h);
        assert(tile_h * frame_w == frame_w * tile_h) by (nonlinear_arith);
    }
}

/// A frame shaped like the tile fills it: it is scaled to the tile's exact
/// size and both centring margins are zero.
pub proof fn lemma_same_aspect_fills_tile(frame_w: nat, frame_h: nat, tile: TileSize)
    requires
        frame_w > 0,
        frame_h > 0,
        frame_w * tile.height == frame_h * tile.width,
    ensures
        placement_of(frame_w, frame_h, tile).width == tile.width,
        placement_of(frame_w, frame_h, tile).height == tile.height,
        placement_of(frame_w, frame_h, tile).margin_x == 0,
        placement_of(frame_w, frame_h, tile).margin_y == 0,
{
    let tw = tile.width as nat;
    let th = tile.height as nat;
    assert(tw * frame_h == th * frame_w) by (nonlinear_arith)
        requires
            frame_w * th == frame_h * tw,
    ;
    assert((frame_h * tw) / frame_w == th) by (nonlinear_arith)
        requires
            frame_w > 0,
            frame_w * th == frame_h * tw,
    ;
}

/// `n / d` is at most `bound` where `n <= bound * d`.
proof fn lemma_floor_quotient_bound(n: nat, d: nat, bound: nat)
    by (nonlinear_arith)
    requires
        d > 0,
        n <= bound * d,
    ensures
        n / d <= bound,
{
}

/// The defining inequality of the floor quotient.
proof fn lemma_floor_quotient_step(n: nat, d: nat)
    by (nonlinear_arith)
    requires
        d > 0,
    ensures
        (n / d) * d <= n < (n / d) * d + d,
{
}

/// Computes how a frame of the given size is scaled and centred in `tile`.
/// A frame with a zero dimension cannot be scaled and is refused.
pub fn place_in_tile(frame_w: u32, frame_h: u32, tile: TileSize) -> (res: Result<
    Placement,
    SheetError,
>)
    ensures
        (frame_w == 0 || frame_h == 0) <==> res == Err::<Placement, SheetError>(
            SheetError::InvalidFrame,
        ),
        frame_w > 0 && frame_h > 0 ==> res == Ok::<Placement, SheetError>(
            placement_of(frame_w as nat, frame_h as nat, tile),
        ),
        res matches Ok(p) ==> p.width <= tile.width && p.height <= tile.height && p.margin_x
            + p.width <= tile.width && p.margin_y + p.height <= tile.height,
{
    if frame_w == 0 || frame_h == 0 {
        return Err(SheetError::InvalidFrame);
    }
    let fw: u64 = frame_w as u64;
    let fh: u64 = frame_h as u64;
    let tw: u64 = tile.width as u64;
    let th: u64 = tile.height as u64;
    proof {
        lemma_fit_stays_in_tile(frame_w as nat, frame_h as nat, tile.width as nat, tile.height as nat);
        assert(tw * fh <= 0xffff_ffff * 0xffff_ffff) by (nonlinear_arith)
            requires
                tw <= 0xffff_ffff,
                fh <= 0xffff_ffff,
        ;
        assert(th * fw <= 0xffff_ffff * 0xffff_ffff) by (nonlinear_arith)
            requires
                th <= 0xffff_ffff,
                fw <= 0xffff_ffff,
        ;
        assert(fh * tw == tw * fh && fw * th == th * fw) by (nonlinear_arith);
    }
    let (width, height): (u32, u32) = if tw * fh <= th * fw {
        (tile.width, ((fh * tw) / fw) as u32)
    } else {
        (((fw * th) / fh) as u32, tile.height)
    };
    Ok(
        Placement {
            width,
            height,
            margin_x: (tile.width - width) / 2,
            margin_y: (tile.height - height) / 2,
        },
    )
}

} // verus!
