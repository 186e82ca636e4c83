//! The tile compositor: scales one frame to fit a tile and lays it, centred,
//! onto the sheet at the tile's corner.

use vstd::prelude::*;
use crate::error::SheetError;
use crate::raster::{
    can_hold_raster, can_hold_working_copy, composite_pixel, fits_raster, fits_working_copy,
    overlay_onto, resample, Raster, RasterView,
};
use crate::scale::{
    centre_margin, fitted_height, fitted_width, lemma_fit_stays_in_tile, place_in_tile,
    placement_of, width_limits, TileSize,
};

verus! {

/// Whether `scaled` can be what scaling `frame` to fit `tile` gives: it has
/// the fitted size, and a frame that already has that size is kept pixel for
/// pixel. What resampling makes of any other frame is left open.
pub open spec fn is_rendition(scaled: RasterView, frame: RasterView, tile: TileSize) -> bool {
    &&& scaled.wf()
    &&& scaled.width == placement_of(frame.width, frame.height, tile).width
    &&& scaled.height == placement_of(frame.width, frame.height, tile).height
    &&& (scaled.width == frame.width && scaled.height == frame.height ==> scaled == frame)
}

/// Pixel `(px, py)` of a sheet after `scaled` was laid onto `sheet`, centred
/// in the tile whose corner is `(corner_x, corner_y)`.
pub open spec fn placed_pixel(
    sheet: RasterView,
    scaled: RasterView,
    tile: TileSize,
    corner_x: int,
    corner_y: int,
    px: int,
    py: int,
) -> Seq<u8> {
    let x0 = corner_x + centre_margin(tile.width as nat, scaled.width);
    let y0 = corner_y + centre_margin(tile.height as nat, scaled.height);
    if scaled.contains(px - x0, py - y0) {
        composite_pixel(sheet.pixel(px, py), scaled.pixel(px - x0, py - y0))
    } else {
        sheet.pixel(px, py)
    }
}

/// Whether `(px, py)` lies in the tile whose corner is `(corner_x, corner_y)`.
pub open spec fn in_tile(tile: TileSize, corner_x: int, corner_y: int, px: int, py: int) -> bool {
    corner_x <= px < corner_x + tile.width && corner_y <= py < corner_y + tile.height
}

/// Placing a scaled frame that fits the tile changes no pixel outside the tile.
pub proof fn lemma_placement_stays_in_tile(
    sheet: RasterView,
    scaled: RasterView,
    tile: TileSize,
    corner_x: int,
    corner_y: int,
    px: int,
    py: int,
)
    requires
        scaled.width <= tile.width,
        scaled.height <= tile.height,
        !in_tile(tile, corner_x, corner_y, px, py),
    ensures
        placed_pixel(sheet, scaled, tile, corner_x, corner_y, px, py) == sheet.pixel(px, py),
{
}

/// Whether the buffers that scaling a frame of the given size to fit `tile`
/// takes can be allocated: the scaled frame, and the working copy of the
/// resampling, which has the frame's width and the scaled height.
pub open spec fn scaled_copies_fit(frame_w: nat, frame_h: nat, tile: TileSize) -> bool {
    &&& can_hold_raster(
        placement_of(frame_w, frame_h, tile).width as nat,
        placement_of(frame_w, frame_h, tile).height as nat,
    )
    &&& can_hold_working_copy(frame_w, placement_of(frame_w, frame_h, tile).height as nat)
}

/// Whether a frame of the given size can be scaled to fit `tile` in memory.
/// A frame without pixels is never scaled. For any other, the buffers that
/// scaling takes must fit; they do in particular where a working copy of the
/// whole frame and one of the whole tile would, which is told from the sizes
/// alone (see `lemma_scaling_fits`).
pub open spec fn scaling_fits(frame_w: nat, frame_h: nat, tile: TileSize) -> bool {
    frame_w > 0 && frame_h > 0 ==> {
        ||| can_hold_working_copy(frame_w, frame_h) && can_hold_working_copy(
            tile.width as nat,
            tile.height as nat,
        )
        ||| scaled_copies_fit(frame_w, frame_h, tile)
    }
}

/// The buffers that scaling takes fit wherever a working copy of the frame
/// and one of the tile would: the working copy of the resampling is no
/// larger than the larger of the two.
pub proof fn lemma_scaling_fits(frame_w: nat, frame_h: nat, tile: TileSize)
    requires
        frame_w > 0,
        frame_h > 0,
        can_hold_working_copy(frame_w, frame_h),
        can_hold_working_copy(tile.width as nat, tile.height as nat),
    ensures
        scaled_copies_fit(frame_w, frame_h, tile),
{
    let tw = tile.width as nat;
    let th = tile.height as nat;
    lemma_fit_stays_in_tile(frame_w, frame_h, tw, th);
    let w = fitted_width(frame_w, frame_h, tw, th);
    let h = fitted_height(frame_w, frame_h, tw, th);
    assert(w * h <= tw * th) by (nonlinear_arith)
        requires
            w <= tw,
            h <= th,
    ;
    if h <= frame_h {
        assert(frame_w * h <= frame_w * frame_h) by (nonlinear_arith)
            requires
                h <= frame_h,
        ;
    } else {
        // The frame is enlarged, so the scaled width is at least the frame's.
        if width_limits(frame_w, frame_h, tw, th) {
            assert(frame_w < tw) by (nonlinear_arith)
                requires
                    frame_w > 0,
                    frame_h > 0,
                    h == (frame_h * tw) / frame_w,
                    h > frame_h,
            ;
        } else {
            assert(w >= frame_w) by (nonlinear_arith)
                requires
                    frame_h > 0,
                    w == (frame_w * th) / frame_h,
                    th > frame_h,
            ;
        }
        assert(frame_w * h <= w * h) by (nonlinear_arith)
            requires
                frame_w <= w,
        ;
    }
}

/// Whether a frame of the given size can be scaled to fit `tile` in memory.
pub fn check_scaling_fits(frame_w: u32, frame_h: u32, tile: TileSize) -> (ok: bool)
    ensures
        ok == scaling_fits(frame_w as nat, frame_h as nat, tile),
{
    match place_in_tile(frame_w, frame_h, tile) {
        Err(_) => true,
        Ok(p) => {
            proof {
                if can_hold_working_copy(frame_w as nat, frame_h as nat) && can_hold_working_copy(
                    tile.width as nat,
                    tile.height as nat,
                ) {
                    lemma_scaling_fits(frame_w as nat, frame_h as nat, tile);
                }
            }
            fits_raster(p.width, p.height) && fits_working_copy(frame_w, p.height)
        },
    }
}

/// Scales a frame to fit the tile, keeping its aspect ratio. A frame with a
/// zero dimension is refused.
pub fn scale_frame(frame: &Raster, tile: TileSize) -> (res: Result<Raster, SheetError>)
    requires
        frame.wf(),
        scaling_fits(frame.width as nat, frame.height as nat, tile),
    ensures
        res is Err <==> frame.width == 0 || frame.height == 0,
        res matches Err(e) ==> e == SheetError::InvalidFrame,
        res matches Ok(scaled) ==> scaled.wf() && is_rendition(scaled@, frame@, tile),
{
    match place_in_tile(frame.width, frame.height, tile) {
        Err(e) => Err(e),
        Ok(p) => {
            proof {
                if !scaled_copies_fit(frame.width as nat, frame.height as nat, tile) {
                    lemma_scaling_fits(frame.width as nat, frame.height as nat, tile);
                }
            }
            Ok(resample(frame, p.width, p.height))
        },
    }
}

/// Lays a scaled frame onto the sheet, centred in the tile whose corner is
/// `(corner_x, corner_y)`. Where the tile reaches beyond the sheet, the part
/// beyond is dropped.
pub fn place_scaled(
    sheet: &mut Raster,
    scaled: &Raster,
    tile: TileSize,
    corner_x: u32,
    corner_y: u32,
)
    requires
        old(sheet).wf(),
        scaled.wf(),
        scaled.width <= tile.width,
        scaled.height <= tile.height,
    ensures
        final(sheet).wf(),
        final(sheet).width == old(sheet).width,
        final(sheet).height == old(sheet).height,
        forall|px: int, py: int|
            #![trigger final(sheet)@.pixel(px, py)]
            old(sheet)@.contains(px, py) ==> final(sheet)@.pixel(px, py) == placed_pixel(
                old(sheet)@,
                scaled@,
                tile,
                corner_x as int,
                corner_y as int,
                px,
                py,
            ),
{
    let margin_x: u32 = (tile.width - scaled.width) / 2;
    let margin_y: u32 = (tile.height - scaled.height) / 2;
    let x: i64 = corner_x as i64 + margin_x as i64;
    let y: i64 = corner_y as i64 + margin_y as i64;
    overlay_onto(sheet, scaled, x, y);
}

/// Scales `frame` to fit `tile` and lays it onto the sheet, centred in the
/// tile whose corner is `(corner_x, corner_y)`. No pixel outside that tile
/// changes. A frame with a zero dimension is refused and the sheet left as
/// it was.
pub fn composite_tile(
    sheet: &mut Raster,
    frame: &Raster,
    tile: TileSize,
    corner_x: u32,
    corner_y: u32,
) -> (res: Result<(), SheetError>)
    requires
        old(sheet).wf(),
        frame.wf(),
        scaling_fits(frame.width as nat, frame.height as nat, tile),
    ensures
        res is Err <==> frame.width == 0 || frame.height == 0,
        res matches Err(e) ==> e == SheetError::InvalidFrame && *final(sheet) == *old(sheet),
        final(sheet).wf(),
        final(sheet).width == old(sheet).width,
        final(sheet).height == old(sheet).height,
        res is Ok ==> exists|scaled: RasterView|
            {
                &&& is_rendition(scaled, frame@, tile)
                &&& forall|px: int, py: int|
                    #![trigger final(sheet)@.pixel(px, py)]
                    old(sheet)@.contains(px, py) ==> final(sheet)@.pixel(px, py) == placed_pixel(
                        old(sheet)@,
                        scaled,
                        tile,
                        corner_x as int,
                        corner_y as int,
                        px,
                        py,
                    )
            },
        forall|px: int, py: int|
            #![trigger final(sheet)@.pixel(px, py)]
            old(sheet)@.contains(px, py) && !in_tile(tile, corner_x as int, corner_y as int, px, py)
                ==> final(sheet)@.pixel(px, py) == old(sheet)@.pixel(px, py),
{
    match scale_frame(frame, tile) {
        Err(e) => Err(e),
        Ok(scaled) => {
            proof {
                lemma_fit_stays_in_tile(
                    frame.width as nat,
                    frame.height as nat,
                    tile.width as nat,
                    tile.height as nat,
                );
            }
            place_scaled(sheet, &scaled, tile, corner_x, corner_y);
            Ok(())
        },
    }
}

} // verus!
