//! The sprite-sheet assembler: lays a sequence of frames out on one raster,
//! tile by tile, row by row, and reports the grid and the place of the last
//! frame written.

use vstd::prelude::*;
use crate::compose::{
    check_scaling_fits, composite_tile, in_tile, is_rendition, lemma_placement_stays_in_tile,
    placed_pixel, scaling_fits,
};
use crate::error::SheetError;
use crate::layout::{grid_rows, lemma_rows_cover_frames, rows_needed, tile_corner};
use crate::locate::{first_coordinate, last_frame_pos, last_frame_spec};
use crate::raster::{
    can_hold_raster, composite_pixel, fits_raster, lemma_pixels_determine_raster, pixel_count,
    transparent, Raster, RasterView,
};
use crate::scale::{centre_margin, lemma_fit_stays_in_tile, placement_of, TileSize};

verus! {

/// The grid and the outcome of one assembly.
#[derive(Clone, Copy, Debug, PartialEq, Eq, Structural)]
pub struct SpriteSheetResult {
    /// Rows of the grid.
    pub rows: u32,
    /// Columns of the grid.
    pub columns: u32,
    /// Column of the last frame written.
    pub last_frame_x: u32,
    /// Row of the last frame written.
    pub last_frame_y: u32,
    /// How many frames were laid onto the sheet.
    pub frames_written: u32,
}

/// How many of `frame_count` frames are written under an optional cap.
pub open spec fn frames_to_write(frame_count: nat, max_frames: Option<u32>) -> nat {
    match max_frames {
        Some(cap) => if cap < frame_count {
            cap as nat
        } else {
            frame_count
        },
        None => frame_count,
    }
}

/// Whether one of the first `count` frames has a width or a height of zero.
pub open spec fn has_empty_frame(frames: Seq<Raster>, count: nat) -> bool {
    exists|i: int| 0 <= i < count && is_empty_frame(#[trigger] frames[i])
}

/// Whether the frame has a width or a height of zero.
pub open spec fn is_empty_frame(frame: Raster) -> bool {
    frame.width == 0 || frame.height == 0
}

/// The failure that an assembly ends in, if any. No frames at all is the
/// first thing looked at, then the column count, then the frames that would
/// be written, in order; a cap of zero leaves nothing written.
pub open spec fn assembly_failure(
    frames: Seq<Raster>,
    columns: u32,
    max_frames: Option<u32>,
) -> Option<SheetError> {
    if frames.len() == 0 {
        Some(SheetError::EmptySequence)
    } else if columns == 0 {
        Some(SheetError::InvalidLayout)
    } else if has_empty_frame(frames, frames_to_write(frames.len(), max_frames)) {
        Some(SheetError::InvalidFrame)
    } else if frames_to_write(frames.len(), max_frames) == 0 {
        Some(SheetError::EmptySequence)
    } else {
        None
    }
}

/// The summary of a successful assembly. The grid is sized for all the
/// frames; the last frame is located among those written.
pub open spec fn summary_of(
    frame_count: nat,
    columns: u32,
    max_frames: Option<u32>,
    zero_based: bool,
) -> SpriteSheetResult {
    let rows = rows_needed(frame_count, columns as nat);
    let written = frames_to_write(frame_count, max_frames);
    let last = last_frame_spec(columns as nat, rows, written, zero_based);
    SpriteSheetResult {
        rows: rows as u32,
        columns,
        last_frame_x: last.0 as u32,
        last_frame_y: last.1 as u32,
        frames_written: written as u32,
    }
}

/// Whether a sheet for `frame_count` frames can be addressed and held: its
/// width and height are `u32` values and its buffer can be allocated.
pub open spec fn sheet_fits(frame_count: nat, tile: TileSize, columns: nat) -> bool {
    &&& tile.width * columns <= u32::MAX
    &&& tile.height * rows_needed(frame_count, columns) <= u32::MAX
    &&& can_hold_raster(
        (tile.width * columns) as nat,
        (tile.height * rows_needed(frame_count, columns)) as nat,
    )
}

/// Whether a frame is well formed and can be scaled to fit `tile` in memory.
pub open spec fn frame_fits(frame: Raster, tile: TileSize) -> bool {
    frame.wf() && scaling_fits(frame.width as nat, frame.height as nat, tile)
}

/// The limits of the machine on an assembly: the frames can be counted in a
/// `u32`; each frame that would be written is well formed and can be scaled
/// in memory; and where a sheet is made, it can be addressed and held.
pub open spec fn within_limits(
    frames: Seq<Raster>,
    tile: TileSize,
    columns: u32,
    max_frames: Option<u32>,
) -> bool {
    &&& frames.len() <= u32::MAX
    &&& forall|i: int|
        0 <= i < frames_to_write(frames.len(), max_frames) ==> frame_fits(#[trigger] frames[i], tile)
    &&& (frames.len() > 0 && columns > 0 ==> sheet_fits(frames.len(), tile, columns as nat))
}

/// Pixel `(tx, ty)`, counted from the tile's corner, of a transparent tile
/// onto which `scaled` was laid, centred.
pub open spec fn tile_pixel(scaled: RasterView, tile: TileSize, tx: int, ty: int) -> Seq<u8> {
    let x0 = centre_margin(tile.width as nat, scaled.width);
    let y0 = centre_margin(tile.height as nat, scaled.height);
    if scaled.contains(tx - x0, ty - y0) {
        composite_pixel(transparent(), scaled.pixel(tx - x0, ty - y0))
    } else {
        transparent()
    }
}

/// Pixel `(px, py)` of the sheet that shows the scaled frames `tiles` in
/// tiles of size `tile`, `columns` to a row: the pixel lies in the tile of
/// some index, and shows that frame if there is one and nothing otherwise.
pub open spec fn sheet_pixel(
    tiles: Seq<RasterView>,
    tile: TileSize,
    columns: nat,
    px: int,
    py: int,
) -> Seq<u8> {
    let index = (py / (tile.height as int)) * columns + px / (tile.width as int);
    if 0 <= index < tiles.len() {
        tile_pixel(tiles[index], tile, px % (tile.width as int), py % (tile.height as int))
    } else {
        transparent()
    }
}

/// Whether `sheet` is the sheet of `columns` by `rows` tiles that shows the
/// scaled frames `tiles`.
pub open spec fn is_sheet_of(
    sheet: RasterView,
    tiles: Seq<RasterView>,
    tile: TileSize,
    columns: nat,
    rows: nat,
) -> bool {
    &&& sheet.wf()
    &&& sheet.width == tile.width * columns
    &&& sheet.height == tile.height * rows
    &&& forall|px: int, py: int|
        sheet.contains(px, py) ==> #[trigger] sheet.pixel(px, py) == sheet_pixel(
            tiles,
            tile,
            columns,
            px,
            py,
        )
}

/// Whether `tiles` can be what scaling the first frames gives, one each.
pub open spec fn are_renditions(tiles: Seq<RasterView>, frames: Seq<Raster>, tile: TileSize) -> bool {
    &&& tiles.len() <= frames.len()
    &&& forall|i: int| 0 <= i < tiles.len() ==> is_rendition(#[trigger] tiles[i], frames[i]@, tile)
}

/// Whether the frame already has the size that scaling to fit `tile` would
/// give it, so that it is laid onto the sheet as it is.
pub open spec fn needs_no_scaling(frame: Raster, tile: TileSize) -> bool {
    &&& placement_of(frame.width as nat, frame.height as nat, tile).width == frame.width
    &&& placement_of(frame.width as nat, frame.height as nat, tile).height == frame.height
}

/// Laying the same scaled frames out in the same grid twice gives the same
/// sheet, byte for byte.
pub proof fn lemma_same_tiles_same_sheet(
    first: RasterView,
    second: RasterView,
    tiles: Seq<RasterView>,
    tile: TileSize,
    columns: nat,
    rows: nat,
)
    requires
        is_sheet_of(first, tiles, tile, columns, rows),
        is_sheet_of(second, tiles, tile, columns, rows),
    ensures
        first == second,
{
    lemma_pixels_determine_raster(first, second);
}

/// Assembling the same frames with the same parameters twice gives the same
/// sheet, byte for byte, where none of the frames written has to be
/// resampled: whatever two runs made of the frames, they made the same.
pub proof fn lemma_assembly_repeats(
    frames: Seq<Raster>,
    tile: TileSize,
    columns: nat,
    rows: nat,
    first_tiles: Seq<RasterView>,
    first: RasterView,
    second_tiles: Seq<RasterView>,
    second: RasterView,
)
    requires
        first_tiles.len() == second_tiles.len(),
        are_renditions(first_tiles, frames, tile),
        are_renditions(second_tiles, frames, tile),
        forall|i: int| 0 <= i < first_tiles.len() ==> needs_no_scaling(#[trigger] frames[i], tile),
        is_sheet_of(first, first_tiles, tile, columns, rows),
        is_sheet_of(second, second_tiles, tile, columns, rows),
    ensures
        first == second,
{
    assert(first_tiles =~= second_tiles) by {
        assert forall|i: int| 0 <= i < first_tiles.len() implies needs_no_scaling(
            #[trigger] frames[i],
            tile,
        ) by {}
    }
    lemma_same_tiles_same_sheet(first, second, first_tiles, tile, columns, rows);
}

/// A pixel lies in tile `k` of a row of tiles exactly if dividing its
/// coordinate by the tile's size gives `k`, and the remainder is then where
/// it lies inside the tile.
proof fn lemma_pixel_in_cell(p: int, size: int, k: int)
    by (nonlinear_arith)
    requires
        size > 0,
        0 <= p,
    ensures
        (k * size <= p < k * size + size) <==> p / size == k,
        p / size == k ==> p % size == p - k * size,
{
}

/// Row-major numbering: a cell of the grid has index `i` exactly if its
/// column and row are the remainder and the quotient of `i` by `columns`.
proof fn lemma_cell_index(i: int, columns: int, col: int, row: int)
    by (nonlinear_arith)
    requires
        columns > 0,
        0 <= i,
        0 <= col < columns,
    ensures
        row * columns + col == i <==> (col == i % columns && row == i / columns),
{
}

/// A pixel of the sheet lies in one of the grid's columns.
proof fn lemma_column_in_grid(px: int, tile_w: int, columns: int)
    by (nonlinear_arith)
    requires
        tile_w > 0,
        0 <= px < tile_w * columns,
    ensures
        0 <= px / tile_w < columns,
{
}

/// The tile of index `i` lies on the sheet.
proof fn lemma_tile_on_sheet(i: int, frame_count: int, tile: TileSize, columns: int, rows: int)
    by (nonlinear_arith)
    requires
        columns > 0,
        0 <= i < frame_count,
        frame_count <= rows * columns,
    ensures
        0 <= i % columns < columns,
        0 <= i / columns < rows,
        (i % columns) * tile.width + tile.width <= tile.width * columns,
        (i / columns) * tile.height + tile.height <= tile.height * rows,
{
}

/// Laying the next scaled frame into its tile turns the sheet of the frames
/// so far into the sheet of one frame more.
proof fn lemma_sheet_grows(
    before: RasterView,
    after: RasterView,
    tiles: Seq<RasterView>,
    scaled: RasterView,
    tile: TileSize,
    columns: nat,
    rows: nat,
)
    requires
        tile.wf(),
        columns > 0,
        is_sheet_of(before, tiles, tile, columns, rows),
        scaled.width <= tile.width,
        scaled.height <= tile.height,
        after.wf(),
        after.width == before.width,
        after.height == before.height,
        forall|px: int, py: int|
            #![trigger after.pixel(px, py)]
            before.contains(px, py) ==> after.pixel(px, py) == placed_pixel(
                before,
                scaled,
                tile,
                (tiles.len() % columns) * tile.width,
                (tiles.len() / columns) * tile.height,
                px,
                py,
            ),
    ensures
        is_sheet_of(after, tiles.push(scaled), tile, columns, rows),
{
    let i = tiles.len() as int;
    let tw = tile.width as int;
    let th = tile.height as int;
    let corner_x = (i % (columns as int)) * tw;
    let corner_y = (i / (columns as int)) * th;
    let more = tiles.push(scaled);
    assert forall|px: int, py: int| after.contains(px, py) implies #[trigger] after.pixel(px, py)
        == sheet_pixel(more, tile, columns, px, py) by {
        let col = px / tw;
        let row = py / th;
        let index = row * columns + col;
        lemma_column_in_grid(px, tw, columns as int);
        lemma_pixel_in_cell(px, tw, i % (columns as int));
        lemma_pixel_in_cell(py, th, i / (columns as int));
        lemma_cell_index(i, columns as int, col, row);
        if !in_tile(tile, corner_x, corner_y, px, py) {
            lemma_placement_stays_in_tile(before, scaled, tile, corner_x, corner_y, px, py);
        }
    }
}

/// Whether the machine's limits allow an assembly: the condition that
/// `create_sprite_sheet` asks of its caller, computed.
pub fn check_limits(
    frames: &Vec<Raster>,
    tile: TileSize,
    columns: u32,
    max_frames: Option<u32>,
) -> (ok: bool)
    ensures
        ok == within_limits(frames@, tile, columns, max_frames),
{
    if frames.len() > u32::MAX as usize {
        return false;
    }
    let frame_count: u32 = frames.len() as u32;
    let target: u32 = capped_count(frame_count, max_frames);
    let mut i: u32 = 0;
    while i < target
        invariant
            i <= target <= frames.len(),
            target == frames_to_write(frames@.len(), max_frames),
            forall|j: int| 0 <= j < i ==> frame_fits(#[trigger] frames@[j], tile),
        decreases target - i,
    {
        let frame = &frames[i as usize];
        if !frame.is_well_formed() || !check_scaling_fits(frame.width, frame.height, tile) {
            return false;
        }
        i = i + 1;
    }
    if frame_count == 0 || columns == 0 {
        return true;
    }
    let rows: u32 = match grid_rows(frame_count, columns) {
        Ok(rows) => rows,
        Err(_) => { return true; },
    };
    let width: u64 = pixel_count(tile.width, columns);
    let height: u64 = pixel_count(tile.height, rows);
    if width > u32::MAX as u64 || height > u32::MAX as u64 {
        return false;
    }
    fits_raster(width as u32, height as u32)
}

/// How many of `frame_count` frames are written under an optional cap.
pub fn capped_count(frame_count: u32, max_frames: Option<u32>) -> (count: u32)
    ensures
        count == frames_to_write(frame_count as nat, max_frames),
        count <= frame_count,
{
    match max_frames {
        Some(cap) => if cap < frame_count {
            cap
        } else {
            frame_count
        },
        None => frame_count,
    }
}

/// Lays the frames out on one sheet. The grid has `columns` columns and as
/// many rows as all the frames need, whatever the cap. Frame `i` is scaled
/// to fit a tile and centred in the tile of column `i % columns`, row
/// `i / columns`; with a cap, only the first `max_frames` frames are
/// written. The summary gives the grid, the number of frames written and the
/// grid coordinate of the last of them.
///
/// Fails with `EmptySequence` where there is no frame or the cap is zero,
/// with `InvalidLayout` where `columns` is zero, and with `InvalidFrame`
/// where a frame that would be written has a zero dimension.
pub fn create_sprite_sheet(
    frames: &Vec<Raster>,
    tile_size: TileSize,
    columns: u32,
    max_frames: Option<u32>,
    zero_based: bool,
) -> (res: Result<(Raster, SpriteSheetResult), SheetError>)
    requires
        tile_size.wf(),
        within_limits(frames@, tile_size, columns, max_frames),
    ensures
        match res {
            Err(e) => assembly_failure(frames@, columns, max_frames) == Some(e),
            Ok((sheet, info)) => {
                &&& assembly_failure(frames@, columns, max_frames) is None
                &&& info == summary_of(frames@.len(), columns, max_frames, zero_based)
                &&& info.columns == columns
                &&& (info.rows - 1) * columns < frames@.len() <= info.rows * columns
                &&& info.frames_written == frames_to_write(frames@.len(), max_frames)
                &&& 1 <= info.frames_written <= frames@.len()
                &&& first_coordinate(zero_based) <= info.last_frame_x < columns
                    + first_coordinate(zero_based)
                &&& first_coordinate(zero_based) <= info.last_frame_y < info.rows
                    + first_coordinate(zero_based)
                &&& (info.last_frame_y - first_coordinate(zero_based)) * columns + (
                info.last_frame_x - first_coordinate(zero_based)) == info.frames_written - 1
                &&& sheet.wf()
                &&& sheet.width == tile_size.width * columns
                &&& sheet.height == tile_size.height * info.rows
                &&& exists|tiles: Seq<RasterView>|
                    {
                        &&& tiles.len() == info.frames_written
                        &&& are_renditions(tiles, frames@, tile_size)
                        &&& is_sheet_of(
                            sheet@,
                            tiles,
                            tile_size,
                            info.columns as nat,
                            info.rows as nat,
                        )
                    }
            },
        },
{
    if frames.len() == 0 {
        return Err(SheetError::EmptySequence);
    }
    let frame_count: u32 = frames.len() as u32;
    let rows: u32 = match grid_rows(frame_count, columns) {
        Ok(rows) => rows,
        Err(e) => { return Err(e); },
    };
    let target: u32 = capped_count(frame_count, max_frames);
    proof {
        lemma_rows_cover_frames(frame_count as nat, columns as nat);
        assert(rows > 0) by (nonlinear_arith)
            requires
                rows * columns >= frame_count,
                frame_count > 0,
        ;
    }
    let width: u32 = (tile_size.width as u64 * columns as u64) as u32;
    let height: u32 = (tile_size.height as u64 * rows as u64) as u32;
    let mut sheet = Raster::blank(width, height);
    let ghost mut tiles: Seq<RasterView> = Seq::empty();
    let mut written: u32 = 0;
    while written < target
        invariant
            tile_size.wf(),
            within_limits(frames@, tile_size, columns, max_frames),
            columns > 0,
            frame_count == frames@.len(),
            frame_count <= rows * columns,
            target == frames_to_write(frames@.len(), max_frames),
            written <= target <= frame_count,
            sheet.width == tile_size.width * columns,
            sheet.height == tile_size.height * rows,
            tiles.len() == written,
            are_renditions(tiles, frames@, tile_size),
            is_sheet_of(sheet@, tiles, tile_size, columns as nat, rows as nat),
            !has_empty_frame(frames@, written as nat),
        decreases target - written,
    {
        let frame = &frames[written as usize];
        proof {
            lemma_tile_on_sheet(
                written as int,
                frame_count as int,
                tile_size,
                columns as int,
                rows as int,
            );
        }
        let (corner_x, corner_y): (u32, u32) = match tile_corner(written, columns, tile_size) {
            Ok(corner) => (corner.0 as u32, corner.1 as u32),
            Err(e) => { return Err(e); },
        };
        let ghost before = sheet@;
        match composite_tile(&mut sheet, frame, tile_size, corner_x, corner_y) {
            Err(e) => {
                proof {
                    assert(is_empty_frame(frames@[written as int]));
                }
                return Err(e);
            },
            Ok(()) => {
                proof {
                    let scaled = choose|scaled: RasterView|
                        {
                            &&& is_rendition(scaled, frame@, tile_size)
                            &&& forall|px: int, py: int|
                                #![trigger sheet@.pixel(px, py)]
                                before.contains(px, py) ==> sheet@.pixel(px, py) == placed_pixel(
                                    before,
                                    scaled,
                                    tile_size,
                                    corner_x as int,
                                    corner_y as int,
                                    px,
                                    py,
                                )
                        };
                    lemma_fit_stays_in_tile(
                        frame.width as nat,
                        frame.height as nat,
                        tile_size.width as nat,
                        tile_size.height as nat,
                    );
                    lemma_sheet_grows(
                        before,
                        sheet@,
                        tiles,
                        scaled,
                        tile_size,
                        columns as nat,
                        rows as nat,
                    );
                    tiles = tiles.push(scaled);
                }
            },
        }
        written = written.saturating_add(1);
    }
    if written == 0 {
        return Err(SheetError::EmptySequence);
    }
    proof {
        assert(written <= columns * rows) by (nonlinear_arith)
            requires
                written <= frame_count,
                frame_count <= rows * columns,
        ;
    }
    let pos = last_frame_pos(columns, rows, written, zero_based);
    let info = SpriteSheetResult {
        rows,
        columns,
        last_frame_x: pos.0,
        last_frame_y: pos.1,
        frames_written: written,
    };
    Ok((sheet, info))
}

} // verus!
