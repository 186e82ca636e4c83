//! Grid geometry: how many rows a sheet needs and where each tile starts.

use vstd::prelude::*;
use crate::error::SheetError;
use crate::scale::TileSize;

verus! {

/// The ceiling of `frame_count / columns`: the number of grid rows that
/// `frame_count` tiles fill when each row holds `columns` of them.
pub open spec fn rows_needed(frame_count: nat, columns: nat) -> nat
    recommends
        columns > 0,
{
    if frame_count % columns == 0 {
        frame_count / columns
    } else {
        frame_count / columns + 1
    }
}

/// The rows that `rows_needed` gives hold every frame, and one row fewer
/// would not: the row count is the exact ceiling of the quotient.
pub proof fn lemma_rows_cover_frames(frame_count: nat, columns: nat)
    requires
        columns > 0,
    ensures
        rows_needed(frame_count, columns) * columns >= frame_count,
        frame_count > 0 ==> (rows_needed(frame_count, columns) - 1) * columns < frame_count,
        frame_count == 0 ==> rows_needed(frame_count, columns) == 0,
{
    let q = frame_count / columns;
    let r = frame_count % columns;
    assert(frame_count == q * columns + r && 0 <= r < columns) by (nonlinear_arith)
        requires
            columns > 0,
            q == frame_count / columns,
            r == frame_count % columns,
    ;
    assert((q + 1) * columns == q * columns + columns) by (nonlinear_arith);
    assert((q - 1) * columns == q * columns - columns) by (nonlinear_arith);
    if frame_count == 0 {
        assert(q == 0 && r == 0) by (nonlinear_arith)
            requires
                columns > 0,
                0 == q * columns + r,
                0 <= r,
                0 <= q,
        ;
    }
}

/// The number of rows for `frame_count` frames in `columns` columns.
/// A grid without columns is refused.
pub fn grid_rows(frame_count: u32, columns: u32) -> (res: Result<u32, SheetError>)
    ensures
        columns == 0 <==> res == Err::<u32, SheetError>(SheetError::InvalidLayout),
        columns > 0 ==> res == Ok::<u32, SheetError>(rows_needed(frame_count as nat, columns as nat) as u32),
        columns > 0 ==> rows_needed(frame_count as nat, columns as nat) <= frame_count,
        res matches Ok(rows) ==> rows * columns >= frame_count && (frame_count > 0 ==> (rows - 1)
            * columns < frame_count),
{
    if columns == 0 {
        return Err(SheetError::InvalidLayout);
    }
    let q: u32 = frame_count / columns;
    let r: u32 = frame_count % columns;
    proof {
        lemma_rows_cover_frames(frame_count as nat, columns as nat);
        assert(frame_count == q * columns + r && q <= frame_count) by (nonlinear_arith)
            requires
                columns > 0,
                q == frame_count as int / columns as int,
                r == frame_count as int % columns as int,
        ;
        if r != 0 {
            assert(q < frame_count) by (nonlinear_arith)
                requires
                    columns > 0,
                    frame_count == q * columns + r,
                    r > 0,
                    q >= 0,
            ;
        }
    }
    if r == 0 {
        Ok(q)
    } else {
        Ok(q + 1)
    }
}

/// The column count used where the caller names none: a third of the frame
/// rate, rounded down, and at least one.
pub open spec fn default_columns_spec(fps: u32) -> u32 {
    if fps / 3 >= 1 {
        (fps / 3) as u32
    } else {
        1
    }
}

/// The column count used where the caller names none.
pub fn default_columns(fps: u32) -> (columns: u32)
    ensures
        columns == default_columns_spec(fps),
        columns >= 1,
{
    let third: u32 = fps / 3;
    if third >= 1 {
        third
    } else {
        1
    }
}

/// The top-left pixel of the tile of frame `index` on the sheet: frames fill
/// the grid row by row.
pub open spec fn tile_corner_spec(index: nat, columns: nat, tile: TileSize) -> (nat, nat)
    recommends
        columns > 0,
{
    (((index % columns) * tile.width) as nat, ((index / columns) * tile.height) as nat)
}

/// The top-left pixel of the tile of frame `index`. A grid without columns
/// is refused.
pub fn tile_corner(index: u32, columns: u32, tile: TileSize) -> (res: Result<
    (u64, u64),
    SheetError,
>)
    ensures
        columns == 0 <==> res is Err,
        res matches Err(e) ==> e == SheetError::InvalidLayout,
        res matches Ok(corner) ==> corner.0 == tile_corner_spec(
            index as nat,
            columns as nat,
            tile,
        ).0 && corner.1 == tile_corner_spec(index as nat, columns as nat, tile).1,
{
    if columns == 0 {
        return Err(SheetError::InvalidLayout);
    }
    let col: u32 = index % columns;
    let row: u32 = index / columns;
    proof {
        assert(col * tile.width <= 0xffff_ffff * 0xffff_ffff) by (nonlinear_arith)
            requires
                col <= 0xffff_ffff,
                tile.width <= 0xffff_ffff,
        ;
        assert(row * tile.height <= 0xffff_ffff * 0xffff_ffff) by (nonlinear_arith)
            requires
                row <= 0xffff_ffff,
                tile.height <= 0xffff_ffff,
        ;
    }
    Ok((col as u64 * tile.width as u64, row as u64 * tile.height as u64))
}

} // verus!
