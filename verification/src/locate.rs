//! Where the last written frame sits in the grid.

use vstd::prelude::*;

verus! {

/// The flat index of the last of `frames_written` frames in a grid of
/// `columns * rows` tiles, counted row by row from zero. Frames beyond the
/// grid's capacity wrap round to its start.
pub open spec fn last_index(columns: nat, rows: nat, frames_written: nat) -> nat
    recommends
        columns > 0,
        rows > 0,
        frames_written > 0,
{
    ((frames_written - 1) % ((columns * rows) as int)) as nat
}

/// The number that the first column and the first row carry: zero in the
/// zero-based convention, one otherwise.
pub open spec fn first_coordinate(zero_based: bool) -> nat {
    if zero_based {
        0
    } else {
        1
    }
}

/// The grid coordinate `(x, y)` of the last written frame: column and row
/// counted from zero where `zero_based` holds, from one otherwise.
pub open spec fn last_frame_spec(
    columns: nat,
    rows: nat,
    frames_written: nat,
    zero_based: bool,
) -> (nat, nat)
    recommends
        columns > 0,
        rows > 0,
        frames_written > 0,
{
    let i = last_index(columns, rows, frames_written);
    let first = first_coordinate(zero_based);
    (i % columns + first, i / columns + first)
}

/// The reported coordinate names a tile of the grid.
pub proof fn lemma_last_frame_in_grid(
    columns: nat,
    rows: nat,
    frames_written: nat,
    zero_based: bool,
)
    requires
        columns > 0,
        rows > 0,
        frames_written > 0,
    ensures
        zero_based ==> last_frame_spec(columns, rows, frames_written, zero_based).0 < columns
            && last_frame_spec(columns, rows, frames_written, zero_based).1 < rows,
        !zero_based ==> 1 <= last_frame_spec(columns, rows, frames_written, zero_based).0
            <= columns && 1 <= last_frame_spec(columns, rows, frames_written, zero_based).1
            <= rows,
{
    let i = last_index(columns, rows, frames_written) as int;
    lemma_index_in_capacity(columns as int, rows as int, frames_written - 1);
    lemma_split_index(i, columns as int, rows as int);
}

/// While the frames fit the grid nothing wraps: the zero-based coordinate
/// is that of tile `frames_written - 1`, and the one-based coordinate is one
/// more in each direction.
pub proof fn lemma_last_frame_without_wrap(columns: nat, rows: nat, frames_written: nat)
    requires
        columns > 0,
        0 < frames_written <= columns * rows,
    ensures
        last_index(columns, rows, frames_written) == frames_written - 1,
        last_frame_spec(columns, rows, frames_written, true).1 * columns + last_frame_spec(
            columns,
            rows,
            frames_written,
            true,
        ).0 == frames_written - 1,
        last_frame_spec(columns, rows, frames_written, false).0 == last_frame_spec(
            columns,
            rows,
            frames_written,
            true,
        ).0 + 1,
        last_frame_spec(columns, rows, frames_written, false).1 == last_frame_spec(
            columns,
            rows,
            frames_written,
            true,
        ).1 + 1,
{
    let cap = (columns * rows) as int;
    let i = frames_written - 1;
    assert(i % cap == i) by (nonlinear_arith)
        requires
            0 <= i < cap,
    ;
    assert(i == (i / (columns as int)) * columns + i % (columns as int)) by (nonlinear_arith)
        requires
            columns > 0,
    ;
}

/// A remainder by the capacity is below the capacity.
proof fn lemma_index_in_capacity(columns: int, rows: int, i: int)
    by (nonlinear_arith)
    requires
        columns > 0,
        rows > 0,
        i >= 0,
    ensures
        columns * rows > 0,
        0 <= i % (columns * rows) < columns * rows,
{
}

/// Column and row of a flat index below the capacity lie in the grid.
proof fn lemma_split_index(i: int, columns: int, rows: int)
    by (nonlinear_arith)
    requires
        columns > 0,
        0 <= i < columns * rows,
    ensures
        0 <= i % columns < columns,
        0 <= i / columns < rows,
{
}

/// The grid coordinate of the last of `frames_written` frames in a grid of
/// `columns` by `rows` tiles, zero-based or one-based as asked.
pub fn last_frame_pos(columns: u32, rows: u32, frames_written: u32, zero_based: bool) -> (pos: (
    u32,
    u32,
))
    requires
        columns > 0,
        rows > 0,
        frames_written > 0,
    ensures
        pos.0 == last_frame_spec(columns as nat, rows as nat, frames_written as nat, zero_based).0,
        pos.1 == last_frame_spec(columns as nat, rows as nat, frames_written as nat, zero_based).1,
        first_coordinate(zero_based) <= pos.0 < columns + first_coordinate(zero_based),
        first_coordinate(zero_based) <= pos.1 < rows + first_coordinate(zero_based),
        frames_written <= columns * rows ==> (pos.1 - first_coordinate(zero_based)) * columns + (
        pos.0 - first_coordinate(zero_based)) == frames_written - 1,
{
    proof {
        lemma_last_frame_in_grid(columns as nat, rows as nat, frames_written as nat, zero_based);
        if frames_written <= columns * rows {
            lemma_last_frame_without_wrap(columns as nat, rows as nat, frames_written as nat);
        }
        assert(columns * rows <= 0xffff_ffff * 0xffff_ffff) by (nonlinear_arith)
            requires
                columns <= 0xffff_ffff,
                rows <= 0xffff_ffff,
        ;
        lemma_index_in_capacity(columns as int, rows as int, frames_written - 1);
        lemma_split_index(
            (frames_written - 1) % (columns * rows),
            columns as int,
            rows as int,
        );
    }
    let capacity: u64 = columns as u64 * rows as u64;
    let index: u64 = (frames_written - 1) as u64 % capacity;
    let x: u32 = (index % columns as u64) as u32;
    let y: u32 = (index / columns as u64) as u32;
    if zero_based {
        (x, y)
    } else {
        (x + 1, y + 1)
    }
}

} // verus!
