use vidtoss::error::SheetError;
use vidtoss::layout::{default_columns, grid_rows, tile_corner};
use vidtoss::locate::last_frame_pos;
use vidtoss::scale::{place_in_tile, Placement, TileSize};

#[test]
fn rows_are_the_ceiling_of_the_quotient() {
    assert_eq!(grid_rows(23, 5), Ok(5));
    assert_eq!(grid_rows(12, 4), Ok(3));
    assert_eq!(grid_rows(13, 4), Ok(4));
    assert_eq!(grid_rows(1, 30), Ok(1));
    assert_eq!(grid_rows(30, 1), Ok(30));
    assert_eq!(grid_rows(0, 7), Ok(0));
}

#[test]
fn rows_need_no_wider_arithmetic_at_the_top_of_the_range() {
    assert_eq!(grid_rows(u32::MAX, 1), Ok(u32::MAX));
    assert_eq!(grid_rows(u32::MAX, 2), Ok(0x8000_0000));
    assert_eq!(grid_rows(u32::MAX, u32::MAX), Ok(1));
    assert_eq!(grid_rows(u32::MAX - 1, u32::MAX), Ok(1));
}

#[test]
fn rows_times_columns_hold_every_frame() {
    for frame_count in 1u32..200 {
        for columns in 1u32..40 {
            let rows = grid_rows(frame_count, columns).unwrap();
            assert!(rows as u64 * columns as u64 >= frame_count as u64);
            assert!((rows as u64 - 1) * (columns as u64) < frame_count as u64);
        }
    }
}

#[test]
fn zero_columns_are_an_invalid_layout() {
    assert_eq!(grid_rows(23, 0), Err(SheetError::InvalidLayout));
    assert_eq!(grid_rows(0, 0), Err(SheetError::InvalidLayout));
    let tile = TileSize::new(64, 64).unwrap();
    assert_eq!(tile_corner(3, 0, tile), Err(SheetError::InvalidLayout));
}

#[test]
fn default_columns_are_a_third_of_the_frame_rate() {
    assert_eq!(default_columns(10), 3);
    assert_eq!(default_columns(30), 10);
    assert_eq!(default_columns(3), 1);
    assert_eq!(default_columns(u32::MAX), u32::MAX / 3);
}

#[test]
fn default_columns_are_never_zero() {
    assert_eq!(default_columns(0), 1);
    assert_eq!(default_columns(1), 1);
    assert_eq!(default_columns(2), 1);
}

#[test]
fn tile_corners_fill_the_grid_row_by_row() {
    let tile = TileSize::new(64, 48).unwrap();
    assert_eq!(tile_corner(0, 5, tile), Ok((0, 0)));
    assert_eq!(tile_corner(4, 5, tile), Ok((256, 0)));
    assert_eq!(tile_corner(5, 5, tile), Ok((0, 48)));
    assert_eq!(tile_corner(22, 5, tile), Ok((128, 192)));
}

#[test]
fn tile_corners_do_not_overflow() {
    let tile = TileSize::new(u32::MAX, u32::MAX).unwrap();
    let max = u32::MAX as u64;
    assert_eq!(tile_corner(u32::MAX, 1, tile), Ok((0, max * max)));
    assert_eq!(tile_corner(u32::MAX - 1, u32::MAX, tile), Ok(((max - 1) * max, 0)));
}

#[test]
fn last_frame_of_a_full_grid() {
    assert_eq!(last_frame_pos(4, 3, 12, false), (4, 3));
    assert_eq!(last_frame_pos(4, 3, 12, true), (3, 2));
}

#[test]
fn last_frame_of_twenty_three_frames_in_five_columns() {
    assert_eq!(grid_rows(23, 5), Ok(5));
    assert_eq!(last_frame_pos(5, 5, 23, false), (3, 5));
    assert_eq!(last_frame_pos(5, 5, 23, true), (2, 4));
}

#[test]
fn last_frame_wraps_round_beyond_the_capacity() {
    assert_eq!(last_frame_pos(4, 3, 13, true), (0, 0));
    assert_eq!(last_frame_pos(4, 3, 13, false), (1, 1));
    assert_eq!(last_frame_pos(4, 3, 24, true), (3, 2));
    assert_eq!(last_frame_pos(4, 3, 30, true), (1, 1));
}

#[test]
fn last_frame_of_a_single_frame_is_the_first_tile() {
    assert_eq!(last_frame_pos(7, 9, 1, true), (0, 0));
    assert_eq!(last_frame_pos(7, 9, 1, false), (1, 1));
    assert_eq!(last_frame_pos(1, 1, 1, false), (1, 1));
}

#[test]
fn last_frame_at_the_top_of_the_range() {
    assert_eq!(last_frame_pos(u32::MAX, u32::MAX, u32::MAX, false), (u32::MAX, 1));
    assert_eq!(last_frame_pos(u32::MAX, 1, u32::MAX, true), (u32::MAX - 1, 0));
    assert_eq!(last_frame_pos(1, u32::MAX, u32::MAX, false), (1, u32::MAX));
}

#[test]
fn last_frame_lies_in_the_grid() {
    for columns in 1u32..8 {
        for rows in 1u32..8 {
            for written in 1u32..80 {
                let (x, y) = last_frame_pos(columns, rows, written, true);
                assert!(x < columns && y < rows);
                assert_eq!((y * columns + x), (written - 1) % (columns * rows));
                let (x1, y1) = last_frame_pos(columns, rows, written, false);
                assert_eq!((x1, y1), (x + 1, y + 1));
            }
        }
    }
}

#[test]
fn a_tile_has_no_zero_dimension() {
    assert_eq!(TileSize::new(0, 95), None);
    assert_eq!(TileSize::new(71, 0), None);
    assert_eq!(TileSize::new(0, 0), None);
    assert_eq!(TileSize::new(71, 95), Some(TileSize { width: 71, height: 95 }));
}

#[test]
fn a_wide_frame_is_limited_by_its_width() {
    let tile = TileSize::new(71, 95).unwrap();
    assert_eq!(
        place_in_tile(320, 240, tile),
        Ok(Placement { width: 71, height: 53, margin_x: 0, margin_y: 21 })
    );
}

#[test]
fn a_tall_frame_is_limited_by_its_height() {
    let tile = TileSize::new(64, 64).unwrap();
    assert_eq!(
        place_in_tile(100, 400, tile),
        Ok(Placement { width: 16, height: 64, margin_x: 24, margin_y: 0 })
    );
}

#[test]
fn an_odd_margin_leaves_the_spare_pixel_below_and_right() {
    let tile = TileSize::new(10, 10).unwrap();
    assert_eq!(
        place_in_tile(10, 7, tile),
        Ok(Placement { width: 10, height: 7, margin_x: 0, margin_y: 1 })
    );
    assert_eq!(
        place_in_tile(7, 10, tile),
        Ok(Placement { width: 7, height: 10, margin_x: 1, margin_y: 0 })
    );
}

#[test]
fn a_frame_shaped_like_the_tile_fills_it() {
    let tile = TileSize::new(64, 64).unwrap();
    assert_eq!(
        place_in_tile(128, 128, tile),
        Ok(Placement { width: 64, height: 64, margin_x: 0, margin_y: 0 })
    );
    let tile = TileSize::new(71, 95).unwrap();
    assert_eq!(
        place_in_tile(142, 190, tile),
        Ok(Placement { width: 71, height: 95, margin_x: 0, margin_y: 0 })
    );
    assert_eq!(
        place_in_tile(213, 285, tile),
        Ok(Placement { width: 71, height: 95, margin_x: 0, margin_y: 0 })
    );
    // A ratio that floating point does not hold exactly.
    let tile = TileSize::new(3, 7).unwrap();
    for k in 1u32..2000 {
        assert_eq!(
            place_in_tile(3 * k, 7 * k, tile),
            Ok(Placement { width: 3, height: 7, margin_x: 0, margin_y: 0 })
        );
    }
}

#[test]
fn a_small_frame_is_enlarged() {
    let tile = TileSize::new(64, 64).unwrap();
    assert_eq!(
        place_in_tile(2, 1, tile),
        Ok(Placement { width: 64, height: 32, margin_x: 0, margin_y: 16 })
    );
}

#[test]
fn a_very_thin_frame_scales_to_nothing() {
    let tile = TileSize::new(64, 64).unwrap();
    assert_eq!(
        place_in_tile(1000, 1, tile),
        Ok(Placement { width: 64, height: 0, margin_x: 0, margin_y: 32 })
    );
}

#[test]
fn scaling_does_not_overflow() {
    let tile = TileSize::new(u32::MAX, u32::MAX).unwrap();
    assert_eq!(
        place_in_tile(u32::MAX, u32::MAX, tile),
        Ok(Placement { width: u32::MAX, height: u32::MAX, margin_x: 0, margin_y: 0 })
    );
    assert_eq!(
        place_in_tile(u32::MAX, 1, tile),
        Ok(Placement { width: u32::MAX, height: 1, margin_x: 0, margin_y: (u32::MAX - 1) / 2 })
    );
}

#[test]
fn a_scaled_frame_stays_in_its_tile() {
    for tw in 1u32..12 {
        for th in 1u32..12 {
            let tile = TileSize::new(tw, th).unwrap();
            for fw in 1u32..20 {
                for fh in 1u32..20 {
                    let p = place_in_tile(fw, fh, tile).unwrap();
                    assert!(p.width <= tw && p.height <= th);
                    assert!(p.width == tw || p.height == th);
                    assert!(p.margin_x + p.width <= tw && p.margin_y + p.height <= th);
                    assert_eq!(p.margin_x, (tw - p.width) / 2);
                    assert_eq!(p.margin_y, (th - p.height) / 2);
                }
            }
        }
    }
}

#[test]
fn a_frame_without_pixels_is_invalid() {
    let tile = TileSize::new(64, 64).unwrap();
    assert_eq!(place_in_tile(0, 10, tile), Err(SheetError::InvalidFrame));
    assert_eq!(place_in_tile(10, 0, tile), Err(SheetError::InvalidFrame));
    assert_eq!(place_in_tile(0, 0, tile), Err(SheetError::InvalidFrame));
}
