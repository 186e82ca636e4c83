use image::imageops::{overlay, resize, FilterType};
use image::RgbaImage;
use vidtoss::assemble::{check_limits, create_sprite_sheet, SpriteSheetResult};
use vidtoss::error::SheetError;
use vidtoss::raster::Raster;
use vidtoss::scale::TileSize;

fn frame(width: u32, height: u32, seed: u32) -> Raster {
    let mut data = Vec::new();
    for y in 0..height {
        for x in 0..width {
            data.push(((x * 31 + seed * 7) % 256) as u8);
            data.push(((y * 17 + seed * 3) % 256) as u8);
            data.push(((x + y + seed) % 256) as u8);
            data.push(255);
        }
    }
    Raster::from_raw(width, height, data).unwrap()
}

fn solid(width: u32, height: u32, colour: [u8; 4]) -> Raster {
    let mut data = Vec::new();
    for _ in 0..width * height {
        data.extend_from_slice(&colour);
    }
    Raster::from_raw(width, height, data).unwrap()
}

fn colour_of(index: u32) -> [u8; 4] {
    [(index + 1) as u8, (2 * index + 1) as u8, (3 * index + 1) as u8, 255]
}

fn solid_frames(count: u32, width: u32, height: u32) -> Vec<Raster> {
    (0..count).map(|i| solid(width, height, colour_of(i))).collect()
}

fn assemble(
    frames: &Vec<Raster>,
    tile: TileSize,
    columns: u32,
    max_frames: Option<u32>,
    zero_based: bool,
) -> Result<(Raster, SpriteSheetResult), SheetError> {
    assert!(check_limits(frames, tile, columns, max_frames));
    create_sprite_sheet(frames, tile, columns, max_frames, zero_based)
}

#[test]
fn twenty_three_frames_in_five_columns() {
    let tile = TileSize::new(64, 64).unwrap();
    let frames = solid_frames(23, 64, 64);
    let (sheet, info) = assemble(&frames, tile, 5, None, false).unwrap();
    assert_eq!(
        info,
        SpriteSheetResult {
            rows: 5,
            columns: 5,
            last_frame_x: 3,
            last_frame_y: 5,
            frames_written: 23
        }
    );
    assert_eq!((sheet.width, sheet.height), (320, 320));
    assert!(sheet.is_well_formed());
}

#[test]
fn a_full_grid_ends_in_its_last_tile() {
    let tile = TileSize::new(4, 4).unwrap();
    let frames = solid_frames(12, 4, 4);
    let (_, one_based) = assemble(&frames, tile, 4, None, false).unwrap();
    assert_eq!((one_based.rows, one_based.columns), (3, 4));
    assert_eq!((one_based.last_frame_x, one_based.last_frame_y), (4, 3));
    let (_, zero_based) = assemble(&frames, tile, 4, None, true).unwrap();
    assert_eq!((zero_based.last_frame_x, zero_based.last_frame_y), (3, 2));
}

#[test]
fn a_cap_truncates_the_frames_but_not_the_grid() {
    let tile = TileSize::new(4, 4).unwrap();
    let frames = solid_frames(30, 4, 4);
    let (sheet, info) = assemble(&frames, tile, 5, Some(10), false).unwrap();
    assert_eq!(info.frames_written, 10);
    assert_eq!((info.rows, info.columns), (6, 5));
    assert_eq!((info.last_frame_x, info.last_frame_y), (5, 2));
    assert_eq!((sheet.width, sheet.height), (20, 24));
    for index in 0..30u32 {
        let (x, y) = ((index % 5) * 4, (index / 5) * 4);
        let expected = if index < 10 { colour_of(index) } else { [0, 0, 0, 0] };
        assert_eq!(sheet.get_pixel(x, y), Some(expected));
        assert_eq!(sheet.get_pixel(x + 3, y + 3), Some(expected));
    }
}

#[test]
fn a_cap_beyond_the_frames_changes_nothing() {
    let tile = TileSize::new(4, 4).unwrap();
    let frames = solid_frames(7, 4, 4);
    let uncapped = assemble(&frames, tile, 3, None, false).unwrap();
    assert_eq!(assemble(&frames, tile, 3, Some(7), false).unwrap(), uncapped);
    assert_eq!(assemble(&frames, tile, 3, Some(8), false).unwrap(), uncapped);
    assert_eq!(assemble(&frames, tile, 3, Some(u32::MAX), false).unwrap(), uncapped);
    assert_eq!(uncapped.1.frames_written, 7);
}

#[test]
fn a_cap_of_one_writes_the_first_frame() {
    let tile = TileSize::new(4, 4).unwrap();
    let frames = solid_frames(5, 4, 4);
    let (sheet, info) = assemble(&frames, tile, 2, Some(1), true).unwrap();
    assert_eq!(info.frames_written, 1);
    assert_eq!((info.rows, info.columns), (3, 2));
    assert_eq!((info.last_frame_x, info.last_frame_y), (0, 0));
    assert_eq!(sheet.get_pixel(0, 0), Some(colour_of(0)));
    assert_eq!(sheet.get_pixel(4, 0), Some([0, 0, 0, 0]));
}

#[test]
fn no_frames_are_an_empty_sequence() {
    let tile = TileSize::new(64, 64).unwrap();
    let frames: Vec<Raster> = Vec::new();
    assert_eq!(assemble(&frames, tile, 5, None, false), Err(SheetError::EmptySequence));
    assert_eq!(assemble(&frames, tile, 5, Some(3), true), Err(SheetError::EmptySequence));
}

#[test]
fn no_frames_come_before_no_columns() {
    let tile = TileSize::new(64, 64).unwrap();
    let frames: Vec<Raster> = Vec::new();
    assert_eq!(assemble(&frames, tile, 0, None, false), Err(SheetError::EmptySequence));
}

#[test]
fn a_cap_of_zero_leaves_an_empty_sheet() {
    let tile = TileSize::new(4, 4).unwrap();
    let frames = solid_frames(5, 4, 4);
    assert_eq!(assemble(&frames, tile, 2, Some(0), false), Err(SheetError::EmptySequence));
}

#[test]
fn no_columns_are_an_invalid_layout() {
    let tile = TileSize::new(4, 4).unwrap();
    let frames = solid_frames(5, 4, 4);
    assert_eq!(assemble(&frames, tile, 0, None, false), Err(SheetError::InvalidLayout));
    assert_eq!(assemble(&frames, tile, 0, Some(0), false), Err(SheetError::InvalidLayout));
}

#[test]
fn a_frame_without_pixels_is_an_invalid_frame() {
    let tile = TileSize::new(4, 4).unwrap();
    let mut frames = solid_frames(5, 4, 4);
    frames[3] = Raster::blank(0, 4);
    assert_eq!(assemble(&frames, tile, 2, None, false), Err(SheetError::InvalidFrame));
    assert_eq!(assemble(&frames, tile, 2, Some(4), false), Err(SheetError::InvalidFrame));
    frames[3] = Raster::blank(4, 0);
    assert_eq!(assemble(&frames, tile, 2, None, false), Err(SheetError::InvalidFrame));
}

#[test]
fn a_frame_without_pixels_beyond_the_cap_is_not_looked_at() {
    let tile = TileSize::new(4, 4).unwrap();
    let mut frames = solid_frames(5, 4, 4);
    frames[3] = Raster::blank(0, 4);
    let (_, info) = assemble(&frames, tile, 2, Some(3), false).unwrap();
    assert_eq!(info.frames_written, 3);
    assert_eq!((info.last_frame_x, info.last_frame_y), (1, 2));
}

#[test]
fn each_frame_lands_in_its_own_tile() {
    let tile = TileSize::new(6, 4).unwrap();
    let frames = solid_frames(7, 6, 4);
    let (sheet, info) = assemble(&frames, tile, 3, None, true).unwrap();
    assert_eq!((info.rows, info.columns), (3, 3));
    assert_eq!((sheet.width, sheet.height), (18, 12));
    for y in 0..12u32 {
        for x in 0..18u32 {
            let index = (y / 4) * 3 + x / 6;
            let expected = if index < 7 { colour_of(index) } else { [0, 0, 0, 0] };
            assert_eq!(sheet.get_pixel(x, y), Some(expected));
        }
    }
}

#[test]
fn frames_are_centred_in_their_tiles() {
    let tile = TileSize::new(8, 8).unwrap();
    // Twice as wide as high: scaled to 8 by 4, with two free rows above and below.
    let frames = solid_frames(3, 16, 8);
    let (sheet, _) = assemble(&frames, tile, 2, None, false).unwrap();
    assert_eq!((sheet.width, sheet.height), (16, 16));
    for y in 0..16u32 {
        for x in 0..16u32 {
            let index = (y / 8) * 2 + x / 8;
            let covered = index < 3 && (2..6).contains(&(y % 8));
            let expected = if covered { colour_of(index) } else { [0, 0, 0, 0] };
            assert_eq!(sheet.get_pixel(x, y), Some(expected));
        }
    }
}

#[test]
fn the_sheet_is_what_the_image_crate_makes_of_each_frame() {
    let tile = TileSize::new(16, 12).unwrap();
    let frames: Vec<Raster> =
        vec![frame(40, 30, 1), frame(16, 12, 2), frame(9, 30, 3), frame(33, 5, 4), frame(3, 2, 5)];
    let (sheet, info) = assemble(&frames, tile, 2, None, false).unwrap();
    assert_eq!((info.rows, info.columns, info.frames_written), (3, 2, 5));
    let sizes = [(16, 12), (16, 12), (3, 12), (16, 2), (16, 10)];
    let mut expected = RgbaImage::new(32, 36);
    for (i, f) in frames.iter().enumerate() {
        let source = RgbaImage::from_raw(f.width, f.height, f.data.clone()).unwrap();
        let (w, h) = sizes[i];
        let scaled = resize(&source, w, h, FilterType::Lanczos3);
        let x = (i as u32 % 2) * 16 + (16 - w) / 2;
        let y = (i as u32 / 2) * 12 + (12 - h) / 2;
        overlay(&mut expected, &scaled, x as i64, y as i64);
    }
    assert_eq!(sheet.data, expected.into_raw());
}

#[test]
fn assembling_twice_gives_the_same_bytes() {
    let tile = TileSize::new(16, 12).unwrap();
    let frames: Vec<Raster> = (0..9).map(|i| frame(20 + 3 * i, 31 - 2 * i, i)).collect();
    let first = assemble(&frames, tile, 4, Some(7), false).unwrap();
    let second = assemble(&frames, tile, 4, Some(7), false).unwrap();
    assert_eq!(first.0.data, second.0.data);
    assert_eq!(first, second);
}

#[test]
fn the_indexing_convention_does_not_change_the_sheet() {
    let tile = TileSize::new(8, 8).unwrap();
    let frames: Vec<Raster> = (0..5).map(|i| frame(10, 7, i)).collect();
    let (one, info_one) = assemble(&frames, tile, 3, None, false).unwrap();
    let (zero, info_zero) = assemble(&frames, tile, 3, None, true).unwrap();
    assert_eq!(one, zero);
    assert_eq!((info_one.last_frame_x, info_one.last_frame_y), (2, 2));
    assert_eq!((info_zero.last_frame_x, info_zero.last_frame_y), (1, 1));
}

#[test]
fn one_column_stacks_the_frames() {
    let tile = TileSize::new(2, 2).unwrap();
    let frames = solid_frames(4, 2, 2);
    let (sheet, info) = assemble(&frames, tile, 1, None, false).unwrap();
    assert_eq!((info.rows, info.columns), (4, 1));
    assert_eq!((info.last_frame_x, info.last_frame_y), (1, 4));
    assert_eq!((sheet.width, sheet.height), (2, 8));
    for index in 0..4u32 {
        assert_eq!(sheet.get_pixel(1, 2 * index + 1), Some(colour_of(index)));
    }
}

#[test]
fn more_columns_than_frames_leave_tiles_free() {
    let tile = TileSize::new(2, 2).unwrap();
    let frames = solid_frames(3, 2, 2);
    let (sheet, info) = assemble(&frames, tile, 10, None, false).unwrap();
    assert_eq!((info.rows, info.columns), (1, 10));
    assert_eq!((info.last_frame_x, info.last_frame_y), (3, 1));
    assert_eq!((sheet.width, sheet.height), (20, 2));
    assert_eq!(sheet.get_pixel(5, 1), Some(colour_of(2)));
    assert_eq!(sheet.get_pixel(6, 0), Some([0, 0, 0, 0]));
    assert_eq!(sheet.get_pixel(19, 1), Some([0, 0, 0, 0]));
}

#[test]
fn limits_hold_for_ordinary_input() {
    let tile = TileSize::new(71, 95).unwrap();
    assert!(check_limits(&solid_frames(23, 32, 24), tile, 3, None));
    assert!(check_limits(&solid_frames(23, 32, 24), tile, 3, Some(5)));
    assert!(check_limits(&Vec::new(), tile, 3, None));
    assert!(check_limits(&solid_frames(2, 4, 4), tile, 0, None));
}

#[test]
fn limits_refuse_a_malformed_frame() {
    let tile = TileSize::new(4, 4).unwrap();
    let mut frames = solid_frames(3, 4, 4);
    frames[1] = Raster { width: 4, height: 4, data: vec![0; 10] };
    assert!(!check_limits(&frames, tile, 2, None));
    assert!(!check_limits(&frames, tile, 2, Some(2)));
}

#[test]
fn limits_pass_over_the_frames_beyond_the_cap() {
    let tile = TileSize::new(4, 4).unwrap();
    let mut frames = solid_frames(3, 4, 4);
    frames[1] = Raster { width: 4, height: 4, data: vec![0; 10] };
    assert!(check_limits(&frames, tile, 2, Some(1)));
    assert!(check_limits(&frames, tile, 2, Some(0)));
    let (_, info) = create_sprite_sheet(&frames, tile, 2, Some(1), false).unwrap();
    assert_eq!(info.frames_written, 1);
}

#[test]
fn limits_refuse_a_sheet_too_large_to_address() {
    let tile = TileSize::new(u32::MAX, 1).unwrap();
    assert!(!check_limits(&solid_frames(2, 1, 1), tile, 2, None));
    let tile = TileSize::new(1, u32::MAX).unwrap();
    assert!(!check_limits(&solid_frames(2, 1, 1), tile, 1, None));
    let tile = TileSize::new(u32::MAX, u32::MAX).unwrap();
    assert!(!check_limits(&solid_frames(1, 1, 1), tile, 1, None));
}
