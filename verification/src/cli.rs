//! The settings of one run as they come from the command line, and the
//! values the run works with once defaults are filled in.

use std::path::PathBuf;
use vstd::prelude::*;
use crate::layout::{default_columns, default_columns_spec};
use crate::scale::TileSize;

verus! {

/// `std::path::PathBuf`, which the settings carry through untouched.
#[verifier::external_type_specification]
#[verifier::external_body]
pub struct ExPathBuf(PathBuf);

/// `PathBuf::clone`, which copying the settings calls. Nothing is claimed
/// of the copy.
pub assume_specification[ <PathBuf as Clone>::clone ](path: &PathBuf) -> (copy: PathBuf);

/// Tile width where none is given.
pub const DEFAULT_TILE_WIDTH: u32 = 71;

/// Tile height where none is given.
pub const DEFAULT_TILE_HEIGHT: u32 = 95;

/// Frames per second where none are given.
pub const DEFAULT_FPS: u32 = 10;

/// Width the transcoder scales to where no scale is given.
pub const DEFAULT_SCALE_WIDTH: i64 = 320;

/// Height the transcoder scales to where no scale is given: negative, which
/// keeps the aspect ratio.
pub const DEFAULT_SCALE_HEIGHT: i64 = -1;

/// The arguments of one run.
#[derive(Debug, Clone)]
pub struct CliArgs {
    /// The path to the initial video file.
    pub vid_in: PathBuf,
    /// The path to where the resulting sprite sheet goes.
    pub png_out: PathBuf,
    /// The dimensions of each tile of the sprite sheet: width, then height.
    pub tile_size: Vec<u32>,
    /// The number of columns to spread the frames over.
    pub columns: Option<u32>,
    /// The frames per second of the resulting sprite sheet.
    pub fps: Option<u32>,
    /// The size in pixels that the transcoder scales each frame to: width,
    /// then height.
    pub scale: Option<Vec<i64>>,
    /// Whether to log in more detail.
    pub verbose: bool,
    /// Whether to keep the intermediate animation file.
    pub keep_temp: bool,
    /// Whether the position of the last frame is counted from zero.
    pub zero: bool,
    /// The largest number of frames to be written.
    pub max_frames: Option<u32>,
}

impl CliArgs {
    /// The tile size of the run: the two numbers given, or the default where
    /// the list does not hold exactly two. No tile where one of the two
    /// numbers given is zero.
    pub open spec fn tile_spec(&self) -> Option<TileSize> {
        if self.tile_size@.len() == 2 {
            if self.tile_size@[0] > 0 && self.tile_size@[1] > 0 {
                Some(TileSize { width: self.tile_size@[0], height: self.tile_size@[1] })
            } else {
                None
            }
        } else {
            Some(TileSize { width: DEFAULT_TILE_WIDTH, height: DEFAULT_TILE_HEIGHT })
        }
    }

    /// The tile size of the run.
    pub fn tile(&self) -> (tile: Option<TileSize>)
        ensures
            tile == self.tile_spec(),
            tile matches Some(t) ==> t.wf(),
    {
        if self.tile_size.len() == 2 {
            TileSize::new(self.tile_size[0], self.tile_size[1])
        } else {
            TileSize::new(DEFAULT_TILE_WIDTH, DEFAULT_TILE_HEIGHT)
        }
    }

    /// The frame rate of the run: the one given, or the default.
    pub open spec fn frame_rate_spec(&self) -> u32 {
        match self.fps {
            Some(fps) => fps,
            None => DEFAULT_FPS,
        }
    }

    /// The frame rate of the run.
    pub fn frame_rate(&self) -> (fps: u32)
        ensures
            fps == self.frame_rate_spec(),
    {
        match self.fps {
            Some(fps) => fps,
            None => DEFAULT_FPS,
        }
    }

    /// The column count of the run: the one given, or else the one derived
    /// from the frame rate.
    pub open spec fn grid_columns_spec(&self) -> u32 {
        match self.columns {
            Some(columns) => columns,
            None => default_columns_spec(self.frame_rate_spec()),
        }
    }

    /// The column count of the run.
    pub fn grid_columns(&self) -> (columns: u32)
        ensures
            columns == self.grid_columns_spec(),
            self.columns is None ==> columns >= 1,
    {
        match self.columns {
            Some(columns) => columns,
            None => default_columns(self.frame_rate()),
        }
    }

    /// The size the transcoder scales to: the two numbers given, or the
    /// default where there are not exactly two.
    pub open spec fn output_scale_spec(&self) -> (i64, i64) {
        match self.scale {
            Some(scale) => if scale@.len() == 2 {
                (scale@[0], scale@[1])
            } else {
                (DEFAULT_SCALE_WIDTH, DEFAULT_SCALE_HEIGHT)
            },
            None => (DEFAULT_SCALE_WIDTH, DEFAULT_SCALE_HEIGHT),
        }
    }

    /// The size the transcoder scales to.
    pub fn output_scale(&self) -> (scale: (i64, i64))
        ensures
            scale == self.output_scale_spec(),
    {
        match &self.scale {
            Some(scale) => if scale.len() == 2 {
                (scale[0], scale[1])
            } else {
                (DEFAULT_SCALE_WIDTH, DEFAULT_SCALE_HEIGHT)
            },
            None => (DEFAULT_SCALE_WIDTH, DEFAULT_SCALE_HEIGHT),
        }
    }
}

} // verus!
