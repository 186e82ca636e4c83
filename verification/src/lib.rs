//! Lays out the frames of an animation on a sprite sheet: a grid of
//! equally sized tiles in one raster, each frame scaled to fit its tile and
//! centred in it.
//!
//! The modules, from the leaves up: `layout` derives the grid, `scale` fits a
//! frame into a tile, `raster` holds pixels, `compose` lays one frame onto
//! the sheet, `assemble` does so for a whole sequence and `locate` finds the
//! last frame written. `cli`, `transcode`, `lua_gen` and `decimal` settle
//! the settings and texts of a run.

#![allow(unused_imports)]

pub mod error;
pub mod layout;
pub mod locate;
pub mod scale;
pub mod raster;
pub mod compose;
pub mod assemble;
pub mod decimal;
pub mod lua_gen;
pub mod transcode;
pub mod cli;
