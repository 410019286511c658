//! Game-controller input engine: native control codes, reading diffs,
//! SDL-style mappings, event normalization, cached state and filters.

pub mod code;
pub mod ev;
pub mod reading;
pub mod axis;
pub mod state;
pub mod mapping;
pub mod sdl;
pub mod platform;
pub mod gamepad;
pub mod filter;
