//! Live keyboard display: decodes the key bitmap of the input-state query,
//! folds physical key codes into highlightable regions, maps region
//! rectangles to drawable quads, reads the configuration text and decides
//! the steps of the frame loop.

pub mod keymap;
pub mod geometry;
pub mod keyboard;
pub mod scan;
pub mod config;
pub mod scheduler;
