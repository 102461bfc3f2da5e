//! Core of a small tiling display server: layout, hit-testing and focus,
//! input routing with serial-ordered delivery, window lifecycle and frame
//! composition, all as plain values that a backend drives.

pub mod geometry;
pub mod layout;
pub mod palette;
pub mod decorations;
pub mod state;
pub mod dock;
pub mod wallpaper;
pub mod compose;
pub mod launchpad;
