//! Window-policy engine of a companion daemon for a scrolling-tiling Wayland
//! compositor: scratchpads, window ordering, swallowing, window rules and the
//! bookkeeping around them, as verified decision functions.

pub mod actions;
pub mod autofill;
pub mod commands;
pub mod config;
pub mod config_value;
pub mod geometry;
pub mod ipc;
pub mod matcher;
pub mod niri;
pub mod plugins;
pub mod rules;
pub mod scratchpads;
pub mod text;
pub mod utils;
pub mod singleton;
pub mod size;
pub mod swallow;
pub mod window_order;
