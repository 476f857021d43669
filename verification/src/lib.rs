//! Verified core logic of the cava-bg wallpaper visualizer: output matching,
//! wallpaper-path discovery from process and config text, layer selection,
//! daemon bookkeeping and the small geometry and telemetry helpers.

pub mod text;
pub mod output_match;
pub mod paths;
pub mod detector;
pub mod config_model;
pub mod layers;
pub mod daemon;
pub mod perf;
pub mod cli;
pub mod geometry;
pub mod detection;
pub mod json;
pub mod namemap;
pub mod order;
pub mod supervisor;
pub mod colors;
pub mod cava;
