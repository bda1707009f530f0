//! Terminal media-to-ASCII conversion core: frame sources with skip/reset
//! control, a resize-and-map image pipeline, and a frame-rate scheduler.
pub mod error;
pub mod frames;
pub mod maps;
pub mod pipeline;
pub mod render;
