//! Core of a tiled, multi-resolution image viewer: tiling of large images
//! across texture-size limits, mip pyramid planning, a resumable Lanczos
//! pyramid build, zoom and pan state, and animation timing.
pub mod error;
pub mod gallery;
pub mod info;
pub mod lanczos_build;
pub mod media;
pub mod mips;
pub mod scale;
pub mod tiled_source;
pub mod tiling;
pub mod view_pipeline;
pub mod view_program;
