//! Verified core of the OmaStudio photo engine: the decisions, parsers and
//! buffer transformations that sit between the operating system, the image
//! codecs and the floating-point colour pipeline.

pub mod text;
pub mod security;
pub mod daemon;
pub mod histogram;
pub mod ai;
pub mod raw;
pub mod gdrive;
pub mod sorting;
pub mod pipeline;
pub mod export;
pub mod icc;
pub mod cli;
pub mod theme;
pub mod scan;
pub mod recipe;
pub mod ppm;
