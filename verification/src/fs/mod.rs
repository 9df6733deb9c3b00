//! Filesystem-level conventions: file-type classification, path construction
//! and video renaming targets.

pub mod classify;
pub mod paths;
pub mod video;
