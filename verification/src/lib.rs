//! A verified core for a build-artifact and cache sweeper.
//!
//! The library holds the logic of the tool: mapping mode tokens to the
//! fixed target directory names, classifying discovered directory entries
//! against the target set with nested-match suppression, and the fixed
//! tables and decisions behind the side-effect cleanups. Filesystem
//! traversal, deletion and printing live outside the library.

pub mod actions;
pub mod classify;
pub mod targets;
pub mod text;
