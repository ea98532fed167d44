//! A single-user, local version-control engine: snapshots of a directory tree,
//! organised into a branching commit graph, with checkout, diffing and
//! three-way merge. Every operation is a verified function on plain values;
//! reading and writing the disk is left to the caller.

pub mod commands;
pub mod library;
pub mod utils;
