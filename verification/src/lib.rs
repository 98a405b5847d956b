//! A verified cleaner for software-project build artifacts.
//!
//! The library models a directory subtree as a value and verifies the
//! cleaning rules on that model: a Maven sweeper that removes the
//! `target` directory of every Maven module it reaches, an Idea sweeper
//! that removes every file whose name ends in `.iml`, and a chain that
//! runs sweepers in order, stopping at the first failure.

pub mod argument;
pub mod fs_model;
pub mod laws;
pub mod sweeper;
