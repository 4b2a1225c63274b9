//! Change detection for an incremental build runner.
//!
//! A source tree is reduced to one fingerprint: every tracked file is hashed,
//! the digests are laid out in the canonical order of their paths and joined
//! into a single string.  The fingerprint is compared with the baseline kept
//! from the last completed run, and the run proceeds from there: skip the
//! build, or build and stop on failure, then run the artifact and keep the new
//! baseline.
pub mod command;
pub mod digest;
pub mod fileset;
pub mod fingerprint;
pub mod order;
pub mod run;
pub mod tree;
pub mod world;
