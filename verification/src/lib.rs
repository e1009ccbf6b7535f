//! Fetches a repository from GitHub and places all of it, or the part that a
//! filter selects, in a local directory.
//!
//! This crate holds the decisions of that pipeline, each with a contract that
//! Verus proves: how a reference is read ([`repos`]), where an archive is
//! downloaded from and what is run to clone ([`downloaders`]), where staging
//! lies, whether the destination may be used and which steps bring the
//! selected entries there ([`directories`]), and how the branch placeholder
//! is resolved in copied text ([`placeholders`], [`git`]). The network, the
//! file system and child processes belong to the program around it, which
//! reports what it found and carries out what is planned here.

pub mod app;
pub mod directories;
pub mod downloaders;
pub mod errors;
pub mod git;
pub mod placeholders;
pub mod repos;
pub mod text;
pub mod tree;
