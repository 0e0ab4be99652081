//! Worktree state and branch-safety engine.
//!
//! The library computes relative commit and diff state between a worktree's
//! branch and a reference branch, classifies whether a branch's content is
//! already integrated into a target branch (the precondition for safe
//! deletion), and drives the enrichment and safe-removal workflows as pure,
//! verified decision logic. All git effects are described by query values;
//! an unverified driver executes them and hands the outcomes back.

pub mod classify;
pub mod config;
pub mod error;
pub mod expand;
pub mod git;
pub mod list;
pub mod parse;
pub mod remove;
pub mod shell;
pub mod stats;
pub mod text;
