//! A declarative file organizer: named rules watch a directory tree, match
//! files against a pattern, and apply an action (move, copy, delete, link,
//! rename, chmod) to every match.
//!
//! The crate is the rule execution engine: pattern-based directory matching,
//! capture-group-driven filename templating, and the per-file action
//! dispatcher with its dry-run and error-tolerant execution model. All
//! filesystem effects are described as planned operations over an explicit
//! state model; an unverified shell performs the real I/O by replaying the
//! plans this engine produces.

pub mod engine;
pub mod fsmodel;
pub mod paths;
pub mod pattern;
pub mod rules;
pub mod template;
