//! Append-only, per-category memo logs.
//!
//! A memo log is a chain of immutable, content-addressed records: each record
//! points at its predecessor, and a single mutable named pointer (the head)
//! designates the newest record of a category. Appends from independent
//! writers are serialized by an atomic compare-and-swap on that pointer,
//! retried under contention up to a fixed ceiling.
//!
//! The crate verifies the protocol itself — category validation, identity
//! resolution, chain construction and traversal, and the retry controller —
//! against an explicit model of the two underlying stores, and drives the
//! same protocol against a Git repository, where the object database is the
//! content store and references under `refs/memo/` are the head pointers.

pub mod category;
pub mod commands;
pub mod controller;
pub mod errors;
pub mod gitops;
pub mod identity;
pub mod log;
pub mod node;
pub mod store;
pub mod text;
