//! A versioned, idempotent, in-place schema migration engine for a
//! key-value store of nickname records.
//!
//! The store maps an account identifier to a nickname record together with a
//! deposit amount.  Records exist in three schema shapes: a raw byte string
//! (schema 0), a name split into a first segment and an optional last segment
//! (schema 1), and the split name together with an account status (schema 2).
//! A migration step rewrites every record from one schema to the next, in
//! place, preserving keys and deposits, and advances the persisted on-chain
//! version.  A version gate decides whether a step runs, is skipped, or is
//! invalid, so that re-invocation after a successful run is a harmless no-op.

pub mod gate;
pub mod record;
pub mod store;
pub mod translate;
pub mod runner;
pub mod checker;
