//! A verified mirror of an on-chain marketplace.
//!
//! The crate keeps an in-memory model of the three mirrored collections
//! (collections, items, offers), applies decoded contract events to it one
//! at a time, and assembles the one-shot backfill from fetched chain slots.
//! Every state change is returned as a list of store operations for the
//! surrounding process to replay against the document store.

pub mod backfill;
pub mod laws;
pub mod mirror;
pub mod models;
pub mod reconcile;
