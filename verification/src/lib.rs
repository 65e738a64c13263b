//! Streaming migration core for denormalized browser history ("places" with
//! their "visits") into an append-only attribute-value store.
//!
//! The library covers the logic of the migration: grouping a sorted row
//! stream into entities, encoding each entity as textual write statements
//! under buffer-scoped temporary identifiers, and deciding when the batch
//! buffer must be flushed as one atomic transaction. Reading the source
//! database and applying batches to the destination store are I/O and live
//! with the program that drives this library.

pub mod builder;
pub mod catalog;
pub mod entry;
pub mod grouper;
pub mod text;
