//! An embedded, append-only topic store on top of an ordered key-value
//! engine.
//!
//! Producers append payloads to a topic; consumers read them back in the
//! order of insertion, one by one or in batches, and a named consumer keeps
//! a cursor next to the records so that it can resume where it stopped.
//!
//! This crate holds what the store decides and computes, and proves it:
//!
//! - [`id`], with [`number`] and [`text`]: the sequence identifier, a number
//!   of sixteen bytes whose text sorts bytewise as the numbers do;
//! - [`record`] and [`topic`]: the key layout of a topic's column family,
//!   the recovery of the write position, and the append path;
//! - [`writer`]: the write buffer and the atomic batch of a flush;
//! - [`iterator_single`], [`iterator_batch`] and [`window`]: the scan, the
//!   window iterator with its cursor, and the sliding window;
//! - [`serialization`]: the binary form of stored values;
//! - [`builder`], [`handle`], [`database`] and [`caches`]: what is settled
//!   around opening an engine: declared column families, versions,
//!   migrations, errors and cache sizes;
//! - [`stream`] and [`timestamp`]: streams with their metadata, and wall
//!   clock times.
//!
//! The engine itself is not called from here. Where an operation needs it,
//! the functions of this crate say what is to be read or written, as keys
//! and values, and take in what came of it: a flush hands out the batch to
//! commit and is told the outcome; an iterator asks for the next item of
//! the engine's iterator and for its cursor to be stored.

pub mod builder;
pub mod caches;
pub mod database;
pub mod errors;
pub mod handle;
pub mod id;
pub mod iterator_batch;
pub mod iterator_single;
pub mod number;
pub mod record;
pub mod serialization;
pub mod stream;
pub mod text;
pub mod timestamp;
pub mod topic;
pub mod window;
pub mod writer;
