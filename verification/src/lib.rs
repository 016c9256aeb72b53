//! A data-modeling layer for a statistical-data exchange standard.
//!
//! The crate models hierarchical message envelopes (data, metadata and
//! structure messages) and a flat tabular record shape, together with the
//! wire encodings of both.  Every record type captures fields it does not
//! recognize in a side table and re-emits them unchanged, so documents
//! survive a parse/serialize round trip without loss.

pub mod json;
pub mod laws;
pub mod message;
pub mod metadata;
pub mod primitives;
pub mod schemes;
pub mod structure;
pub mod text;
pub mod codec;
pub mod csv;
pub mod data;
pub mod fields;
