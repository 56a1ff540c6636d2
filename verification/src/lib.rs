//! Batch verification of blind-signature token redemptions.
//!
//! The library builds an immutable issuer key table, decodes flat delimited
//! redemption records with an escape-encoded nested credential column,
//! classifies each record against the key table and the token verification
//! primitives, and partitions the outcomes into success and failure ledgers.

pub mod codec;
pub mod keytable;
pub mod outcome;
pub mod pipeline;
pub mod record;
pub mod service;
