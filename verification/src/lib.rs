//! Book metadata reconciliation.
//!
//! Several catalogue providers answer the same question — "what is known about
//! this book?" — in different JSON shapes.  This crate decodes each provider's
//! answer into one common record type, [`metadata::Metadata`], whose fields are
//! deduplicated collections of per-item outcomes, and combines the records of
//! several providers with a merge operation whose identity, associativity and
//! idempotence are proved in [`metadata`].
//!
//! Network traffic stays outside the crate: callers fetch each provider's
//! response body themselves and hand the text to the decoders.

#![allow(unused_imports)]

/// Errors and the list of providers.
pub mod recon;
/// Character-level helpers shared by the parsers.
pub mod strutil;
/// Validated book identifiers.
pub mod isbn;
/// Calendar dates and the publication-date formats.
pub mod date;
/// Generic JSON values and the text parser.
pub mod json;
/// The outcome collections that record fields hold.
pub mod base;
/// The unified book record and its merge.
pub mod metadata;
/// The minimal record: just enough to identify a book.
pub mod minimal;
/// Field adaptors from decoded JSON pieces to outcome collections.
pub mod adaptor;
/// Field extraction shared by the provider decoders.
pub mod fields;
/// Percent-encoding of URL query parts.
pub mod urlenc;
/// The volume-search provider: endpoint URLs and response decoding.
pub mod google_books;
/// The library-catalogue provider: endpoint URLs and response decoding.
pub mod open_library;
/// The scraped provider: its search URL and the record its page parts make.
pub mod goodreads;
/// The orchestration layer's decisions: URLs, decoding, combination.
pub mod orchestrator;
/// JSON text for a record, for downstream consumers.
pub mod serialize;

pub use metadata::Metadata;
pub use recon::ReconError;
pub use recon::Source;
