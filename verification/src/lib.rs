//! Rewrites the relative references of a fetched HTML fragment into absolute
//! URLs, so that the fragment can be shown from another origin.
//!
//! - [`location`] splits the URL of a document into its origin and its path.
//! - [`resolve`] turns one reference into the absolute URL that it denotes.
//! - [`rewrite`] finds the references in raw markup and replaces each by the
//!   URL it resolves to.
//! - [`document`] takes the body out of a fetched document and rewrites it
//!   for the address it was fetched from.
//! - [`text`] holds the vocabulary on character sequences that the
//!   contracts of the others are written in.

pub mod document;
pub mod location;
pub mod resolve;
pub mod rewrite;
pub mod text;
