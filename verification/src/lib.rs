//! Retrieval and normalization of OEIS sequence records.
//!
//! The heart of the crate is the pure decoder that turns a loosely typed
//! wire record into a strongly typed [`oeis::OeisSequence`], together with
//! the decision logic of the rejection-sampling resolver. Network and JSON
//! plumbing live outside the library and hand it plain values.

pub mod error;
pub mod fetch;
pub mod keyword;
pub mod mastodon;
pub mod oeis;
pub mod term;
pub mod text;
