//! An append-mostly record store with voting.
//!
//! Callers submit short text questions tagged with a category; other callers
//! cast up/down votes against a record by numeric identifier. The store owns
//! a monotonic identifier counter and a mapping from identifier to the
//! record's binary encoding; reads decode on the fly and treat malformed or
//! missing entries uniformly as absent.

pub mod codec;
pub mod laws;
pub mod record;
pub mod store;
