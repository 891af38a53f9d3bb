//! Core of a four-level multi-tenant hierarchy manager.
//!
//! The hierarchy is Customer > Organization > Institution, with Organization
//! Units as a cross-cutting grouping rooted at either a Customer or an
//! Organization.  This crate holds the verified core: the composite
//! hierarchical identifier model (fixed-width hexadecimal wire encoding,
//! projections between levels), owner references for dependent records, and
//! the cascading cleanup engine that brings documents, access-control roles,
//! read caches and event subscribers to a consistent state after a node is
//! deleted.

pub mod hex;
pub mod dec;
pub mod ids;
pub mod owner;
pub mod access;
pub mod seqs;
pub mod store;
pub mod engine;
pub mod cleanup;
pub mod worker;
pub mod laws;
pub mod model;
pub mod mutation;
pub mod smtp;
pub mod json;
pub mod token;
pub mod realm;
