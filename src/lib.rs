//! A client-side data model for on-chain entities: typed values and their generic
//! `{type, value}` encoding, key clauses and queries, and the registry of clauses kept in sync.

pub mod clause;
pub mod client;
pub mod entity;
pub mod felt;
pub mod hex;
pub mod json;
pub mod primitive;
pub mod sync;
pub mod ty;
