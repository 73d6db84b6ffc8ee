//! A small todo library: the entity model, the attribute/record shape of the
//! backing key-value table, the mapping between the two, and the response
//! envelopes of the HTTP surface, all with verified contracts. An in-memory
//! table realizes the semantics the repository relies on from the store;
//! the binary wires the same logic to a managed table and an HTTP listener.

pub mod decimal;
pub mod record;
pub mod repo;
pub mod route;
pub mod table;
pub mod todo;
