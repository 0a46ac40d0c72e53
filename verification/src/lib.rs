//! A persistent store of green spaces.
//!
//! The store keeps records of green spaces (a name, a location and a
//! description) in stable memory, under identifiers that an allocator issues
//! in strictly increasing order, and answers lookups, listings and substring
//! searches over them.
//!
//! * [`record`]: the record, the payload a caller supplies, the one error.
//! * [`text`]: substring containment and decimal numerals.
//! * [`codec`]: the stored form of a record, with its round-trip laws.
//! * [`stable`]: the stable-memory structures and what is taken for granted
//!   of them.
//! * [`model`]: the mathematical model of the store and of its operations.
//! * [`store`]: the store itself and the operations on it.
//! * [`laws`]: what holds of every store, proved about the model.

pub mod codec;
pub mod laws;
pub mod model;
pub mod record;
pub mod stable;
pub mod store;
pub mod text;
