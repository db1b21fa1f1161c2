//! A small service core: a stateless arithmetic dispatcher and an
//! append-only in-memory store with generated keys, each with the
//! mathematical model its contracts are stated over.

pub mod json;
pub mod keys;
pub mod math;
pub mod store;
