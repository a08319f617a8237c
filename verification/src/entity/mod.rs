//! Handle types that live inside a pool.

pub mod list;
