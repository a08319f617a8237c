//! Data structures based on small, safe indices into arenas ("mini pointers").
//!
//! The crate provides an index abstraction ([`index::ContiguousIx`]), slot
//! types that overlap a live value with a free-list link ([`slot`]), pluggable
//! free-list strategies, a slab pool composing them ([`pool::slab`]), and a
//! size-class slice allocator with block splitting ([`pool::slice`]).

pub mod entity;
pub mod index;
pub mod pool;
pub mod slot;
mod vecspec;
