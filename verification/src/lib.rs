//! Typed, cached access to the sparse, key-addressed storage space of a
//! sandboxed contract execution host, together with an in-memory model of
//! the host environment itself.
//!
//! The heart of the crate is the write-back caching layer for contract
//! storage: single-slot typed cells ([`cell::TypedCell`]), read-through
//! indexed chunks ([`chunk::TypedChunk`]), and the caching chunk that
//! defers and batches writes ([`sync_chunk::SyncChunk`]) over the metered
//! host primitive ([`host::Host`]). Values cross the byte boundary through
//! the SCALE codec ([`codec`]), and the laws the storage layers obey are
//! proved in [`laws`].
//!
//! Around the storage core, [`env`] models one whole execution
//! environment — accounts, blocks, contexts, records — and [`api`] and
//! [`test_api`] expose the interface a contract and its test harness have
//! towards it, including the dispatchable runtime calls of [`calls`].

pub mod api;
pub mod cache;
pub mod calls;
pub mod cell;
pub mod chunk;
pub mod codec;
pub mod env;
pub mod error;
pub mod host;
pub mod key;
pub mod laws;
pub mod record;
pub mod sync_chunk;
pub mod test_api;
pub mod types;

pub use key::Key;
