//! Core of a data-availability light client: a gapless header store,
//! the decisions of the header syncer and of the availability sampler,
//! node configuration, and byte-string text encodings.
pub mod blockstore;
pub mod bridge;
pub mod builder;
pub mod encoding;
pub mod sampler;
pub mod store;
pub mod sync_loop;
pub mod syncer;
pub mod types;
