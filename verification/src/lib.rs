//! Discovery of image sources for an NFT collection.
//!
//! The library covers the compute stages of a three-stage resolution
//! pipeline: listing the known collections of a catalog service, validating a
//! chosen policy identifier against that listing, and walking per-asset
//! on-chain metadata to gather a deduplicated, quota-bounded set of image
//! source references. Fetching the raw data over the network is left to the
//! surrounding program; every decision taken on that data is verified here.

pub mod assets;
pub mod directory;
pub mod errors;
pub mod metadata;
pub mod pipeline;
pub mod sources;
pub mod util;
