//! A photo gallery indexer: mirrors a directory tree into an album
//! hierarchy, records photos with their metadata, plans thumbnails, and
//! resolves request paths onto albums or photos.

pub mod config;
pub mod error;
pub mod hash;
pub mod ids;
pub mod indexer;
pub mod laws;
pub mod metadata;
pub mod models;
pub mod paths;
pub mod resolver;
pub mod store;
pub mod text;
pub mod thumbnail;
pub mod walker;
