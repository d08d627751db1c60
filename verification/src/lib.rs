//! A concurrency-safe cache for expensive-to-construct QUIC configuration
//! objects, keyed by an optional certificate-directory path.
//!
//! Building a [`Config`] parses certificate material and sets up a protocol
//! configuration, which is costly; using one needs only brief exclusive
//! access. The cache avoids redundant construction: it maps each key to a
//! weak reference to the last configuration built for it, keeps only the
//! most recently fetched configuration strongly alive (a single keep-alive
//! slot), and prunes dead entries on an explicit garbage-collection call.

pub mod cache;
pub mod handle;
pub mod res;
pub mod settings;
pub mod state;

pub use cache::Cache;
pub use handle::Config;
pub use handle::WeakConfig;
pub use settings::ConstructionError;
pub use settings::QuicSettings;
