//! A caching reverse proxy core for a rate-limited upstream weather-data API.
//!
//! The library holds the verified logic: the TTL-aware cache store, the
//! per-bucket admission tracker, and the request-decision engine that chooses
//! between serving a cached value, calling upstream (primary or fallback
//! account), serving stale data, or reporting an error. All time-dependent
//! operations take the current wall-clock time as an explicit argument; thin
//! convenience methods read the clock themselves.

pub mod assoc;
pub mod cache;
pub mod clock;
pub mod headers;
pub mod proxy;

pub use cache::cache_key;
pub use cache::CacheEntry;
pub use cache::ProxyCache;
