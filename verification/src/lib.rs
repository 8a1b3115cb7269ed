//! The decisions of Mountpoint that are worth proving: when work is shared, where logs go, and how
//! credentials are provided.
pub mod credentials;
pub mod logging;
pub mod singleflight;
pub mod store;
