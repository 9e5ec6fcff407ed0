pub mod client;
pub mod connection;
pub mod error;
pub mod model;
pub mod persistent;
pub mod protocol;
pub mod store;
pub mod wal;
mod table;
mod text;

pub use error::CacheError;
pub use persistent::PersistentCore;
pub use protocol::{CacheCommand, CacheResponse};
pub use store::CacheCore;
pub use wal::WalRecord;
