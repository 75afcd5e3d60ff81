//! A typed, presence-aware store for one persisted user record, built on a
//! key-addressed text store.
pub mod record;
pub mod store;
pub mod users;

pub use record::{Record, RecordError};
pub use store::Store;
pub use users::Storage;
