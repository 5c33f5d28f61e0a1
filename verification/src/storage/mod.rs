//! The state behind the server: keys and values, the expiration index and
//! the pub/sub channels.

pub mod index;
pub mod invariants;
pub mod store;
pub mod table;
