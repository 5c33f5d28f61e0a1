//! An in-memory key/value store and publish/subscribe broker that speaks the
//! Redis serialization protocol: the frame codec, the command model, the
//! store with its expiration index, and the decisions that drive connections.

pub mod consts;
pub mod error;
pub mod trusted;
pub mod connection;
pub mod text;
pub mod storage;
pub mod cmd;
pub mod client;
pub mod server;
