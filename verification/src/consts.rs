use vstd::prelude::*;

verus! {

/// Default port that a redis server listens on.
///
/// Used if no port is specified.
pub const DEFAULT_PORT: u16 = 6379;

/// Maximum number of concurrent connections the redis server will accept.
///
/// When this limit is reached, the server will stop accepting connections until
/// an active connection terminates.
pub const MAX_CONNECTIONS: usize = 1024;

/// Number of messages a pub/sub channel buffers for a slow subscriber before
/// the oldest ones are dropped.
pub const CHANNEL_CAPACITY: usize = 1024;

} // verus!
