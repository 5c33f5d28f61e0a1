//! The wire format: frames, the cursor they are decoded from, and the token
//! cursor that commands are read with.

pub mod connect;
pub mod cursor;
pub mod decimal;
pub mod frame;
pub mod grammar;
pub mod parse;
pub mod round_trip;
