//! The client's side of the protocol: what to ask, and what to make of the
//! answer.

pub mod cli;
pub mod cmd;
pub mod subscriber;
