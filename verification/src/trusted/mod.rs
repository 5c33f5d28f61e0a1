//! Contracts that are believed, not proved: what this library relies on from
//! `bytes`, `atoi`, `tokio` and the parts of std that have no specification.

pub mod broadcast;
pub mod buf;
pub mod errors;
pub mod number;
pub mod ordered;
pub mod text;
