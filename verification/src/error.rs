//! The broker's error record: the one the clients read.

pub use crate::client::error::Error;
