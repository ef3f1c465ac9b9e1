//! Published snapshots and the bounded history of the differences between
//! them.

pub mod history;
pub mod publish;
