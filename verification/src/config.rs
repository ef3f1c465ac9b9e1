//! Configuration of the relying party.

pub mod args;
pub mod base;
pub mod cli;
pub mod error;
pub mod file;
pub mod limits;
pub mod logging;
pub mod settings;
pub mod text;
