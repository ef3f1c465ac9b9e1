//! An RPKI relying-party core: validated ROA payloads, their published
//! history, the RTR session protocol, and the configuration they run under.

pub mod config;
pub mod exceptions;
pub mod payload;
pub mod refresh;
pub mod rtr;
pub mod serial;
pub mod store;
pub mod validation;
