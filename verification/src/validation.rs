//! Validation: from the objects found in the repositories to the payloads
//! that the trust anchors vouch for.

pub mod engine;
pub mod laws;
pub mod objects;
pub mod report;
pub mod resources;
pub mod rules;
