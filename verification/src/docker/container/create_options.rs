//! Builders for the Engine's container-create request bodies, one per
//! network mode.

pub mod bridge;
pub mod host;
