//! The stream between the two node agents.
pub mod relay;
pub mod splice;
