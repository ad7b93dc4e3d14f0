//! Evacuation of node-local ZFS volumes.
pub mod cluster;
pub mod controller;
pub mod crd;
pub mod leader;
pub mod natural;
pub mod rounding;
pub mod string_map;
pub mod text;
pub mod transfer;
