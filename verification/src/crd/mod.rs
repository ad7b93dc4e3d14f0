//! The custom resources the controller owns and those it consumes.
pub mod openebs;
pub mod zfs_evacuation;
