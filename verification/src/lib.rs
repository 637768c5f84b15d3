//! A three-dimensional voxel grid of fluid and solid cells, together with a
//! diffusion step that relaxes each fluid cell's volume toward a local
//! average, and a simulation driver that runs the step tick after tick on a
//! shared-state harness while readers observe consistent whole-grid
//! snapshots.
//!
//! Volumes are carried as fixed-point integers: [`flow::UNIT`] units stand
//! for one full cell of fluid.

pub mod cell;
pub mod flow;
pub mod laws;
pub mod sim;
pub mod v3i;
pub mod world;
