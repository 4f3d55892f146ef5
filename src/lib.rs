//! Uploads of host data into GPU buffers and images.
//!
//! [`upload::Upload`] decides, for each upload, whether the target is written
//! through a host mapping, updated inline in the command stream, or copied from
//! a staging buffer, and keeps the pool of command buffers that carry those
//! commands: one records until it is submitted, then waits in flight for its
//! frame to retire, then is reset and reused. [`memory`] plans and performs the
//! host-side writes; [`command`] models the recorded commands.

pub mod command;
pub mod memory;
pub mod upload;
