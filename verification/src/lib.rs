//! Verified core of a vibration-monitoring pipeline: sample windowing,
//! timing and error bookkeeping for the diagnostics log, IMU register
//! handling and the index arithmetic of the training tools.
use vstd::prelude::*;

pub mod config;
pub mod window;
pub mod timing;
pub mod debug;
pub mod imu;
pub mod dataset;
pub mod firmware;

verus! {

} // verus!
