//! Verified core of the small friendly buoy: storage layout, packing of sensor
//! values, decision logic for the notecard, location and IMU handling, and the
//! pure parts of the data server.
use vstd::prelude::*;

pub mod database;
pub mod decimal;
pub mod wire;
pub mod axl;
pub mod collection;
pub mod buf;
pub mod imu;
pub mod location;
pub mod log;
pub mod mainloop;
pub mod note;
pub mod notei2c;
pub mod server;
pub mod storage;
pub mod storage_v1;
pub mod temp;
pub mod tries;
pub mod gps;
pub mod fir;
pub mod welch;

verus! {
} // verus!
