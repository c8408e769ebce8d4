//! EdgeFirst NavSat: the logic of a GPS/GNSS node that reads fixes from GPSD
//! and publishes NavSatFix messages over Zenoh.

pub mod args;
pub mod config;
pub mod connection;
pub mod json;
pub mod messages;
pub mod navsat;
pub mod text;

pub use args::Args;
pub use navsat::{timestamp, TimestampError};
