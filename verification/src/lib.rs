//! Verified parameter handling, labels, input checks and registration for
//! the single-leg anomaly scan family of the miner engine, with the index
//! logic of its scans: the bar timestamps of each kind of return, the binary
//! segmentation behind the structural-break scan, and the running-peak sweep
//! behind the drawdown profile.

mod text;
pub mod params;
pub mod lagroot;
pub mod scan;
pub mod resolve;
pub mod anom;
pub mod registry;

pub use text::str_eq;
