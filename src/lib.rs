//! The capture pipeline of a thermal-camera viewer: unit conversion,
//! temperature ranges, false-color mapping, histograms and the per-frame
//! decisions of the capture worker.
use vstd::prelude::*;

pub mod capturer;
pub mod gradient;
pub mod temperature;
pub mod thermal_data;

verus! {
}
