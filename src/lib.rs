//! A generator that turns an annotated enum definition into a cleaned
//! definition and a classifier that maps an integer constant of an outside
//! namespace to the matching variant, with a fallback for unknown values.
pub mod outside;

pub mod annotation;
pub mod table;
pub mod laws;
pub mod synth;
pub mod ffi;
pub mod device;

pub use device::{match_device_error, DeviceError, DeviceResult};
