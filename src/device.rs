//! The device library's error type and its classifier, with the arms that the
//! generator makes for it under the prefix `ffi::idevice_error_t_IDEVICE_E_`:
//! one per suffix, and `Undefined` as the fallback.
use vstd::prelude::*;
use crate::ffi::{
    idevice_error_t_IDEVICE_E_INVALID_ARG, idevice_error_t_IDEVICE_E_NOT_ENOUGH_DATA,
    idevice_error_t_IDEVICE_E_NO_DEVICE, idevice_error_t_IDEVICE_E_SSL_ERROR,
    idevice_error_t_IDEVICE_E_SUCCESS, idevice_error_t_IDEVICE_E_TIMEOUT,
    idevice_error_t_IDEVICE_E_UNKNOWN_ERROR,
};

verus! {

#[derive(Debug, Clone, Copy, PartialEq, Eq, Structural)]
pub enum DeviceError {
    /// A code that none of the known constants has, kept as it came.
    Undefined(i32),
    Success,
    InvalidArg,
    UnknownError,
    NoDevice,
    NotEnoughData,
    SslError,
    Timeout,
}

pub type DeviceResult<T> = Result<T, DeviceError>;

/// The variant for a code: the one whose constant has that value, else
/// `Undefined` with the code.
pub open spec fn device_error_of(code: i32) -> DeviceError {
    if code == idevice_error_t_IDEVICE_E_SUCCESS {
        DeviceError::Success
    } else if code == idevice_error_t_IDEVICE_E_INVALID_ARG {
        DeviceError::InvalidArg
    } else if code == idevice_error_t_IDEVICE_E_UNKNOWN_ERROR {
        DeviceError::UnknownError
    } else if code == idevice_error_t_IDEVICE_E_NO_DEVICE {
        DeviceError::NoDevice
    } else if code == idevice_error_t_IDEVICE_E_NOT_ENOUGH_DATA {
        DeviceError::NotEnoughData
    } else if code == idevice_error_t_IDEVICE_E_SSL_ERROR {
        DeviceError::SslError
    } else if code == idevice_error_t_IDEVICE_E_TIMEOUT {
        DeviceError::Timeout
    } else {
        DeviceError::Undefined(code)
    }
}

/// Classifies a code returned by the device library.
pub fn match_device_error(code: i32) -> (r: DeviceError)
    ensures
        r == device_error_of(code),
{
    if code == idevice_error_t_IDEVICE_E_SUCCESS {
        DeviceError::Success
    } else if code == idevice_error_t_IDEVICE_E_INVALID_ARG {
        DeviceError::InvalidArg
    } else if code == idevice_error_t_IDEVICE_E_UNKNOWN_ERROR {
        DeviceError::UnknownError
    } else if code == idevice_error_t_IDEVICE_E_NO_DEVICE {
        DeviceError::NoDevice
    } else if code == idevice_error_t_IDEVICE_E_NOT_ENOUGH_DATA {
        DeviceError::NotEnoughData
    } else if code == idevice_error_t_IDEVICE_E_SSL_ERROR {
        DeviceError::SslError
    } else if code == idevice_error_t_IDEVICE_E_TIMEOUT {
        DeviceError::Timeout
    } else {
        DeviceError::Undefined(code)
    }
}

} // verus!
