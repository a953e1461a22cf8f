use vstd::prelude::*;

verus! {

/// Failures of enumeration, registration and polling.
///
/// Per-device failures (`DeviceOpenFailed`, `ProductNameUnavailable`, and
/// `QueryFailed`/`QueryUnstable` raised while resolving a single device) are
/// recovered locally: the device is skipped and enumeration continues.
/// `RegistrationFailed` and `BatchResizeExhausted` are fatal for the poller.
#[derive(Clone, Copy, Debug, PartialEq, Eq, Structural)]
pub enum InputError {
    /// A size probe, fill call, or batch read reported an OS-level error.
    QueryFailed,
    /// The required size changed between probe and fill beyond one retry.
    QueryUnstable,
    /// A query-only handle could not be opened on the device path.
    DeviceOpenFailed,
    /// The product-name query failed, did not fit, or decoded to nothing.
    ProductNameUnavailable,
    /// The OS refused the registration of interest in a device class.
    RegistrationFailed,
    /// Batch capacity growth exceeded its ceiling.
    BatchResizeExhausted,
}

} // verus!
