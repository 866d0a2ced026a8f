//! What is asked of the platform when the device of a context is chosen.
use vstd::prelude::*;

verus! {

/// Which of several adapters is preferred.
#[derive(Clone, Copy, Debug, PartialEq, Eq, Structural)]
pub enum PowerPreference {
    LowPower,
    HighPerformance,
}

/// The resource limits that a device is asked for.
#[derive(Clone, Copy, Debug, PartialEq, Eq, Structural)]
pub enum Limits {
    /// The conservative limits that every backend offers.
    Portable,
    /// The limits of a current desktop device.
    Standard,
}

/// A request for a device.
#[derive(Clone, Copy, Debug, PartialEq, Eq, Structural)]
pub struct DeviceRequest {
    pub power_preference: PowerPreference,
    /// Whether features beyond the baseline are asked for.
    pub optional_features: bool,
    pub limits: Limits,
}

/// The request of a context that chooses its device itself: the fastest
/// adapter, no feature beyond the baseline, portable limits.
pub open spec fn default_request() -> DeviceRequest {
    DeviceRequest {
        power_preference: PowerPreference::HighPerformance,
        optional_features: false,
        limits: Limits::Portable,
    }
}

impl Default for DeviceRequest {
    /// The request of a context that chooses its device itself. Where the
    /// platform has no adapter or no device for it, no compute is possible:
    /// the driver gives up rather than try again.
    fn default() -> (request: DeviceRequest)
        ensures
            request == default_request(),
    {
        DeviceRequest {
            power_preference: PowerPreference::HighPerformance,
            optional_features: false,
            limits: Limits::Portable,
        }
    }
}

} // verus!
