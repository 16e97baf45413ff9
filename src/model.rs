//! The records handed back to callers, and the errors of both operations.
use vstd::prelude::*;

verus! {

/// A connected device that reports the battery services.
#[derive(Debug, Clone, PartialEq, Eq)]
pub struct BleDeviceInfo {
    pub name: String,
    /// The platform's textual encoding of the device handle.
    pub id: String,
}

impl BleDeviceInfo {
    /// The entry as `(name, id)`.
    pub open spec fn entry(&self) -> (Seq<char>, Seq<char>) {
        (self.name@, self.id@)
    }
}

/// One Battery Level characteristic that was read.
#[derive(Debug, Clone, PartialEq, Eq)]
pub struct BatteryInfo {
    /// The first byte of the value; `None` when the value was empty.
    pub battery_level: Option<u8>,
    /// The text of a user description descriptor, when one was valid UTF-8.
    pub user_descriptor: Option<String>,
}

impl BatteryInfo {
    /// The reading as `(level, description)`.
    pub open spec fn entry(&self) -> (Option<u8>, Option<Seq<char>>) {
        (
            self.battery_level,
            match self.user_descriptor {
                Some(s) => Some(s@),
                None => None,
            },
        )
    }
}

/// Why an operation stopped. Variants that carry a `String` hold the platform
/// stack's own message.
#[derive(Debug, Clone, PartialEq, Eq)]
pub enum BleError {
    AdapterNotFound,
    AdapterUnavailable(String),
    EnumerationFailed(String),
    DeviceNotFound,
    ConnectionFailed(String),
    ServiceDiscoveryFailed(String),
    CharacteristicDiscoveryFailed(String),
    CharacteristicReadFailed(String),
    DescriptorDiscoveryFailed(String),
    DescriptorReadFailed(String),
}

impl BleError {
    /// The text shown to the user for this error.
    pub open spec fn text(&self) -> Seq<char> {
        match self {
            BleError::AdapterNotFound => "Bluetooth adapter not found"@,
            BleError::DeviceNotFound => "Device not found"@,
            BleError::AdapterUnavailable(m) => m@,
            BleError::EnumerationFailed(m) => m@,
            BleError::ConnectionFailed(m) => m@,
            BleError::ServiceDiscoveryFailed(m) => m@,
            BleError::CharacteristicDiscoveryFailed(m) => m@,
            BleError::CharacteristicReadFailed(m) => m@,
            BleError::DescriptorDiscoveryFailed(m) => m@,
            BleError::DescriptorReadFailed(m) => m@,
        }
    }

    /// The message that the boundary reports for this error.
    pub fn message(&self) -> (r: String)
        ensures
            r@ == self.text(),
    {
        match self {
            BleError::AdapterNotFound => String::from_str("Bluetooth adapter not found"),
            BleError::DeviceNotFound => String::from_str("Device not found"),
            BleError::AdapterUnavailable(m) => m.clone(),
            BleError::EnumerationFailed(m) => m.clone(),
            BleError::ConnectionFailed(m) => m.clone(),
            BleError::ServiceDiscoveryFailed(m) => m.clone(),
            BleError::CharacteristicDiscoveryFailed(m) => m.clone(),
            BleError::CharacteristicReadFailed(m) => m.clone(),
            BleError::DescriptorDiscoveryFailed(m) => m.clone(),
            BleError::DescriptorReadFailed(m) => m.clone(),
        }
    }
}

/// What the platform said when asked for its default adapter.
#[derive(Debug, Clone, PartialEq, Eq)]
pub enum AdapterState {
    /// No usable radio.
    Missing,
    /// The radio exists, but waiting for it to become available failed.
    Failed(String),
    /// The radio is available.
    Ready,
}

/// Whether an operation may go on past adapter acquisition.
pub fn adapter_ready(state: AdapterState) -> (r: Result<(), BleError>)
    ensures
        match state {
            AdapterState::Missing => r == Err::<(), BleError>(BleError::AdapterNotFound),
            AdapterState::Failed(m) => r == Err::<(), BleError>(BleError::AdapterUnavailable(m)),
            AdapterState::Ready => r == Ok::<(), BleError>(()),
        },
{
    match state {
        AdapterState::Missing => Err(BleError::AdapterNotFound),
        AdapterState::Failed(m) => Err(BleError::AdapterUnavailable(m)),
        AdapterState::Ready => Ok(()),
    }
}

} // verus!
