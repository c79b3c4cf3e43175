//! Types shared with the wireless link: discovery results and link errors.
//! The platform Bluetooth stack itself lives outside the library and talks
//! to it through plain values.

use vstd::prelude::*;

verus! {

/// Failures of the wireless link.
#[derive(Debug, Clone)]
pub enum BluetoothError {
    NotSupported,
    Disabled,
    DiscoveryFailed,
    ConnectionFailed,
    PairingFailed,
    DeviceNotFound { device_id: String },
}

/// A device seen during discovery.
#[derive(Debug)]
pub struct DeviceInfo {
    /// Stable identifier (platform-opaque address or UUID).
    pub id: String,
    /// Display name.
    pub name: String,
    /// Raw link address.
    pub address: String,
    /// Received signal strength.
    pub rssi: i16,
}

impl Clone for DeviceInfo {
    /// Cloning keeps every field.
    fn clone(&self) -> (r: Self)
        ensures
            r == *self,
    {
        DeviceInfo {
            id: self.id.clone(),
            name: self.name.clone(),
            address: self.address.clone(),
            rssi: self.rssi,
        }
    }
}

} // verus!
