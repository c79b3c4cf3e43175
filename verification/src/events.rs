//! The event vocabulary of the core: commands and transport callbacks that
//! come in, state updates that go out, and the actions the application shell
//! performs on the core's behalf (sending packets, touching the disk,
//! driving the radio).

use vstd::prelude::*;

verus! {

/// Everything the event loop consumes: user commands, then transport
/// callbacks, then the shutdown request.
#[derive(Debug)]
pub enum Event {
    StartDiscovery,
    StopDiscovery,
    PairWithDevice(String),
    SendMessage(String, String),
    SendFile(String, String),
    CancelTransfer(String),
    DeviceDiscovered(String, String),
    DeviceConnected(String),
    DeviceDisconnected(String),
    DataReceived(String, Vec<u8>),
    Shutdown,
}

/// Coarse error classes carried by error updates.
#[derive(Debug, Clone, Copy, PartialEq, Eq, Structural)]
pub enum ErrorCode {
    BluetoothError,
    CryptoError,
    NetworkError,
    FileError,
    SessionError,
}

/// Everything the event loop emits to its observers. File-transfer progress
/// carries the moved and total byte counts; observers derive a ratio.
#[derive(Debug)]
pub enum StateUpdate {
    DiscoveryStarted,
    DiscoveryStopped,
    DeviceFound { id: String, name: String },
    DevicePaired { id: String },
    MessageReceived { session_id: String, message: String, timestamp: u64 },
    FileTransferProgress { transfer_id: String, sent: u64, total: u64 },
    FileReceived { session_id: String, file_path: String },
    Error { code: ErrorCode, message: String },
}

/// What the application shell must do after an event was handled: the core
/// decides, the shell performs the I/O.
#[derive(Debug)]
pub enum Action {
    /// Begin device discovery on the platform radio.
    StartDiscovery,
    /// Stop device discovery.
    StopDiscovery,
    /// Connect to a peer and drive a pairing handshake with it.
    ConnectAndPair { device_id: String },
    /// Send one packet over the session's transport.
    SendPacket { session_id: String, data: Vec<u8> },
    /// Close the session's transport.
    CloseTransport { session_id: String },
    /// Read a file and hand its bytes back for the given transfer on the
    /// given session.
    ReadFile { transfer_id: String, session_id: String, path: String },
    /// Write a received file to disk.
    WriteFile { path: String, data: Vec<u8> },
}

} // verus!
