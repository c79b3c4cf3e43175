//! Error taxonomy: stable numeric codes grouped by decade, domain error
//! enums, a top-level sum, and the deterministic mapping of every error to a
//! user-safe message and a stable code.

use vstd::prelude::*;

verus! {

/// Low-level error codes. The stable numeric value of each lives in
/// [`ErrorCode::code`]: general errors in the 1000s, database in the 2000s,
/// bluetooth in the 3000s, crypto in the 4000s, settings in the 5000s and
/// file transfer in the 6000s.
#[derive(Debug, Clone, Copy, PartialEq, Eq, Structural)]
pub enum ErrorCode {
    Unknown,
    InvalidInput,
    PermissionDenied,
    NotFound,
    AlreadyExists,
    Timeout,
    DatabaseConnectionFailed,
    DatabaseQueryFailed,
    DatabaseMigrationFailed,
    DatabaseIntegrityError,
    BluetoothNotSupported,
    BluetoothDisabled,
    BluetoothDiscoveryFailed,
    BluetoothConnectionFailed,
    BluetoothPairingFailed,
    BluetoothDeviceNotFound,
    CryptoKeyExchangeFailed,
    CryptoInvalidKey,
    CryptoEncryptionFailed,
    CryptoDecryptionFailed,
    SettingsLoadFailed,
    SettingsSaveFailed,
    SettingsInvalidFormat,
    FileTransferFailed,
    FileNotFound,
    FilePermissionDenied,
    FileTooLarge,
}

impl ErrorCode {
    /// The stable numeric value of this code.
    pub open spec fn code_spec(self) -> u32 {
        match self {
            ErrorCode::Unknown => 1000,
            ErrorCode::InvalidInput => 1001,
            ErrorCode::PermissionDenied => 1002,
            ErrorCode::NotFound => 1003,
            ErrorCode::AlreadyExists => 1004,
            ErrorCode::Timeout => 1005,
            ErrorCode::DatabaseConnectionFailed => 2000,
            ErrorCode::DatabaseQueryFailed => 2001,
            ErrorCode::DatabaseMigrationFailed => 2002,
            ErrorCode::DatabaseIntegrityError => 2003,
            ErrorCode::BluetoothNotSupported => 3000,
            ErrorCode::BluetoothDisabled => 3001,
            ErrorCode::BluetoothDiscoveryFailed => 3002,
            ErrorCode::BluetoothConnectionFailed => 3003,
            ErrorCode::BluetoothPairingFailed => 3004,
            ErrorCode::BluetoothDeviceNotFound => 3005,
            ErrorCode::CryptoKeyExchangeFailed => 4000,
            ErrorCode::CryptoInvalidKey => 4001,
            ErrorCode::CryptoEncryptionFailed => 4002,
            ErrorCode::CryptoDecryptionFailed => 4003,
            ErrorCode::SettingsLoadFailed => 5000,
            ErrorCode::SettingsSaveFailed => 5001,
            ErrorCode::SettingsInvalidFormat => 5002,
            ErrorCode::FileTransferFailed => 6000,
            ErrorCode::FileNotFound => 6001,
            ErrorCode::FilePermissionDenied => 6002,
            ErrorCode::FileTooLarge => 6003,
        }
    }

    /// The stable numeric value of this code.
    pub fn code(&self) -> (c: u32)
        ensures
            c == self.code_spec(),
    {
        match self {
            ErrorCode::Unknown => 1000,
            ErrorCode::InvalidInput => 1001,
            ErrorCode::PermissionDenied => 1002,
            ErrorCode::NotFound => 1003,
            ErrorCode::AlreadyExists => 1004,
            ErrorCode::Timeout => 1005,
            ErrorCode::DatabaseConnectionFailed => 2000,
            ErrorCode::DatabaseQueryFailed => 2001,
            ErrorCode::DatabaseMigrationFailed => 2002,
            ErrorCode::DatabaseIntegrityError => 2003,
            ErrorCode::BluetoothNotSupported => 3000,
            ErrorCode::BluetoothDisabled => 3001,
            ErrorCode::BluetoothDiscoveryFailed => 3002,
            ErrorCode::BluetoothConnectionFailed => 3003,
            ErrorCode::BluetoothPairingFailed => 3004,
            ErrorCode::BluetoothDeviceNotFound => 3005,
            ErrorCode::CryptoKeyExchangeFailed => 4000,
            ErrorCode::CryptoInvalidKey => 4001,
            ErrorCode::CryptoEncryptionFailed => 4002,
            ErrorCode::CryptoDecryptionFailed => 4003,
            ErrorCode::SettingsLoadFailed => 5000,
            ErrorCode::SettingsSaveFailed => 5001,
            ErrorCode::SettingsInvalidFormat => 5002,
            ErrorCode::FileTransferFailed => 6000,
            ErrorCode::FileNotFound => 6001,
            ErrorCode::FilePermissionDenied => 6002,
            ErrorCode::FileTooLarge => 6003,
        }
    }
}

/// Persistence failures.
#[derive(Debug, Clone)]
pub enum DatabaseError {
    ConnectionFailed,
    QueryFailed,
    MigrationFailed,
    IntegrityError { message: String },
    Io,
}

/// Wireless-link failures.
#[derive(Debug, Clone)]
pub enum BluetoothError {
    NotSupported,
    Disabled,
    DiscoveryFailed,
    ConnectionFailed,
    PairingFailed,
    DeviceNotFound { device_id: String },
}

/// Cryptographic failures.
#[derive(Debug, Clone)]
pub enum CryptoError {
    KeyExchangeFailed,
    InvalidKey,
    EncryptionFailed,
    DecryptionFailed,
}

/// Settings-store failures.
#[derive(Debug, Clone)]
pub enum SettingsError {
    LoadFailed,
    SaveFailed,
    InvalidFormat { message: String },
}

/// File-transfer failures.
#[derive(Debug, Clone)]
pub enum FileTransferError {
    TransferFailed,
    FileNotFound { path: String },
    PermissionDenied { path: String },
    FileTooLarge { size: u64 },
}

/// What the crypto module's error stands for at the top level.
pub open spec fn crypto_error_spec(e: crate::crypto::CryptoError) -> CryptoError {
    match e {
        crate::crypto::CryptoError::KeyExchangeFailed => CryptoError::KeyExchangeFailed,
        crate::crypto::CryptoError::InvalidKey => CryptoError::InvalidKey,
        crate::crypto::CryptoError::EncryptionFailed => CryptoError::EncryptionFailed,
        crate::crypto::CryptoError::DecryptionFailed => CryptoError::DecryptionFailed,
    }
}

/// What the store module's error stands for at the top level.
pub open spec fn database_error_spec(e: crate::store::DatabaseError) -> DatabaseError {
    match e {
        crate::store::DatabaseError::ConnectionFailed => DatabaseError::ConnectionFailed,
        crate::store::DatabaseError::QueryFailed => DatabaseError::QueryFailed,
        crate::store::DatabaseError::MigrationFailed => DatabaseError::MigrationFailed,
        crate::store::DatabaseError::IntegrityError { message } => DatabaseError::IntegrityError {
            message,
        },
        crate::store::DatabaseError::Io => DatabaseError::Io,
    }
}

/// What the settings module's error stands for at the top level.
pub open spec fn settings_error_spec(e: crate::settings::SettingsError) -> SettingsError {
    match e {
        crate::settings::SettingsError::LoadFailed => SettingsError::LoadFailed,
        crate::settings::SettingsError::SaveFailed => SettingsError::SaveFailed,
        crate::settings::SettingsError::InvalidFormat { message } => SettingsError::InvalidFormat {
            message,
        },
    }
}

/// What the bluetooth module's error stands for at the top level.
pub open spec fn bluetooth_error_spec(e: crate::bluetooth::BluetoothError) -> BluetoothError {
    match e {
        crate::bluetooth::BluetoothError::NotSupported => BluetoothError::NotSupported,
        crate::bluetooth::BluetoothError::Disabled => BluetoothError::Disabled,
        crate::bluetooth::BluetoothError::DiscoveryFailed => BluetoothError::DiscoveryFailed,
        crate::bluetooth::BluetoothError::ConnectionFailed => BluetoothError::ConnectionFailed,
        crate::bluetooth::BluetoothError::PairingFailed => BluetoothError::PairingFailed,
        crate::bluetooth::BluetoothError::DeviceNotFound { device_id } => {
            BluetoothError::DeviceNotFound { device_id }
        },
    }
}

/// Top-level application error: the sum of the domain errors plus a general
/// escape hatch carrying its own code.
#[derive(Debug, Clone)]
pub enum Error {
    Database(DatabaseError),
    Bluetooth(BluetoothError),
    Crypto(CryptoError),
    Settings(SettingsError),
    FileTransfer(FileTransferError),
    General { message: String, code: ErrorCode },
}

impl From<crate::crypto::CryptoError> for Error {
    /// Lifts a crypto failure to the top-level error.
    fn from(e: crate::crypto::CryptoError) -> (r: Error) {
        Error::Crypto(
            match e {
                crate::crypto::CryptoError::KeyExchangeFailed => CryptoError::KeyExchangeFailed,
                crate::crypto::CryptoError::InvalidKey => CryptoError::InvalidKey,
                crate::crypto::CryptoError::EncryptionFailed => CryptoError::EncryptionFailed,
                crate::crypto::CryptoError::DecryptionFailed => CryptoError::DecryptionFailed,
            },
        )
    }
}

impl vstd::std_specs::convert::FromSpecImpl<crate::crypto::CryptoError> for Error {
    open spec fn obeys_from_spec() -> bool {
        true
    }

    open spec fn from_spec(e: crate::crypto::CryptoError) -> Error {
        Error::Crypto(crypto_error_spec(e))
    }
}

impl From<crate::store::DatabaseError> for Error {
    /// Lifts a persistence failure to the top-level error.
    fn from(e: crate::store::DatabaseError) -> (r: Error) {
        Error::Database(
            match e {
                crate::store::DatabaseError::ConnectionFailed => DatabaseError::ConnectionFailed,
                crate::store::DatabaseError::QueryFailed => DatabaseError::QueryFailed,
                crate::store::DatabaseError::MigrationFailed => DatabaseError::MigrationFailed,
                crate::store::DatabaseError::IntegrityError { message } => {
                    DatabaseError::IntegrityError { message }
                },
                crate::store::DatabaseError::Io => DatabaseError::Io,
            },
        )
    }
}

impl vstd::std_specs::convert::FromSpecImpl<crate::store::DatabaseError> for Error {
    open spec fn obeys_from_spec() -> bool {
        true
    }

    open spec fn from_spec(e: crate::store::DatabaseError) -> Error {
        Error::Database(database_error_spec(e))
    }
}

impl From<crate::settings::SettingsError> for Error {
    /// Lifts a settings failure to the top-level error.
    fn from(e: crate::settings::SettingsError) -> (r: Error) {
        Error::Settings(
            match e {
                crate::settings::SettingsError::LoadFailed => SettingsError::LoadFailed,
                crate::settings::SettingsError::SaveFailed => SettingsError::SaveFailed,
                crate::settings::SettingsError::InvalidFormat { message } => {
                    SettingsError::InvalidFormat { message }
                },
            },
        )
    }
}

impl vstd::std_specs::convert::FromSpecImpl<crate::settings::SettingsError> for Error {
    open spec fn obeys_from_spec() -> bool {
        true
    }

    open spec fn from_spec(e: crate::settings::SettingsError) -> Error {
        Error::Settings(settings_error_spec(e))
    }
}

impl From<crate::bluetooth::BluetoothError> for Error {
    /// Lifts a wireless-link failure to the top-level error.
    fn from(e: crate::bluetooth::BluetoothError) -> (r: Error) {
        Error::Bluetooth(
            match e {
                crate::bluetooth::BluetoothError::NotSupported => BluetoothError::NotSupported,
                crate::bluetooth::BluetoothError::Disabled => BluetoothError::Disabled,
                crate::bluetooth::BluetoothError::DiscoveryFailed => {
                    BluetoothError::DiscoveryFailed
                },
                crate::bluetooth::BluetoothError::ConnectionFailed => {
                    BluetoothError::ConnectionFailed
                },
                crate::bluetooth::BluetoothError::PairingFailed => BluetoothError::PairingFailed,
                crate::bluetooth::BluetoothError::DeviceNotFound { device_id } => {
                    BluetoothError::DeviceNotFound { device_id }
                },
            },
        )
    }
}

impl vstd::std_specs::convert::FromSpecImpl<crate::bluetooth::BluetoothError> for Error {
    open spec fn obeys_from_spec() -> bool {
        true
    }

    open spec fn from_spec(e: crate::bluetooth::BluetoothError) -> Error {
        Error::Bluetooth(bluetooth_error_spec(e))
    }
}

impl Error {
    /// The stable code of each error.
    pub open spec fn error_code_spec(self) -> ErrorCode {
        match self {
            Error::Database(DatabaseError::ConnectionFailed) => ErrorCode::DatabaseConnectionFailed,
            Error::Database(DatabaseError::QueryFailed) => ErrorCode::DatabaseQueryFailed,
            Error::Database(DatabaseError::MigrationFailed) => ErrorCode::DatabaseMigrationFailed,
            Error::Database(DatabaseError::IntegrityError { .. }) => ErrorCode::DatabaseIntegrityError,
            Error::Database(DatabaseError::Io) => ErrorCode::DatabaseConnectionFailed,
            Error::Bluetooth(BluetoothError::NotSupported) => ErrorCode::BluetoothNotSupported,
            Error::Bluetooth(BluetoothError::Disabled) => ErrorCode::BluetoothDisabled,
            Error::Bluetooth(BluetoothError::DiscoveryFailed) => ErrorCode::BluetoothDiscoveryFailed,
            Error::Bluetooth(BluetoothError::ConnectionFailed) => ErrorCode::BluetoothConnectionFailed,
            Error::Bluetooth(BluetoothError::PairingFailed) => ErrorCode::BluetoothPairingFailed,
            Error::Bluetooth(BluetoothError::DeviceNotFound { .. }) => ErrorCode::BluetoothDeviceNotFound,
            Error::Crypto(CryptoError::KeyExchangeFailed) => ErrorCode::CryptoKeyExchangeFailed,
            Error::Crypto(CryptoError::InvalidKey) => ErrorCode::CryptoInvalidKey,
            Error::Crypto(CryptoError::EncryptionFailed) => ErrorCode::CryptoEncryptionFailed,
            Error::Crypto(CryptoError::DecryptionFailed) => ErrorCode::CryptoDecryptionFailed,
            Error::Settings(SettingsError::LoadFailed) => ErrorCode::SettingsLoadFailed,
            Error::Settings(SettingsError::SaveFailed) => ErrorCode::SettingsSaveFailed,
            Error::Settings(SettingsError::InvalidFormat { .. }) => ErrorCode::SettingsInvalidFormat,
            Error::FileTransfer(FileTransferError::TransferFailed) => ErrorCode::FileTransferFailed,
            Error::FileTransfer(FileTransferError::FileNotFound { .. }) => ErrorCode::FileNotFound,
            Error::FileTransfer(FileTransferError::PermissionDenied { .. }) => ErrorCode::FilePermissionDenied,
            Error::FileTransfer(FileTransferError::FileTooLarge { .. }) => ErrorCode::FileTooLarge,
            Error::General { code, .. } => code,
        }
    }

    /// Maps every error to its stable code.
    pub fn error_code(&self) -> (c: ErrorCode)
        ensures
            c == self.error_code_spec(),
    {
        match self {
            Error::Database(DatabaseError::ConnectionFailed) => ErrorCode::DatabaseConnectionFailed,
            Error::Database(DatabaseError::QueryFailed) => ErrorCode::DatabaseQueryFailed,
            Error::Database(DatabaseError::MigrationFailed) => ErrorCode::DatabaseMigrationFailed,
            Error::Database(DatabaseError::IntegrityError { .. }) => ErrorCode::DatabaseIntegrityError,
            Error::Database(DatabaseError::Io) => ErrorCode::DatabaseConnectionFailed,
            Error::Bluetooth(BluetoothError::NotSupported) => ErrorCode::BluetoothNotSupported,
            Error::Bluetooth(BluetoothError::Disabled) => ErrorCode::BluetoothDisabled,
            Error::Bluetooth(BluetoothError::DiscoveryFailed) => ErrorCode::BluetoothDiscoveryFailed,
            Error::Bluetooth(BluetoothError::ConnectionFailed) => ErrorCode::BluetoothConnectionFailed,
            Error::Bluetooth(BluetoothError::PairingFailed) => ErrorCode::BluetoothPairingFailed,
            Error::Bluetooth(BluetoothError::DeviceNotFound { .. }) => ErrorCode::BluetoothDeviceNotFound,
            Error::Crypto(CryptoError::KeyExchangeFailed) => ErrorCode::CryptoKeyExchangeFailed,
            Error::Crypto(CryptoError::InvalidKey) => ErrorCode::CryptoInvalidKey,
            Error::Crypto(CryptoError::EncryptionFailed) => ErrorCode::CryptoEncryptionFailed,
            Error::Crypto(CryptoError::DecryptionFailed) => ErrorCode::CryptoDecryptionFailed,
            Error::Settings(SettingsError::LoadFailed) => ErrorCode::SettingsLoadFailed,
            Error::Settings(SettingsError::SaveFailed) => ErrorCode::SettingsSaveFailed,
            Error::Settings(SettingsError::InvalidFormat { .. }) => ErrorCode::SettingsInvalidFormat,
            Error::FileTransfer(FileTransferError::TransferFailed) => ErrorCode::FileTransferFailed,
            Error::FileTransfer(FileTransferError::FileNotFound { .. }) => ErrorCode::FileNotFound,
            Error::FileTransfer(FileTransferError::PermissionDenied { .. }) => ErrorCode::FilePermissionDenied,
            Error::FileTransfer(FileTransferError::FileTooLarge { .. }) => ErrorCode::FileTooLarge,
            Error::General { code, .. } => *code,
        }
    }

    /// The fixed, non-sensitive message shown for each error.
    pub open spec fn user_message_spec(self) -> Seq<char> {
        match self {
            Error::Database(DatabaseError::ConnectionFailed) =>
                "Unable to connect to the database. Please check your database configuration."@,
            Error::Database(DatabaseError::QueryFailed) =>
                "A database operation failed. Please try again or contact support if the problem persists."@,
            Error::Database(DatabaseError::MigrationFailed) =>
                "Database update failed. The application may need to be reinstalled."@,
            Error::Database(DatabaseError::IntegrityError { .. }) =>
                "Database integrity check failed. Your data may be corrupted."@,
            Error::Database(DatabaseError::Io) =>
                "File system error occurred while accessing the database."@,
            Error::Bluetooth(BluetoothError::NotSupported) =>
                "Bluetooth is not supported on this device."@,
            Error::Bluetooth(BluetoothError::Disabled) =>
                "Bluetooth is disabled. Please enable Bluetooth in your system settings."@,
            Error::Bluetooth(BluetoothError::DiscoveryFailed) =>
                "Failed to discover nearby devices. Please check your Bluetooth settings."@,
            Error::Bluetooth(BluetoothError::ConnectionFailed) =>
                "Failed to connect to the device. Please ensure the device is nearby and try again."@,
            Error::Bluetooth(BluetoothError::PairingFailed) =>
                "Device pairing failed. Please verify the PIN code and try again."@,
            Error::Bluetooth(BluetoothError::DeviceNotFound { .. }) =>
                "The requested device could not be found."@,
            Error::Crypto(CryptoError::KeyExchangeFailed) =>
                "Secure key exchange failed. Please restart the pairing process."@,
            Error::Crypto(CryptoError::InvalidKey) =>
                "Invalid encryption key detected. Your security may be compromised."@,
            Error::Crypto(CryptoError::EncryptionFailed) =>
                "Failed to encrypt data. Please try again."@,
            Error::Crypto(CryptoError::DecryptionFailed) =>
                "Failed to decrypt data. The data may be corrupted."@,
            Error::Settings(SettingsError::LoadFailed) =>
                "Failed to load application settings. Default settings will be used."@,
            Error::Settings(SettingsError::SaveFailed) =>
                "Failed to save your settings. Your changes may not be preserved."@,
            Error::Settings(SettingsError::InvalidFormat { .. }) =>
                "Your settings file is corrupted. Default settings will be restored."@,
            Error::FileTransfer(FileTransferError::TransferFailed) =>
                "File transfer failed. Please check your connection and try again."@,
            Error::FileTransfer(FileTransferError::FileNotFound { .. }) =>
                "The requested file could not be found."@,
            Error::FileTransfer(FileTransferError::PermissionDenied { .. }) =>
                "You don't have permission to access this file."@,
            Error::FileTransfer(FileTransferError::FileTooLarge { .. }) =>
                "The file is too large to transfer."@,
            Error::General { code: ErrorCode::Unknown, .. } =>
                "An unexpected error occurred. Please try again."@,
            Error::General { code: ErrorCode::InvalidInput, .. } =>
                "Invalid input provided. Please check your data and try again."@,
            Error::General { code: ErrorCode::PermissionDenied, .. } =>
                "Permission denied. You may not have the required access rights."@,
            Error::General { code: ErrorCode::NotFound, .. } =>
                "The requested item could not be found."@,
            Error::General { code: ErrorCode::AlreadyExists, .. } =>
                "The item already exists."@,
            Error::General { code: ErrorCode::Timeout, .. } =>
                "The operation timed out. Please try again."@,
            Error::General { .. } =>
                "An error occurred. Please try again or contact support."@,
        }
    }

    /// Maps every error to a fixed, non-sensitive English message.
    pub fn user_message(&self) -> (m: &'static str)
        ensures
            m@ == self.user_message_spec(),
    {
        match self {
            Error::Database(DatabaseError::ConnectionFailed) =>
                "Unable to connect to the database. Please check your database configuration.",
            Error::Database(DatabaseError::QueryFailed) =>
                "A database operation failed. Please try again or contact support if the problem persists.",
            Error::Database(DatabaseError::MigrationFailed) =>
                "Database update failed. The application may need to be reinstalled.",
            Error::Database(DatabaseError::IntegrityError { .. }) =>
                "Database integrity check failed. Your data may be corrupted.",
            Error::Database(DatabaseError::Io) =>
                "File system error occurred while accessing the database.",
            Error::Bluetooth(BluetoothError::NotSupported) =>
                "Bluetooth is not supported on this device.",
            Error::Bluetooth(BluetoothError::Disabled) =>
                "Bluetooth is disabled. Please enable Bluetooth in your system settings.",
            Error::Bluetooth(BluetoothError::DiscoveryFailed) =>
                "Failed to discover nearby devices. Please check your Bluetooth settings.",
            Error::Bluetooth(BluetoothError::ConnectionFailed) =>
                "Failed to connect to the device. Please ensure the device is nearby and try again.",
            Error::Bluetooth(BluetoothError::PairingFailed) =>
                "Device pairing failed. Please verify the PIN code and try again.",
            Error::Bluetooth(BluetoothError::DeviceNotFound { .. }) =>
                "The requested device could not be found.",
            Error::Crypto(CryptoError::KeyExchangeFailed) =>
                "Secure key exchange failed. Please restart the pairing process.",
            Error::Crypto(CryptoError::InvalidKey) =>
                "Invalid encryption key detected. Your security may be compromised.",
            Error::Crypto(CryptoError::EncryptionFailed) =>
                "Failed to encrypt data. Please try again.",
            Error::Crypto(CryptoError::DecryptionFailed) =>
                "Failed to decrypt data. The data may be corrupted.",
            Error::Settings(SettingsError::LoadFailed) =>
                "Failed to load application settings. Default settings will be used.",
            Error::Settings(SettingsError::SaveFailed) =>
                "Failed to save your settings. Your changes may not be preserved.",
            Error::Settings(SettingsError::InvalidFormat { .. }) =>
                "Your settings file is corrupted. Default settings will be restored.",
            Error::FileTransfer(FileTransferError::TransferFailed) =>
                "File transfer failed. Please check your connection and try again.",
            Error::FileTransfer(FileTransferError::FileNotFound { .. }) =>
                "The requested file could not be found.",
            Error::FileTransfer(FileTransferError::PermissionDenied { .. }) =>
                "You don't have permission to access this file.",
            Error::FileTransfer(FileTransferError::FileTooLarge { .. }) =>
                "The file is too large to transfer.",
            Error::General { code: ErrorCode::Unknown, .. } =>
                "An unexpected error occurred. Please try again.",
            Error::General { code: ErrorCode::InvalidInput, .. } =>
                "Invalid input provided. Please check your data and try again.",
            Error::General { code: ErrorCode::PermissionDenied, .. } =>
                "Permission denied. You may not have the required access rights.",
            Error::General { code: ErrorCode::NotFound, .. } =>
                "The requested item could not be found.",
            Error::General { code: ErrorCode::AlreadyExists, .. } =>
                "The item already exists.",
            Error::General { code: ErrorCode::Timeout, .. } =>
                "The operation timed out. Please try again.",
            Error::General { .. } =>
                "An error occurred. Please try again or contact support.",
        }
    }
}

} // verus!
