use bluebeam::errors::{CryptoError, Error, ErrorCode};

#[test]
fn test_error_codes() {
    assert_eq!(ErrorCode::Unknown.code(), 1000);
    assert_eq!(ErrorCode::DatabaseConnectionFailed.code(), 2000);
    assert_eq!(ErrorCode::BluetoothNotSupported.code(), 3000);
    assert_eq!(ErrorCode::CryptoKeyExchangeFailed.code(), 4000);
    assert_eq!(ErrorCode::SettingsLoadFailed.code(), 5000);
}

#[test]
fn test_error_conversion() {
    let crypto_err = bluebeam::crypto::CryptoError::InvalidKey;
    let core_err: Error = crypto_err.into();
    match core_err {
        Error::Crypto(CryptoError::InvalidKey) => {},
        _ => panic!("Wrong error type"),
    }
    assert_eq!(core_err.error_code(), ErrorCode::CryptoInvalidKey);
    assert_eq!(
        core_err.user_message(),
        "Invalid encryption key detected. Your security may be compromised."
    );
}

#[test]
fn every_domain_maps_to_its_decade() {
    assert_eq!(
        Error::Database(bluebeam::errors::DatabaseError::QueryFailed).error_code().code(),
        2001
    );
    assert_eq!(
        Error::Bluetooth(bluebeam::errors::BluetoothError::PairingFailed).error_code().code(),
        3004
    );
    assert_eq!(
        Error::Crypto(CryptoError::DecryptionFailed).error_code().code(),
        4003
    );
    assert_eq!(
        Error::FileTransfer(bluebeam::errors::FileTransferError::FileTooLarge { size: 9 })
            .error_code()
            .code(),
        6003
    );
    assert_eq!(
        Error::General { message: "x".to_string(), code: ErrorCode::Timeout }.error_code().code(),
        1005
    );
}
