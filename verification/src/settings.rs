//! Application settings: the settings record with its defaults, and the
//! manager the event loop owns. The settings file itself — an AES-256-GCM
//! sealed JSON blob under the OS config directory — is read and written by
//! the application shell, which hands the record in and out as plain values;
//! the at-rest sealing lives in [`crate::crypto::encrypt_data`] and
//! [`crate::crypto::decrypt_data`].

use vstd::prelude::*;
use vstd::string::StringExecFns;

verus! {

/// Settings-store failures.
#[derive(Debug, Clone)]
pub enum SettingsError {
    LoadFailed,
    SaveFailed,
    InvalidFormat { message: String },
}

/// The persisted settings record.
#[derive(Debug)]
pub struct AppSettings {
    /// Display name of the local user.
    pub user_name: String,
    /// Interface theme.
    pub theme: String,
    /// Where received files land; the shell fills in a platform default.
    pub download_path: String,
    /// Whether at-rest encryption is on.
    pub encryption_enabled: bool,
    /// Minutes of inactivity before the interface locks.
    pub auto_lock_timeout: i32,
    /// Whether biometric unlocking is on.
    pub biometric_auth_enabled: bool,
    /// Whether a second authentication factor is required.
    pub two_factor_enabled: bool,
    /// Interface language code.
    pub language: String,
    /// Whether notifications are shown.
    pub notifications_enabled: bool,
    /// Whether updates install on their own.
    pub auto_update_enabled: bool,
    /// Path of the profile picture.
    pub profile_picture_path: String,
    /// Contact address of the local user.
    pub email: String,
    /// Whether the application has never run before.
    pub first_run: bool,
    /// Stable identifiers of the peers pairing confirmed.
    pub trusted_devices: Vec<String>,
}

impl Default for AppSettings {
    /// The defaults used when no settings file exists or it cannot be read.
    fn default() -> (s: AppSettings)
        ensures
            s.user_name@.len() == 0,
            s.theme@ == "light"@,
            s.download_path@.len() == 0,
            s.encryption_enabled,
            s.auto_lock_timeout == 5,
            !s.biometric_auth_enabled,
            !s.two_factor_enabled,
            s.language@ == "en"@,
            s.notifications_enabled,
            s.auto_update_enabled,
            s.profile_picture_path@.len() == 0,
            s.email@.len() == 0,
            s.first_run,
            s.trusted_devices@.len() == 0,
    {
        AppSettings {
            user_name: String::new(),
            theme: String::from_str("light"),
            download_path: String::new(),
            encryption_enabled: true,
            auto_lock_timeout: 5,
            biometric_auth_enabled: false,
            two_factor_enabled: false,
            language: String::from_str("en"),
            notifications_enabled: true,
            auto_update_enabled: true,
            profile_picture_path: String::new(),
            email: String::new(),
            first_run: true,
            trusted_devices: Vec::new(),
        }
    }
}

/// Owns the settings record for the event loop. Mutations mark the record
/// dirty; the application shell persists it and clears the mark.
pub struct SettingsManager {
    /// The current settings record.
    pub settings: AppSettings,
    /// Whether the record changed since it was last persisted.
    pub dirty: bool,
}

impl SettingsManager {
    /// A manager over the default settings, as used when loading failed or
    /// no settings were ever saved.
    pub fn new() -> (m: SettingsManager)
        ensures
            !m.dirty,
            m.settings.user_name@.len() == 0,
            m.settings.theme@ == "light"@,
            m.settings.download_path@.len() == 0,
            m.settings.encryption_enabled,
            m.settings.auto_lock_timeout == 5,
            !m.settings.biometric_auth_enabled,
            !m.settings.two_factor_enabled,
            m.settings.language@ == "en"@,
            m.settings.notifications_enabled,
            m.settings.auto_update_enabled,
            m.settings.profile_picture_path@.len() == 0,
            m.settings.email@.len() == 0,
            m.settings.first_run,
            m.settings.trusted_devices@.len() == 0,
    {
        SettingsManager { settings: AppSettings::default(), dirty: false }
    }

    /// A manager over a loaded settings record.
    pub fn with_settings(settings: AppSettings) -> (m: SettingsManager)
        ensures
            m.settings == settings,
            !m.dirty,
    {
        SettingsManager { settings, dirty: false }
    }

    /// The current settings record.
    pub fn get_settings(&self) -> (r: &AppSettings)
        ensures
            r == self.settings,
    {
        &self.settings
    }

    /// Applies an update to the settings record and marks it dirty for the
    /// shell to persist.
    pub fn update_settings<F: FnOnce(AppSettings) -> AppSettings>(&mut self, updater: F)
        requires
            updater.requires((old(self).settings,)),
        ensures
            call_ensures(updater, (old(self).settings,), final(self).settings),
            final(self).dirty,
    {
        let mut tmp = AppSettings::default();
        core::mem::swap(&mut self.settings, &mut tmp);
        let mut updated = updater(tmp);
        core::mem::swap(&mut self.settings, &mut updated);
        self.dirty = true;
    }

    /// Records one more trusted peer and marks the record dirty.
    pub fn add_trusted_device(&mut self, id: String)
        ensures
            final(self).settings.trusted_devices@ == old(self).settings.trusted_devices@.push(id),
            final(self).settings.user_name == old(self).settings.user_name,
            final(self).settings.theme == old(self).settings.theme,
            final(self).settings.download_path == old(self).settings.download_path,
            final(self).settings.encryption_enabled == old(self).settings.encryption_enabled,
            final(self).settings.auto_lock_timeout == old(self).settings.auto_lock_timeout,
            final(self).settings.biometric_auth_enabled == old(
                self,
            ).settings.biometric_auth_enabled,
            final(self).settings.two_factor_enabled == old(self).settings.two_factor_enabled,
            final(self).settings.language == old(self).settings.language,
            final(self).settings.notifications_enabled == old(self).settings.notifications_enabled,
            final(self).settings.auto_update_enabled == old(self).settings.auto_update_enabled,
            final(self).settings.profile_picture_path == old(self).settings.profile_picture_path,
            final(self).settings.email == old(self).settings.email,
            final(self).settings.first_run == old(self).settings.first_run,
            final(self).dirty,
    {
        self.settings.trusted_devices.push(id);
        self.dirty = true;
    }

    /// Tells whether the record changed since it was last persisted.
    pub fn is_dirty(&self) -> (r: bool)
        ensures
            r == self.dirty,
    {
        self.dirty
    }

    /// Marks the record clean after the shell persisted it.
    pub fn mark_saved(&mut self)
        ensures
            *final(self) == (SettingsManager { dirty: false, ..*old(self) }),
    {
        self.dirty = false;
    }
}

} // verus!
