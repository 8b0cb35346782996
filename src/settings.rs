//! Device settings and system facts, as stored key/value rows and as records.

use vstd::prelude::*;

verus! {

broadcast use vstd::string::group_string_axioms;

/// The user's application settings.
#[derive(Clone, Copy, Debug, PartialEq, Eq, Structural)]
pub struct AppSettings {
    pub launch_on_startup: bool,
    pub desktop_notifications: bool,
    pub auto_sync_enabled: bool,
}

impl Default for AppSettings {
    /// Launch on startup and auto-sync on, notifications off.
    fn default() -> (r: AppSettings)
        ensures
            r == (AppSettings { launch_on_startup: true, desktop_notifications: false, auto_sync_enabled: true }),
    {
        AppSettings { launch_on_startup: true, desktop_notifications: false, auto_sync_enabled: true }
    }
}

/// The stored key of each setting.
pub const LAUNCH_STARTUP_KEY: &'static str = "setting_launch_startup";
pub const NOTIFICATIONS_KEY: &'static str = "setting_notifications";
pub const AUTO_SYNC_KEY: &'static str = "setting_auto_sync";

/// The settings after reading one stored row: a known key takes the value
/// `true` exactly when the stored text is `true`; other keys change nothing.
pub open spec fn with_setting(s: AppSettings, key: Seq<char>, value: Seq<char>) -> AppSettings {
    let on = value == "true"@;
    if key == LAUNCH_STARTUP_KEY@ {
        AppSettings { launch_on_startup: on, ..s }
    } else if key == NOTIFICATIONS_KEY@ {
        AppSettings { desktop_notifications: on, ..s }
    } else if key == AUTO_SYNC_KEY@ {
        AppSettings { auto_sync_enabled: on, ..s }
    } else {
        s
    }
}

/// The stored text of a flag.
pub open spec fn flag_text(b: bool) -> Seq<char> {
    if b { "true"@ } else { "false"@ }
}

fn flag_string(b: bool) -> (r: String)
    ensures
        r@ == flag_text(b),
{
    if b { String::from_str("true") } else { String::from_str("false") }
}

impl AppSettings {
    /// Reads one stored row into the settings.
    pub fn apply_setting(&mut self, key: &str, value: &str)
        ensures
            *final(self) == with_setting(*old(self), key@, value@),
    {
        let k = String::from_str(key);
        let on = String::from_str(value) == String::from_str("true");
        if k == String::from_str(LAUNCH_STARTUP_KEY) {
            self.launch_on_startup = on;
        } else if k == String::from_str(NOTIFICATIONS_KEY) {
            self.desktop_notifications = on;
        } else if k == String::from_str(AUTO_SYNC_KEY) {
            self.auto_sync_enabled = on;
        }
    }

    /// The rows that store the settings: each key with `true` or `false`.
    pub fn setting_rows(&self) -> (r: Vec<(String, String)>)
        ensures
            r@.map_values(|kv: (String, String)| (kv.0@, kv.1@)) == seq![
                (LAUNCH_STARTUP_KEY@, flag_text(self.launch_on_startup)),
                (NOTIFICATIONS_KEY@, flag_text(self.desktop_notifications)),
                (AUTO_SYNC_KEY@, flag_text(self.auto_sync_enabled)),
            ],
    {
        let mut rows: Vec<(String, String)> = Vec::new();
        rows.push((String::from_str(LAUNCH_STARTUP_KEY), flag_string(self.launch_on_startup)));
        rows.push((String::from_str(NOTIFICATIONS_KEY), flag_string(self.desktop_notifications)));
        rows.push((String::from_str(AUTO_SYNC_KEY), flag_string(self.auto_sync_enabled)));
        assert(rows@.map_values(|kv: (String, String)| (kv.0@, kv.1@)) =~= seq![
            (LAUNCH_STARTUP_KEY@, flag_text(self.launch_on_startup)),
            (NOTIFICATIONS_KEY@, flag_text(self.desktop_notifications)),
            (AUTO_SYNC_KEY@, flag_text(self.auto_sync_enabled)),
        ]);
        rows
    }
}

/// Facts about this machine.
#[derive(Clone, Debug)]
pub struct SystemInfo {
    pub os_name: String,
    pub os_version: String,
    pub hostname: String,
    pub total_memory: u64,
    pub device_id: String,
}

/// The value, or the fallback when there is none.
pub open spec fn or_fallback(v: Option<String>, fallback: Seq<char>) -> Seq<char> {
    match v {
        Some(s) => s@,
        None => fallback,
    }
}

/// The value, or the fallback when there is none.
pub fn value_or(v: Option<String>, fallback: &str) -> (r: String)
    ensures
        r@ == or_fallback(v, fallback@),
{
    match v {
        Some(s) => s,
        None => String::from_str(fallback),
    }
}

impl SystemInfo {
    /// The record of what the system reported: each missing name reads
    /// `Unknown`, and a device id that could not be had reads `unknown`.
    pub fn from_parts(
        os_name: Option<String>,
        os_version: Option<String>,
        hostname: Option<String>,
        total_memory: u64,
        device_id: Option<String>,
    ) -> (r: SystemInfo)
        ensures
            r.os_name@ == or_fallback(os_name, "Unknown"@),
            r.os_version@ == or_fallback(os_version, "Unknown"@),
            r.hostname@ == or_fallback(hostname, "Unknown"@),
            r.total_memory == total_memory,
            r.device_id@ == or_fallback(device_id, "unknown"@),
    {
        SystemInfo {
            os_name: value_or(os_name, "Unknown"),
            os_version: value_or(os_version, "Unknown"),
            hostname: value_or(hostname, "Unknown"),
            total_memory,
            device_id: value_or(device_id, "unknown"),
        }
    }
}

/// Relies on `sysinfo::System::host_name`: the machine's host name, if the
/// system gives one. Nothing is known of its value.
#[verifier::external_body]
fn host_name() -> (r: Option<String>) {
    sysinfo::System::host_name()
}

/// The name this device registers under when a sync creates it: the host
/// name the system gives, or `Unknown PC` when it gives none.
pub fn sync_device_name() -> (r: String) {
    value_or(host_name(), "Unknown PC")
}

/// The device's display name: the stored name, else the host name, else
/// `Unknown-PC`.
pub fn device_display_name(stored: Option<String>, host: Option<String>) -> (r: String)
    ensures
        r@ == (match stored { Some(s) => s@, None => or_fallback(host, "Unknown-PC"@) }),
{
    match stored {
        Some(s) => s,
        None => value_or(host, "Unknown-PC"),
    }
}

} // verus!
