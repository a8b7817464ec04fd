//! The scheduler settings that the server derives from its configuration.

use vstd::prelude::*;

verus! {

/// The `[notification]` section of the configuration.
#[derive(Clone, Debug)]
pub struct NotificationConfig {
    pub callback_url: String,
    pub persistence_path: Option<String>,
    pub delete_only_on_success: bool,
    pub retry_count: u32,
    pub retry_interval: u64,
}

/// Where the scheduled notifications are kept: a path as configured, and whether it
/// stands alone or is taken relative to the user's home directory.
#[derive(Clone, Debug)]
pub enum PersistenceLocation {
    Absolute(String),
    UnderHome(String),
}

/// The scheduler settings.
#[derive(Clone, Debug)]
pub struct NotificationSettings {
    pub callback_url: Option<String>,
    pub location: PersistenceLocation,
    pub delete_only_on_success: bool,
    pub retry_count: u32,
    pub retry_interval: u64,
}

/// Whether a path is absolute on Unix: it starts at the root.
pub open spec fn is_absolute(p: Seq<char>) -> bool {
    p.len() > 0 && p[0] == '/'
}

/// Tells whether a path is absolute on Unix (std's `Path::is_absolute` there).
pub fn path_is_absolute(p: &str) -> (r: bool)
    ensures
        r == is_absolute(p@),
{
    let v = crate::text::chars_of(p);
    v.len() > 0 && v[0] == '/'
}

/// The path used when none is configured.
pub open spec fn default_persistence_path() -> Seq<char> {
    ".config/app_builder/scheduled_notifications.json"@
}

/// Derives the scheduler settings: without a notification section there is no callback,
/// the default path, deletion regardless of success, 3 attempts and 60 seconds between
/// them; a section gives its callback, its settings and its path when it names one.
pub fn notification_settings(cfg: &Option<NotificationConfig>) -> (s: NotificationSettings)
    ensures
        match cfg {
            Some(c) => {
                &&& s.callback_url matches Some(u) && u@ == c.callback_url@
                &&& s.delete_only_on_success == c.delete_only_on_success
                &&& s.retry_count == c.retry_count
                &&& s.retry_interval == c.retry_interval
            },
            None => {
                &&& s.callback_url is None
                &&& !s.delete_only_on_success
                &&& s.retry_count == 3
                &&& s.retry_interval == 60
            },
        },
        ({
            let raw = match cfg {
                Some(c) => match c.persistence_path {
                    Some(p) => p@,
                    None => default_persistence_path(),
                },
                None => default_persistence_path(),
            };
            match s.location {
                PersistenceLocation::Absolute(p) => p@ == raw && is_absolute(raw),
                PersistenceLocation::UnderHome(p) => p@ == raw && !is_absolute(raw),
            }
        }),
{
    let raw = match cfg {
        Some(c) => match &c.persistence_path {
            Some(p) => p.clone(),
            None => ".config/app_builder/scheduled_notifications.json".to_string(),
        },
        None => ".config/app_builder/scheduled_notifications.json".to_string(),
    };
    let location = if path_is_absolute(raw.as_str()) {
        PersistenceLocation::Absolute(raw)
    } else {
        PersistenceLocation::UnderHome(raw)
    };
    match cfg {
        Some(c) => NotificationSettings {
            callback_url: Some(c.callback_url.clone()),
            location,
            delete_only_on_success: c.delete_only_on_success,
            retry_count: c.retry_count,
            retry_interval: c.retry_interval,
        },
        None => NotificationSettings {
            callback_url: None,
            location,
            delete_only_on_success: false,
            retry_count: 3,
            retry_interval: 60,
        },
    }
}

} // verus!
