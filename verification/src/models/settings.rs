//! Application settings as they are stored and as the application reads
//! them.

use vstd::prelude::*;

verus! {

/// How the text of a stored setting is to be read.
#[derive(Debug, Clone, Copy, PartialEq, Eq, Structural)]
pub enum SettingType {
    String,
    Number,
    Boolean,
    Json,
}

/// One stored setting.
#[derive(Debug, PartialEq, Eq)]
pub struct Setting {
    pub key: String,
    pub value: String,
    pub setting_type: SettingType,
    /// Milliseconds since the Unix epoch, UTC.
    pub updated_at: i64,
}

impl Clone for Setting {
    fn clone(&self) -> (copy: Self)
        ensures
            copy == *self,
    {
        Setting {
            key: self.key.clone(),
            value: self.value.clone(),
            setting_type: self.setting_type,
            updated_at: self.updated_at,
        }
    }
}

/// What a caller gives to change a setting.
#[derive(Debug)]
pub struct UpdateSettingRequest {
    pub value: String,
    pub setting_type: Option<SettingType>,
}

/// The settings of the application.
#[derive(Debug, PartialEq, Eq)]
pub struct AppSettings {
    pub theme: String,
    pub stay_on_top: bool,
    pub notification_enabled: bool,
    pub default_service: String,
    pub research_queue_enabled: bool,
    pub auto_save_enabled: bool,
    pub compact_mode: bool,
}

impl Clone for AppSettings {
    fn clone(&self) -> (copy: Self)
        ensures
            copy == *self,
    {
        AppSettings {
            theme: self.theme.clone(),
            stay_on_top: self.stay_on_top,
            notification_enabled: self.notification_enabled,
            default_service: self.default_service.clone(),
            research_queue_enabled: self.research_queue_enabled,
            auto_save_enabled: self.auto_save_enabled,
            compact_mode: self.compact_mode,
        }
    }
}

impl Default for AppSettings {
    /// The settings of a fresh installation: the theme follows the system,
    /// the window is not pinned, notifications, the research queue and
    /// saving by itself are on, the layout is not compact, and research
    /// goes to "chatgpt".
    fn default() -> (settings: Self)
        ensures
            settings.theme@ == "system"@,
            !settings.stay_on_top,
            settings.notification_enabled,
            settings.default_service@ == "chatgpt"@,
            settings.research_queue_enabled,
            settings.auto_save_enabled,
            !settings.compact_mode,
    {
        AppSettings {
            theme: "system".to_owned(),
            stay_on_top: false,
            notification_enabled: true,
            default_service: "chatgpt".to_owned(),
            research_queue_enabled: true,
            auto_save_enabled: true,
            compact_mode: false,
        }
    }
}

} // verus!
