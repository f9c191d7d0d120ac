//! User preferences.

use vstd::prelude::*;
use crate::model::{clone_opt_text, opt_text};

verus! {

/// The preferences of the application.
#[derive(Debug, PartialEq, Eq)]
pub struct AppConfig {
    pub theme: String,
    pub language: String,
    pub auto_start: bool,
    pub log_level: String,
    pub default_key_path: Option<String>,
    pub window_width: u32,
    pub window_height: u32,
}

/// What an [`AppConfig`] holds, as mathematical values.
pub struct AppConfigView {
    pub theme: Seq<char>,
    pub language: Seq<char>,
    pub auto_start: bool,
    pub log_level: Seq<char>,
    pub default_key_path: Option<Seq<char>>,
    pub window_width: u32,
    pub window_height: u32,
}

impl View for AppConfig {
    type V = AppConfigView;

    open spec fn view(&self) -> AppConfigView {
        AppConfigView {
            theme: self.theme@,
            language: self.language@,
            auto_start: self.auto_start,
            log_level: self.log_level@,
            default_key_path: opt_text(self.default_key_path),
            window_width: self.window_width,
            window_height: self.window_height,
        }
    }
}

/// The preferences of a fresh installation.
pub open spec fn default_settings() -> AppConfigView {
    AppConfigView {
        theme: "system"@,
        language: "en"@,
        auto_start: false,
        log_level: "info"@,
        default_key_path: None,
        window_width: 1200,
        window_height: 800,
    }
}

impl Default for AppConfig {
    fn default() -> (config: AppConfig)
        ensures
            config@ == default_settings(),
    {
        AppConfig {
            theme: "system".to_owned(),
            language: "en".to_owned(),
            auto_start: false,
            log_level: "info".to_owned(),
            default_key_path: None,
            window_width: 1200,
            window_height: 800,
        }
    }
}

impl Clone for AppConfig {
    fn clone(&self) -> (r: Self)
        ensures
            r == *self,
    {
        AppConfig {
            theme: self.theme.clone(),
            language: self.language.clone(),
            auto_start: self.auto_start,
            log_level: self.log_level.clone(),
            default_key_path: clone_opt_text(&self.default_key_path),
            window_width: self.window_width,
            window_height: self.window_height,
        }
    }
}

} // verus!
