//! Application settings.
use vstd::prelude::*;
use crate::text::{chars_of, string_from_chars};

verus! {

/// Title, stylesheet text and target frame rate.
#[derive(Clone, Debug, PartialEq)]
pub struct AppConfig {
    pub title: Option<String>,
    pub css: Option<String>,
    pub fps: u32,
}

impl AppConfig {
    /// No title, no stylesheet, 60 frames per second.
    pub fn new() -> (r: AppConfig)
        ensures
            r.title is None,
            r.css is None,
            r.fps == 60,
    {
        AppConfig { title: None, css: None, fps: 60 }
    }

    pub fn with_title(self, title: &str) -> (r: AppConfig)
        ensures
            r.title is Some && r.title->Some_0@ == title@,
            r.css == self.css,
            r.fps == self.fps,
    {
        AppConfig { title: Some(string_from_chars(chars_of(title))), css: self.css, fps: self.fps }
    }

    pub fn with_css(self, css: &str) -> (r: AppConfig)
        ensures
            r.css is Some && r.css->Some_0@ == css@,
            r.title == self.title,
            r.fps == self.fps,
    {
        AppConfig { title: self.title, css: Some(string_from_chars(chars_of(css))), fps: self.fps }
    }

    pub fn with_fps(self, fps: u32) -> (r: AppConfig)
        ensures
            r.fps == fps,
            r.title == self.title,
            r.css == self.css,
    {
        AppConfig { title: self.title, css: self.css, fps }
    }
}

impl Default for AppConfig {
    fn default() -> (r: AppConfig)
        ensures
            r.title is None,
            r.css is None,
            r.fps == 60,
    {
        AppConfig::new()
    }
}

} // verus!
