//! The shared configuration: numeric limits, per-type save toggles, paths,
//! hotkey bindings and interface preferences, with the documented defaults.
//! Path fields are stored relative to the platform configuration directory,
//! which the surrounding application resolves.

use vstd::prelude::*;
use vstd::string::*;

verus! {

#[derive(Debug, PartialEq)]
pub struct HotkeyConfig {
    pub show_window: String,
    pub pin_item: String,
    pub search: String,
    pub next_item: String,
    pub prev_item: String,
}

pub ghost struct HotkeyModel {
    pub show_window: Seq<char>,
    pub pin_item: Seq<char>,
    pub search: Seq<char>,
    pub next_item: Seq<char>,
    pub prev_item: Seq<char>,
}

impl View for HotkeyConfig {
    type V = HotkeyModel;

    open spec fn view(&self) -> HotkeyModel {
        HotkeyModel {
            show_window: self.show_window@,
            pin_item: self.pin_item@,
            search: self.search@,
            next_item: self.next_item@,
            prev_item: self.prev_item@,
        }
    }
}

impl Clone for HotkeyConfig {
    fn clone(&self) -> (r: Self)
        ensures
            r@ == self@,
    {
        HotkeyConfig {
            show_window: self.show_window.clone(),
            pin_item: self.pin_item.clone(),
            search: self.search.clone(),
            next_item: self.next_item.clone(),
            prev_item: self.prev_item.clone(),
        }
    }
}

/// Interface preferences.  Opacity is carried in hundredths (95 stands for
/// an opacity of 0.95) so that the value stays integral.
#[derive(Debug, PartialEq)]
pub struct UiConfig {
    pub theme: String,
    pub opacity_percent: u32,
    pub animation_speed: u32,
    pub show_preview: bool,
    pub show_thumbnails: bool,
    pub thumbnail_size: u32,
    pub font_size: u32,
}

pub ghost struct UiModel {
    pub theme: Seq<char>,
    pub opacity_percent: u32,
    pub animation_speed: u32,
    pub show_preview: bool,
    pub show_thumbnails: bool,
    pub thumbnail_size: u32,
    pub font_size: u32,
}

impl View for UiConfig {
    type V = UiModel;

    open spec fn view(&self) -> UiModel {
        UiModel {
            theme: self.theme@,
            opacity_percent: self.opacity_percent,
            animation_speed: self.animation_speed,
            show_preview: self.show_preview,
            show_thumbnails: self.show_thumbnails,
            thumbnail_size: self.thumbnail_size,
            font_size: self.font_size,
        }
    }
}

impl Clone for UiConfig {
    fn clone(&self) -> (r: Self)
        ensures
            r@ == self@,
    {
        UiConfig {
            theme: self.theme.clone(),
            opacity_percent: self.opacity_percent,
            animation_speed: self.animation_speed,
            show_preview: self.show_preview,
            show_thumbnails: self.show_thumbnails,
            thumbnail_size: self.thumbnail_size,
            font_size: self.font_size,
        }
    }
}

#[derive(Debug, PartialEq)]
pub struct AppSettings {
    pub max_items: u32,
    pub keep_days: u32,
    pub max_image_size_mb: u32,
    pub compress_images: bool,
    pub save_text: bool,
    pub save_images: bool,
    pub save_files: bool,
    pub save_html: bool,
    pub auto_cleanup: bool,
    pub startup_delay_ms: u32,
    pub database_path: String,
    pub cache_path: String,
    pub hotkeys: HotkeyConfig,
    pub ui: UiConfig,
}

pub ghost struct SettingsModel {
    pub max_items: u32,
    pub keep_days: u32,
    pub max_image_size_mb: u32,
    pub compress_images: bool,
    pub save_text: bool,
    pub save_images: bool,
    pub save_files: bool,
    pub save_html: bool,
    pub auto_cleanup: bool,
    pub startup_delay_ms: u32,
    pub database_path: Seq<char>,
    pub cache_path: Seq<char>,
    pub hotkeys: HotkeyModel,
    pub ui: UiModel,
}

impl View for AppSettings {
    type V = SettingsModel;

    open spec fn view(&self) -> SettingsModel {
        SettingsModel {
            max_items: self.max_items,
            keep_days: self.keep_days,
            max_image_size_mb: self.max_image_size_mb,
            compress_images: self.compress_images,
            save_text: self.save_text,
            save_images: self.save_images,
            save_files: self.save_files,
            save_html: self.save_html,
            auto_cleanup: self.auto_cleanup,
            startup_delay_ms: self.startup_delay_ms,
            database_path: self.database_path@,
            cache_path: self.cache_path@,
            hotkeys: self.hotkeys@,
            ui: self.ui@,
        }
    }
}

impl Clone for AppSettings {
    fn clone(&self) -> (r: Self)
        ensures
            r@ == self@,
    {
        AppSettings {
            max_items: self.max_items,
            keep_days: self.keep_days,
            max_image_size_mb: self.max_image_size_mb,
            compress_images: self.compress_images,
            save_text: self.save_text,
            save_images: self.save_images,
            save_files: self.save_files,
            save_html: self.save_html,
            auto_cleanup: self.auto_cleanup,
            startup_delay_ms: self.startup_delay_ms,
            database_path: self.database_path.clone(),
            cache_path: self.cache_path.clone(),
            hotkeys: self.hotkeys.clone(),
            ui: self.ui.clone(),
        }
    }
}

/// The settings a fresh installation starts with: a 1000-entry cap, a
/// 90-day retention window, image compression on, every content type
/// saved.
pub fn default_settings() -> (r: AppSettings)
    ensures
        r@.max_items == 1000,
        r@.keep_days == 90,
        r@.max_image_size_mb == 10,
        r@.compress_images,
        r@.save_text,
        r@.save_images,
        r@.save_files,
        r@.save_html,
        r@.auto_cleanup,
        r@.startup_delay_ms == 1000,
        r@.database_path == "data/clipboard.db"@,
        r@.cache_path == "cache"@,
        r@.hotkeys.show_window == "Ctrl+Shift+V"@,
        r@.hotkeys.pin_item == "Ctrl+Shift+P"@,
        r@.hotkeys.search == "Ctrl+Shift+F"@,
        r@.hotkeys.next_item == "Ctrl+Down"@,
        r@.hotkeys.prev_item == "Ctrl+Up"@,
        r@.ui.theme == "System"@,
        r@.ui.opacity_percent == 95,
        r@.ui.animation_speed == 200,
        r@.ui.show_preview,
        r@.ui.show_thumbnails,
        r@.ui.thumbnail_size == 64,
        r@.ui.font_size == 14,
{
    AppSettings {
        max_items: 1000,
        keep_days: 90,
        max_image_size_mb: 10,
        compress_images: true,
        save_text: true,
        save_images: true,
        save_files: true,
        save_html: true,
        auto_cleanup: true,
        startup_delay_ms: 1000,
        database_path: String::from_str("data/clipboard.db"),
        cache_path: String::from_str("cache"),
        hotkeys: HotkeyConfig {
            show_window: String::from_str("Ctrl+Shift+V"),
            pin_item: String::from_str("Ctrl+Shift+P"),
            search: String::from_str("Ctrl+Shift+F"),
            next_item: String::from_str("Ctrl+Down"),
            prev_item: String::from_str("Ctrl+Up"),
        },
        ui: UiConfig {
            theme: String::from_str("System"),
            opacity_percent: 95,
            animation_speed: 200,
            show_preview: true,
            show_thumbnails: true,
            thumbnail_size: 64,
            font_size: 14,
        },
    }
}

} // verus!
