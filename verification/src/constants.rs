//! Application-wide constants: default settings, key codes, paths.

use vstd::prelude::*;

verus! {

/// Default GUI manager window width in pixels.
pub const MANAGER_WINDOW_WIDTH: u16 = 1020;
/// Default GUI manager window height in pixels.
pub const MANAGER_WINDOW_HEIGHT: u16 = 770;

/// Default thumbnail width in pixels.
pub const THUMBNAIL_WIDTH: u16 = 250;
/// Default thumbnail height in pixels.
pub const THUMBNAIL_HEIGHT: u16 = 140;
/// Default thumbnail opacity percentage.
pub const THUMBNAIL_OPACITY_PERCENT: u8 = 75;

/// Whether the active border is enabled by default.
pub const BORDER_ENABLED: bool = true;
/// Default border thickness in pixels.
pub const BORDER_SIZE: u16 = 3;
/// Default active border colour.
pub const BORDER_ACTIVE_COLOR: &'static str = "#40FF00";
/// Default inactive border colour.
pub const BORDER_INACTIVE_COLOR: &'static str = "#00000000";

/// Default text size in pixels.
pub const TEXT_SIZE: u16 = 22;
/// Default text X offset from the left edge.
pub const TEXT_OFFSET_X: i16 = 10;
/// Default text Y offset from the top edge.
pub const TEXT_OFFSET_Y: i16 = 10;
/// Default text colour.
pub const TEXT_COLOR: &'static str = "#40FF00";

/// Default profile name.
pub const PROFILE_NAME: &'static str = "default";
/// Default profile description.
pub const PROFILE_DESCRIPTION: &'static str = "Default profile";
/// Edge snapping threshold in pixels.
pub const SNAP_THRESHOLD: u16 = 15;
/// Keep a thumbnail's position when its client swaps character.
pub const PRESERVE_POSITION_ON_SWAP: bool = true;
/// Minimize other clients when switching with a hotkey.
pub const MINIMIZE_CLIENTS_ON_SWITCH: bool = false;
/// Hotkeys act only while an EVE window has focus.
pub const HOTKEY_REQUIRE_EVE_FOCUS: bool = true;
/// Hide thumbnails when no EVE window has focus.
pub const HIDE_WHEN_NO_FOCUS: bool = false;

/// Offset from the source window when spawning a thumbnail.
pub const DEFAULT_SPAWN_OFFSET: i16 = 20;

/// Key code of Tab (identifies keyboards).
pub const KEY_TAB: u16 = 15;
/// Key code of Left Shift.
pub const KEY_LEFTSHIFT: u16 = 42;
/// Key code of Right Shift.
pub const KEY_RIGHTSHIFT: u16 = 54;
/// Key code of Left Ctrl.
pub const KEY_LEFTCTRL: u16 = 29;
/// Key code of Right Ctrl.
pub const KEY_RIGHTCTRL: u16 = 97;
/// Key code of Left Alt.
pub const KEY_LEFTALT: u16 = 56;
/// Key code of Right Alt.
pub const KEY_RIGHTALT: u16 = 100;
/// Key code of Left Super.
pub const KEY_LEFTMETA: u16 = 125;
/// Key code of Right Super.
pub const KEY_RIGHTMETA: u16 = 126;
/// Left mouse button code (identifies mice).
pub const BTN_LEFT: u16 = 272;
/// Button code of the right mouse button.
pub const BTN_RIGHT: u16 = 273;
/// Key code of Escape.
pub const KEY_ESC: u16 = 1;
/// Event type of key and button events.
pub const EV_KEY: u16 = 1;
/// Event value of a key release.
pub const KEY_RELEASE: i32 = 0;
/// Event value of a key press.
pub const KEY_PRESS: i32 = 1;

/// Linux group that grants access to input devices.
pub const INPUT_GROUP: &'static str = "input";
/// Command that adds the user to the input group.
pub const ADD_TO_INPUT_GROUP: &'static str = "sudo usermod -a -G input $USER";

/// Application directory under the XDG config directory.
pub const APP_DIR: &'static str = "eve-preview-manager";
/// Configuration file name.
pub const CONFIG_FILENAME: &'static str = "config.json";
/// Sub-directory of the config directory that holds backups.
pub const BACKUP_SUBDIR: &'static str = "backups";

} // verus!
