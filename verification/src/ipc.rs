//! Messages between the manager and the preview daemon.

use vstd::prelude::*;
use crate::runtime::DaemonConfig;

verus! {

/// Messages from the manager to the daemon.
#[derive(Debug)]
pub enum ConfigMessage {
    /// The whole runtime configuration (start-up, profile switch, settings
    /// changes).
    Full(Box<DaemonConfig>),
    /// One thumbnail moved or resized while being dragged.
    ThumbnailMove {
        name: String,
        is_custom: bool,
        x: i16,
        y: i16,
        width: u16,
        height: u16,
    },
}

/// Messages from the daemon to the manager.
#[derive(Debug, Clone, PartialEq)]
pub enum DaemonMessage {
    /// A log line.
    Log { level: String, message: String },
    /// A client window (or custom source) was found.
    CharacterDetected { name: String, is_custom: bool },
    /// A thumbnail was placed or moved.
    PositionChanged { name: String, x: i16, y: i16, width: u16, height: u16, is_custom: bool },
    /// Something failed in the daemon.
    Error(String),
    /// A status line for the manager.
    Status(String),
    /// A profile-switch hotkey asks for this profile.
    RequestProfileSwitch(String),
    /// The daemon is alive.
    Heartbeat,
}

} // verus!
