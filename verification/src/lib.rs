//! Verified core of the EVE preview manager: colours, geometry, snapping,
//! hotkey bindings, profile configuration, cycle state and the decisions
//! taken by the daemon and the manager.

pub mod text;
pub mod color;
pub mod domain;
pub mod name_map;
pub mod snapping;
pub mod hotkey;
pub mod constants;
pub mod profile;
pub mod runtime;
pub mod cycle_state;
pub mod key_capture;
pub mod input;
pub mod manager_ui;
pub mod manager_state;
pub mod backup;
pub mod font;
pub mod ipc;
pub mod drag;
pub mod sources;
pub mod characters_panel;
pub mod profile_dialogs;
pub mod daemon_monitor;
pub mod text_render;
pub mod icon;
