//! Geometry and per-window domain types: positions, dimensions, window
//! classification, thumbnail state and per-character settings.

use vstd::prelude::*;
use crate::text::copy_opt_string;
use crate::name_map::Duplicate;

verus! {

/// A screen position in pixels.
#[derive(Debug, Clone, Copy, PartialEq, Eq, Structural)]
pub struct Position {
    pub x: i16,
    pub y: i16,
}

impl Position {
    pub fn new(x: i16, y: i16) -> (p: Position)
        ensures
            p.x == x,
            p.y == y,
    {
        Position { x, y }
    }
}

/// Width and height in pixels (0 means "auto-detect").
#[derive(Debug, Clone, Copy, PartialEq, Eq, Structural)]
pub struct Dimensions {
    pub width: u16,
    pub height: u16,
}

impl Dimensions {
    pub fn new(width: u16, height: u16) -> (d: Dimensions)
        ensures
            d.width == width,
            d.height == height,
    {
        Dimensions { width, height }
    }
}

/// Offset of the name label from the thumbnail's border edge.
#[derive(Debug, Clone, Copy, PartialEq, Eq, Structural)]
pub struct TextOffset {
    pub x: i16,
    pub y: i16,
}

impl TextOffset {
    pub fn from_border_edge(x: i16, y: i16) -> (t: TextOffset)
        ensures
            t.x == x,
            t.y == y,
    {
        TextOffset { x, y }
    }
}

/// EVE Online window classification.
#[derive(Debug, Clone, PartialEq, Eq)]
pub enum EveWindowType {
    /// Logged-in client with its character name.
    LoggedIn(String),
    /// Logged-out client (character select screen).
    LoggedOut,
}

impl EveWindowType {
    /// The character name, or the empty string when logged out.
    pub fn character_name(&self) -> (r: &str)
        ensures
            r@ == (match self {
                EveWindowType::LoggedIn(name) => name@,
                EveWindowType::LoggedOut => Seq::<char>::empty(),
            }),
    {
        match self {
            EveWindowType::LoggedIn(name) => name.as_str(),
            EveWindowType::LoggedOut => {
                let e = "";
                proof { reveal_strlit(""); }
                e
            },
        }
    }
}

/// Thumbnail lifecycle state; focused and minimized cannot hold together.
#[derive(Debug, Clone, Copy, PartialEq, Eq, Structural)]
pub enum ThumbnailState {
    /// Visible, with or without input focus.
    Normal { focused: bool },
    /// Minimized by the window manager.
    Minimized,
}

impl ThumbnailState {
    /// Whether the thumbnail has input focus.
    pub fn is_focused(&self) -> (b: bool)
        ensures
            b == (*self == ThumbnailState::Normal { focused: true }),
    {
        match self {
            ThumbnailState::Normal { focused } => *focused,
            ThumbnailState::Minimized => false,
        }
    }

    /// Whether the window is minimized.
    pub fn is_minimized(&self) -> (b: bool)
        ensures
            b == (*self is Minimized),
    {
        match self {
            ThumbnailState::Normal { .. } => false,
            ThumbnailState::Minimized => true,
        }
    }
}

impl ThumbnailState {
    /// The state after the input focus moved (to this thumbnail's client
    /// when `to_this` holds), and whether the border must be redrawn: the
    /// client gaining focus shows focused (also when it was minimized), a
    /// focused thumbnail losing it shows unfocused, others stay.
    pub fn after_focus_change(&self, to_this: bool) -> (r: (ThumbnailState, bool))
        ensures
            to_this && !(*self == ThumbnailState::Normal { focused: true })
                ==> r == (ThumbnailState::Normal { focused: true }, true),
            to_this && *self == (ThumbnailState::Normal { focused: true }) ==> r == (*self, false),
            !to_this && *self == (ThumbnailState::Normal { focused: true })
                ==> r == (ThumbnailState::Normal { focused: false }, true),
            !to_this && !(*self == ThumbnailState::Normal { focused: true }) ==> r == (*self, false),
    {
        let focused = self.is_focused();
        if to_this {
            if !focused {
                (ThumbnailState::Normal { focused: true }, true)
            } else {
                (*self, false)
            }
        } else if focused {
            (ThumbnailState::Normal { focused: false }, true)
        } else {
            (*self, false)
        }
    }
}

impl Default for ThumbnailState {
    /// New thumbnails start visible and unfocused.
    fn default() -> (s: ThumbnailState)
        ensures
            s == (ThumbnailState::Normal { focused: false }),
    {
        ThumbnailState::Normal { focused: false }
    }
}

/// How the thumbnail is rendered.
#[derive(Debug, Clone, PartialEq, Eq)]
pub enum PreviewMode {
    /// Live preview of the source window (the default).
    Live,
    /// A static solid colour fill.
    Static { color: String },
}

impl PreviewMode {
    pub fn copy(&self) -> (r: PreviewMode)
        ensures
            r == *self,
    {
        match self {
            PreviewMode::Live => PreviewMode::Live,
            PreviewMode::Static { color } => PreviewMode::Static { color: color.clone() },
        }
    }
}

impl Default for PreviewMode {
    fn default() -> (m: PreviewMode)
        ensures
            m == PreviewMode::Live,
    {
        PreviewMode::Live
    }
}

/// Per-character settings: position, thumbnail size and visual overrides.
#[derive(Debug, Clone, PartialEq, Eq)]
pub struct CharacterSettings {
    pub x: i16,
    pub y: i16,
    /// Thumbnail dimensions (0 = auto-detect).
    pub dimensions: Dimensions,
    pub alias: Option<String>,
    pub notes: Option<String>,
    pub override_active_border_color: Option<String>,
    pub override_inactive_border_color: Option<String>,
    pub override_active_border_size: Option<u16>,
    pub override_inactive_border_size: Option<u16>,
    pub override_text_color: Option<String>,
    pub preview_mode: PreviewMode,
}

/// Settings at a position and size with no overrides and a live preview.
pub open spec fn plain_settings(x: i16, y: i16, width: u16, height: u16) -> CharacterSettings {
    CharacterSettings {
        x,
        y,
        dimensions: Dimensions { width, height },
        alias: None,
        notes: None,
        override_active_border_color: None,
        override_inactive_border_color: None,
        override_active_border_size: None,
        override_inactive_border_size: None,
        override_text_color: None,
        preview_mode: PreviewMode::Live,
    }
}

impl View for CharacterSettings {
    type V = CharacterSettings;

    open spec fn view(&self) -> CharacterSettings {
        *self
    }
}

impl Duplicate for CharacterSettings {
    fn duplicate(&self) -> (r: CharacterSettings) {
        self.copy()
    }
}

impl CharacterSettings {
    pub fn new(x: i16, y: i16, width: u16, height: u16) -> (s: CharacterSettings)
        ensures
            s == plain_settings(x, y, width, height),
    {
        CharacterSettings {
            x,
            y,
            dimensions: Dimensions::new(width, height),
            alias: None,
            notes: None,
            override_active_border_color: None,
            override_inactive_border_color: None,
            override_active_border_size: None,
            override_inactive_border_size: None,
            override_text_color: None,
            preview_mode: PreviewMode::default(),
        }
    }

    /// The thumbnail's position.
    pub fn position(&self) -> (p: Position)
        ensures
            p.x == self.x,
            p.y == self.y,
    {
        Position::new(self.x, self.y)
    }

    /// An equal copy.
    pub fn copy(&self) -> (r: CharacterSettings)
        ensures
            r == *self,
    {
        CharacterSettings {
            x: self.x,
            y: self.y,
            dimensions: self.dimensions,
            alias: copy_opt_string(&self.alias),
            notes: copy_opt_string(&self.notes),
            override_active_border_color: copy_opt_string(&self.override_active_border_color),
            override_inactive_border_color: copy_opt_string(&self.override_inactive_border_color),
            override_active_border_size: self.override_active_border_size,
            override_inactive_border_size: self.override_inactive_border_size,
            override_text_color: copy_opt_string(&self.override_text_color),
            preview_mode: self.preview_mode.copy(),
        }
    }
}

} // verus!
