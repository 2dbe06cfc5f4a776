//! The manager's watch over the preview daemon: what it does when the
//! daemon connects, sends a message, stays silent or exits. The waiting,
//! the clock and the process handling are the caller's; here each event
//! gives the next state and what the caller must do.

use vstd::prelude::*;
use crate::domain::{CharacterSettings, Dimensions, plain_settings};
use crate::ipc::DaemonMessage;
use crate::manager_ui::DaemonStatus;
use crate::name_map::NameMap;
use crate::profile::{Config, Profile, ProfileModel, find_profile, first_named, profile_views};
use crate::runtime::with_geometry;
use crate::text::owned;

verus! {

/// How long after the last save a moved thumbnail is saved again (ms).
pub const AUTO_SAVE_DELAY_MS: u64 = 1000;
/// Silence after which heartbeats count as missed (ms).
pub const HEARTBEAT_GRACE_MS: u64 = 5000;
/// Silence after which the daemon is taken as hung and restarted (ms).
pub const HEARTBEAT_TIMEOUT_MS: u64 = 15000;
/// Least time between two checks of the daemon process (ms).
pub const DAEMON_CHECK_INTERVAL_MS: u64 = 500;

/// What the manager knows of its daemon.
#[derive(Debug, Clone, PartialEq, Eq)]
pub struct DaemonMonitor {
    pub status: DaemonStatus,
    /// A daemon process is held.
    pub running: bool,
    /// The daemon was started and has not connected yet.
    pub awaiting_connection: bool,
    pub ipc_healthy: bool,
    /// Clock readings (ms) of the last heartbeat, save and process check.
    pub last_heartbeat_ms: u64,
    pub last_save_attempt_ms: u64,
    pub last_health_check_ms: u64,
    pub missed_heartbeats: u32,
    /// Moved thumbnails not yet saved.
    pub settings_changed: bool,
    /// The last status line the daemon sent.
    pub status_message: Option<String>,
}

/// What the caller does after a message.
#[derive(Debug, Clone, PartialEq, Eq)]
pub enum MonitorAction {
    /// Nothing.
    Nothing,
    /// Save the configuration to disk and confirm the thumbnail's place to
    /// the daemon.
    SaveAndConfirmMove { name: String, is_custom: bool, x: i16, y: i16, width: u16, height: u16 },
    /// Switch to the profile at this index.
    SwitchProfile(usize),
}

/// What the caller does on a clock tick.
#[derive(Debug, Clone, Copy, PartialEq, Eq, Structural)]
pub enum TickAction {
    /// The daemon stopped answering: restart it.
    Restart,
    /// Too soon to look at the process again.
    Wait,
    /// Ask the process whether it exited.
    CheckProcess,
}

/// The stored settings after the daemon placed `name` at `(x, y)` with the
/// given size: its entry moves and takes the size, or is created.
pub open spec fn placed(m: Map<Seq<char>, CharacterSettings>, name: Seq<char>, x: i16, y: i16, width: u16, height: u16) -> Map<Seq<char>, CharacterSettings> {
    m.insert(name, if m.contains_key(name) { with_geometry(m[name], x, y, width, height) } else { plain_settings(x, y, width, height) })
}

/// Whether placing `name` there changes what is stored.
pub open spec fn placement_changes(m: Map<Seq<char>, CharacterSettings>, name: Seq<char>, x: i16, y: i16, width: u16, height: u16) -> bool {
    !m.contains_key(name) || m[name].x != x || m[name].y != y || m[name].dimensions != (Dimensions { width, height })
}

fn place_in(m: &mut NameMap<CharacterSettings>, name: &str, x: i16, y: i16, width: u16, height: u16) -> (changed: bool)
    ensures
        final(m)@ == placed(old(m)@, name@, x, y, width, height),
        changed == placement_changes(old(m)@, name@, x, y, width, height),
{
    let (settings, changed) = match m.get(name) {
        Some(s) => {
            let changed = s.x != x || s.y != y || s.dimensions.width != width || s.dimensions.height != height;
            let mut s = s.copy();
            s.x = x;
            s.y = y;
            s.dimensions = Dimensions::new(width, height);
            (s, changed)
        },
        None => (CharacterSettings::new(x, y, width, height), true),
    };
    m.insert(owned(name), settings);
    changed
}

impl Profile {
    /// Record where the daemon placed a thumbnail (a custom source's, or a
    /// character's). Returns whether that changed the profile.
    pub fn update_thumbnail_position(&mut self, name: &str, x: i16, y: i16, width: u16, height: u16, is_custom: bool) -> (changed: bool)
        ensures
            is_custom ==> final(self)@ == (ProfileModel {
                custom_source_thumbnails: placed(old(self)@.custom_source_thumbnails, name@, x, y, width, height),
                ..old(self)@
            }) && changed == placement_changes(old(self)@.custom_source_thumbnails, name@, x, y, width, height),
            !is_custom ==> final(self)@ == (ProfileModel {
                character_thumbnails: placed(old(self)@.character_thumbnails, name@, x, y, width, height),
                ..old(self)@
            }) && changed == placement_changes(old(self)@.character_thumbnails, name@, x, y, width, height),
    {
        let ghost p0 = self@;
        if is_custom {
            let c = place_in(&mut self.custom_source_thumbnails, name, x, y, width, height);
            assert(self@ =~= ProfileModel { custom_source_thumbnails: self@.custom_source_thumbnails, ..p0 });
            c
        } else {
            let c = place_in(&mut self.character_thumbnails, name, x, y, width, height);
            assert(self@ =~= ProfileModel { character_thumbnails: self@.character_thumbnails, ..p0 });
            c
        }
    }
}

/// The monitor with its fields as in `m` but for those named.
pub open spec fn heartbeat_state(m: DaemonMonitor, now: u64) -> DaemonMonitor {
    DaemonMonitor { ipc_healthy: true, last_heartbeat_ms: now, missed_heartbeats: 0, ..m }
}

/// Milliseconds from `then` to `now`, 0 if the clock reads earlier.
pub open spec fn elapsed(then: u64, now: u64) -> int {
    if now >= then { now - then } else { 0 }
}

/// The outcome of a placement message (see `DaemonMonitor::on_message`).
pub open spec fn placement_outcome(
    m0: DaemonMonitor,
    c0: Config,
    m1: DaemonMonitor,
    c1: Config,
    action: MonitorAction,
    name: String,
    x: i16,
    y: i16,
    width: u16,
    height: u16,
    is_custom: bool,
    now: u64,
) -> bool {
    match first_named(c0.profiles@, c0.global.selected_profile@) {
        Some(i) => {
            let p = c0.profiles@[i]@;
            let m = if is_custom { p.custom_source_thumbnails } else { p.character_thumbnails };
            let changed = placement_changes(m, name@, x, y, width, height);
            let q = if is_custom {
                ProfileModel { custom_source_thumbnails: placed(m, name@, x, y, width, height), ..p }
            } else {
                ProfileModel { character_thumbnails: placed(m, name@, x, y, width, height), ..p }
            };
            let auto = q.thumbnail_auto_save_position;
            let due = elapsed(m0.last_save_attempt_ms, now) > AUTO_SAVE_DELAY_MS;
            &&& profile_views(c1.profiles@) == profile_views(c0.profiles@).update(i, q)
            &&& if changed && auto && due {
                &&& action == (MonitorAction::SaveAndConfirmMove { name, is_custom, x, y, width, height })
                &&& m1 == (DaemonMonitor { last_save_attempt_ms: now, ..m0 })
            } else if changed && auto {
                action == MonitorAction::Nothing && m1 == (DaemonMonitor { settings_changed: true, ..m0 })
            } else {
                action == MonitorAction::Nothing && m1 == m0
            }
        },
        None => action == MonitorAction::Nothing && m1 == m0 && c1.profiles@ == c0.profiles@,
    }
}

impl DaemonMonitor {
    /// No daemon started yet.
    pub fn new(now: u64) -> (m: DaemonMonitor)
        ensures
            m == (DaemonMonitor {
                status: DaemonStatus::Stopped,
                running: false,
                awaiting_connection: false,
                ipc_healthy: false,
                last_heartbeat_ms: now,
                last_save_attempt_ms: now,
                last_health_check_ms: now,
                missed_heartbeats: 0,
                settings_changed: false,
                status_message: None,
            }),
    {
        DaemonMonitor {
            status: DaemonStatus::Stopped,
            running: false,
            awaiting_connection: false,
            ipc_healthy: false,
            last_heartbeat_ms: now,
            last_save_attempt_ms: now,
            last_health_check_ms: now,
            missed_heartbeats: 0,
            settings_changed: false,
            status_message: None,
        }
    }

    /// A daemon process was started: it is starting and awaited.
    pub fn started(&mut self)
        ensures
            *final(self) == (DaemonMonitor { status: DaemonStatus::Starting, running: true, awaiting_connection: true, ..*old(self) }),
    {
        self.status = DaemonStatus::Starting;
        self.running = true;
        self.awaiting_connection = true;
    }

    /// The daemon connected: it runs, is healthy, and must be sent the
    /// configuration.
    pub fn connected(&mut self, now: u64)
        ensures
            *final(self) == (DaemonMonitor {
                status: DaemonStatus::Running,
                awaiting_connection: false,
                ..heartbeat_state(*old(self), now)
            }),
    {
        self.awaiting_connection = false;
        self.status = DaemonStatus::Running;
        self.ipc_healthy = true;
        self.last_heartbeat_ms = now;
        self.missed_heartbeats = 0;
    }

    /// The daemon process exited (`success` as its exit status says, with
    /// its exit code if any); the connection is gone.
    pub fn exited(&mut self, success: bool, code: Option<i32>)
        ensures
            *final(self) == (DaemonMonitor {
                status: if success { DaemonStatus::Stopped } else { DaemonStatus::Crashed(code) },
                running: false,
                awaiting_connection: false,
                ..*old(self)
            }),
    {
        self.status = DaemonStatus::from_exit(success, code);
        self.running = false;
        self.awaiting_connection = false;
    }

    /// Waiting for the killed daemon failed: its state is unknown.
    pub fn lost(&mut self)
        ensures
            *final(self) == (DaemonMonitor {
                status: DaemonStatus::Crashed(None),
                running: false,
                awaiting_connection: false,
                ..*old(self)
            }),
    {
        self.status = DaemonStatus::Crashed(None);
        self.running = false;
        self.awaiting_connection = false;
    }

    fn on_placement(
        &mut self,
        config: &mut Config,
        name: String,
        x: i16,
        y: i16,
        width: u16,
        height: u16,
        is_custom: bool,
        now: u64,
    ) -> (action: MonitorAction)
        ensures
            final(config).global == old(config).global,
            placement_outcome(*old(self), *old(config), *final(self), *final(config), action, name, x, y, width, height, is_custom, now),
    {
        match find_profile(&config.profiles, config.global.selected_profile.as_str()) {
            Some(i) => {
                let ghost v0 = config.profiles@;
                let mut p = config.profiles.remove(i);
                let changed = p.update_thumbnail_position(name.as_str(), x, y, width, height, is_custom);
                let auto = p.thumbnail_auto_save_position;
                let ghost q = p@;
                config.profiles.insert(i, p);
                assert(profile_views(config.profiles@) =~= profile_views(v0).update(i as int, q));
                if !changed || !auto {
                    return MonitorAction::Nothing;
                }
                let since = if now >= self.last_save_attempt_ms { now - self.last_save_attempt_ms } else { 0 };
                if since > AUTO_SAVE_DELAY_MS {
                    self.last_save_attempt_ms = now;
                    MonitorAction::SaveAndConfirmMove { name, is_custom, x, y, width, height }
                } else {
                    self.settings_changed = true;
                    MonitorAction::Nothing
                }
            },
            None => MonitorAction::Nothing,
        }
    }

    /// A message from the daemon at clock reading `now`:
    /// - a status line is kept;
    /// - a heartbeat marks the connection healthy;
    /// - a thumbnail placement is recorded in the active profile; when that
    ///   changed it and the profile saves positions automatically, the
    ///   configuration is saved (at most once per `AUTO_SAVE_DELAY_MS`,
    ///   otherwise it is marked unsaved);
    /// - a profile switch request names the profile to switch to, when one
    ///   has that name;
    /// - logs, errors and detections change nothing.
    pub fn on_message(&mut self, msg: DaemonMessage, config: &mut Config, now: u64) -> (action: MonitorAction)
        ensures
            final(config).global == old(config).global,
            match msg {
                DaemonMessage::Status(text) => action == MonitorAction::Nothing && *final(self) == (DaemonMonitor {
                    status_message: Some(text),
                    ..*old(self)
                }) && final(config).profiles@ == old(config).profiles@,
                DaemonMessage::Heartbeat => action == MonitorAction::Nothing
                    && *final(self) == heartbeat_state(*old(self), now)
                    && final(config).profiles@ == old(config).profiles@,
                DaemonMessage::RequestProfileSwitch(name) => *final(self) == *old(self)
                    && final(config).profiles@ == old(config).profiles@
                    && action == (match first_named(old(config).profiles@, name@) {
                        Some(i) => MonitorAction::SwitchProfile(i as usize),
                        None => MonitorAction::Nothing,
                    }),
                DaemonMessage::PositionChanged { name, x, y, width, height, is_custom } =>
                    placement_outcome(*old(self), *old(config), *final(self), *final(config), action, name, x, y, width, height, is_custom, now),
                _ => action == MonitorAction::Nothing && *final(self) == *old(self)
                    && final(config).profiles@ == old(config).profiles@,
            },
    {
        match msg {
            DaemonMessage::Status(text) => {
                self.status_message = Some(text);
                MonitorAction::Nothing
            },
            DaemonMessage::Heartbeat => {
                self.ipc_healthy = true;
                self.last_heartbeat_ms = now;
                self.missed_heartbeats = 0;
                MonitorAction::Nothing
            },
            DaemonMessage::RequestProfileSwitch(name) => {
                match find_profile(&config.profiles, name.as_str()) {
                    Some(i) => MonitorAction::SwitchProfile(i),
                    None => MonitorAction::Nothing,
                }
            },
            DaemonMessage::PositionChanged { name, x, y, width, height, is_custom } => {
                self.on_placement(config, name, x, y, width, height, is_custom, now)
            },
            _ => MonitorAction::Nothing,
        }
    }

    /// A clock tick at `now`. While a running daemon is silent for more
    /// than `HEARTBEAT_GRACE_MS`, each tick counts a missed heartbeat; past
    /// `HEARTBEAT_TIMEOUT_MS` the connection is marked unhealthy and the
    /// daemon must be restarted. Otherwise the process is looked at again
    /// once `DAEMON_CHECK_INTERVAL_MS` have passed since the last look.
    pub fn on_tick(&mut self, now: u64) -> (action: TickAction)
        requires
            old(self).missed_heartbeats < u32::MAX,
        ensures
            ({
                let silent = old(self).running && old(self).ipc_healthy
                    && elapsed(old(self).last_heartbeat_ms, now) > HEARTBEAT_GRACE_MS
                    && old(self).status == DaemonStatus::Running;
                let m1 = if silent {
                    DaemonMonitor { missed_heartbeats: (old(self).missed_heartbeats + 1) as u32, ..*old(self) }
                } else {
                    *old(self)
                };
                if silent && elapsed(old(self).last_heartbeat_ms, now) > HEARTBEAT_TIMEOUT_MS {
                    action == TickAction::Restart && *final(self) == (DaemonMonitor { ipc_healthy: false, ..m1 })
                } else if elapsed(old(self).last_health_check_ms, now) < DAEMON_CHECK_INTERVAL_MS {
                    action == TickAction::Wait && *final(self) == m1
                } else {
                    action == TickAction::CheckProcess && *final(self) == (DaemonMonitor { last_health_check_ms: now, ..m1 })
                }
            }),
    {
        let quiet = if now >= self.last_heartbeat_ms { now - self.last_heartbeat_ms } else { 0 };
        if self.running && self.ipc_healthy && quiet > HEARTBEAT_GRACE_MS && self.status == DaemonStatus::Running {
            self.missed_heartbeats = self.missed_heartbeats + 1;
            if quiet > HEARTBEAT_TIMEOUT_MS {
                self.ipc_healthy = false;
                return TickAction::Restart;
            }
        }
        let since = if now >= self.last_health_check_ms { now - self.last_health_check_ms } else { 0 };
        if since < DAEMON_CHECK_INTERVAL_MS {
            return TickAction::Wait;
        }
        self.last_health_check_ms = now;
        TickAction::CheckProcess
    }
}

} // verus!
