use eve_preview_manager::daemon_monitor::{DaemonMonitor, MonitorAction, TickAction};
use eve_preview_manager::domain::CharacterSettings;
use eve_preview_manager::ipc::DaemonMessage;
use eve_preview_manager::manager_ui::DaemonStatus;
use eve_preview_manager::profile::{Config, Profile};

fn config() -> Config {
    let mut c = Config::default();
    c.profiles.push(Profile::default_with_name("Other".to_string(), String::new(), None));
    c
}

fn moved(name: &str, x: i16, custom: bool) -> DaemonMessage {
    DaemonMessage::PositionChanged { name: name.to_string(), x, y: 20, width: 300, height: 170, is_custom: custom }
}

#[test]
fn daemon_lifecycle() {
    let mut m = DaemonMonitor::new(0);
    assert_eq!(m.status, DaemonStatus::Stopped);
    m.started();
    assert_eq!(m.status, DaemonStatus::Starting);
    assert!(m.awaiting_connection);
    m.connected(100);
    assert_eq!(m.status, DaemonStatus::Running);
    assert!(m.ipc_healthy);
    m.exited(false, Some(3));
    assert_eq!(m.status, DaemonStatus::Crashed(Some(3)));
    assert!(!m.running);
    m.started();
    m.exited(true, Some(0));
    assert_eq!(m.status, DaemonStatus::Stopped);
    m.started();
    m.lost();
    assert_eq!(m.status, DaemonStatus::Crashed(None));
}

#[test]
fn placements_are_recorded_and_saved_with_debounce() {
    let mut c = config();
    let mut m = DaemonMonitor::new(0);
    m.started();
    m.connected(0);
    c.profiles[0].thumbnail_auto_save_position = true;
    let a = m.on_message(moved("Pilot", 10, false), &mut c, 5000);
    assert_eq!(
        a,
        MonitorAction::SaveAndConfirmMove { name: "Pilot".to_string(), is_custom: false, x: 10, y: 20, width: 300, height: 170 }
    );
    assert_eq!(m.last_save_attempt_ms, 5000);
    let s = c.profiles[0].character_thumbnails.get("Pilot").unwrap();
    assert_eq!((s.x, s.y, s.dimensions.width, s.dimensions.height), (10, 20, 300, 170));
    // Too soon after the last save: only marked.
    assert_eq!(m.on_message(moved("Pilot", 11, false), &mut c, 5500), MonitorAction::Nothing);
    assert!(m.settings_changed);
    assert_eq!(c.profiles[0].character_thumbnails.get("Pilot").unwrap().x, 11);
    // The same place again changes nothing.
    m.settings_changed = false;
    assert_eq!(m.on_message(moved("Pilot", 11, false), &mut c, 9000), MonitorAction::Nothing);
    assert!(!m.settings_changed);
    // Custom sources go to their own map.
    let _ = m.on_message(moved("Browser", 1, true), &mut c, 20000);
    assert!(c.profiles[0].custom_source_thumbnails.get("Browser").is_some());
    assert!(c.profiles[0].character_thumbnails.get("Browser").is_none());
}

#[test]
fn placement_keeps_other_settings_without_autosave() {
    let mut c = config();
    let mut m = DaemonMonitor::new(0);
    let mut s = CharacterSettings::new(0, 0, 100, 100);
    s.alias = Some("Main".to_string());
    c.profiles[0].character_thumbnails.insert("Pilot".to_string(), s);
    c.profiles[0].thumbnail_auto_save_position = false;
    assert_eq!(m.on_message(moved("Pilot", 7, false), &mut c, 10_000), MonitorAction::Nothing);
    let s = c.profiles[0].character_thumbnails.get("Pilot").unwrap();
    assert_eq!(s.alias.as_deref(), Some("Main"));
    assert_eq!(s.x, 7);
    assert!(!m.settings_changed);
}

#[test]
fn status_heartbeat_and_profile_requests() {
    let mut c = config();
    let mut m = DaemonMonitor::new(0);
    assert_eq!(m.on_message(DaemonMessage::Status("ok".to_string()), &mut c, 1), MonitorAction::Nothing);
    assert_eq!(m.status_message.as_deref(), Some("ok"));
    m.missed_heartbeats = 4;
    m.on_message(DaemonMessage::Heartbeat, &mut c, 77);
    assert_eq!((m.missed_heartbeats, m.last_heartbeat_ms, m.ipc_healthy), (0, 77, true));
    assert_eq!(m.on_message(DaemonMessage::RequestProfileSwitch("Other".to_string()), &mut c, 2), MonitorAction::SwitchProfile(1));
    assert_eq!(m.on_message(DaemonMessage::RequestProfileSwitch("Missing".to_string()), &mut c, 2), MonitorAction::Nothing);
    assert_eq!(m.on_message(DaemonMessage::Error("boom".to_string()), &mut c, 2), MonitorAction::Nothing);
}

#[test]
fn silent_daemon_is_restarted() {
    let mut m = DaemonMonitor::new(0);
    m.started();
    m.connected(0);
    assert_eq!(m.on_tick(100), TickAction::Wait);
    assert_eq!(m.on_tick(600), TickAction::CheckProcess);
    assert_eq!(m.last_health_check_ms, 600);
    assert_eq!(m.on_tick(6000), TickAction::CheckProcess);
    assert_eq!(m.missed_heartbeats, 1);
    assert_eq!(m.on_tick(16000), TickAction::Restart);
    assert!(!m.ipc_healthy);
    assert_eq!(m.missed_heartbeats, 2);
}
