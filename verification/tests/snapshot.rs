use xcreen::ambient::{ambient_levels, apply_ambient, AmbientReading, AmbientTarget};
use xcreen::config::AppConfig;
use xcreen::ddc::LevelKind;
use xcreen::max_level::MaxLevel;
use xcreen::monitor::{describe_monitor, MonitorInfo, MonitorLevels};
use xcreen::settings::{
    plan_monitor_refresh, refresh_monitors_sync, reload_config, update_autostart, update_log_level,
    with_autostart, RefreshStep, SettingOutcome,
};
use xcreen::snapshot::{sort_primary_first, wrapped_index, ActiveView, UiMonitor, UiSnapshot};
use xcreen::view::{flyout_model, log_level_at, log_level_index, Controls};

const LEVELS: MonitorLevels = MonitorLevels { brightness: 30, contrast: 60 };

fn monitor(id: &str, is_primary: bool) -> MonitorInfo {
    describe_monitor(1, id.to_string(), is_primary)
}

fn showing(monitors: &[MonitorInfo]) -> UiSnapshot {
    let mut snapshot = UiSnapshot::empty(true);
    let monitors: Vec<MonitorInfo> = monitors.to_vec();
    snapshot.refresh_snapshot_from_state(&monitors, &AppConfig::default(), true, None);
    snapshot
}

fn selected(snapshot: &UiSnapshot) -> Option<&str> {
    snapshot.selected_monitor().map(|monitor| monitor.id.as_str())
}

#[test]
fn monitor_navigation_wraps() {
    assert_eq!(wrapped_index(0, -1, 3), 2);
    assert_eq!(wrapped_index(2, 1, 3), 0);
}

#[test]
fn primary_monitor_sorts_first() {
    let monitors = vec![
        UiMonitor { id: "secondary".into(), name: "B".into(), is_primary: false },
        UiMonitor { id: "primary".into(), name: "A".into(), is_primary: true },
    ];
    let monitors = sort_primary_first(&monitors);
    assert_eq!(monitors[0].id, "primary");
}

#[test]
fn sorting_keeps_the_order_of_equals() {
    let item = |id: &str, is_primary| UiMonitor { id: id.into(), name: id.into(), is_primary };
    let mixed =
        vec![item("a", false), item("b", true), item("c", false), item("d", true), item("e", false)];
    let mut expected = mixed.clone();
    expected.sort_by_key(|monitor| !monitor.is_primary);
    assert_eq!(sort_primary_first(&mixed), expected);
}

#[test]
fn an_empty_snapshot_shows_nothing() {
    let snapshot = UiSnapshot::empty(true);
    assert!(snapshot.monitors.is_empty() && snapshot.ambient_available);
    assert_eq!(snapshot.selected_monitor(), None);
    assert_eq!(snapshot.current_view, ActiveView::Main);
    assert_eq!(snapshot.log_level, "warn");
}

#[test]
fn navigating_goes_round_and_back() {
    let mut snapshot = showing(&[monitor("a", true), monitor("b", false), monitor("c", false)]);
    snapshot.levels = Some(LEVELS);
    snapshot.error = Some("old".to_string());
    assert!(snapshot.navigate_monitor(-1));
    assert_eq!(selected(&snapshot), Some("c"));
    assert_eq!((snapshot.levels, snapshot.error.clone()), (None, None));
    assert!(snapshot.navigate_monitor(1));
    assert_eq!(selected(&snapshot), Some("a"));
    assert!(snapshot.navigate_monitor(3));
    assert_eq!(selected(&snapshot), Some("a"));
    let mut nothing = UiSnapshot::empty(false);
    assert!(!nothing.navigate_monitor(1));
}

#[test]
fn refreshing_keeps_the_selected_monitor() {
    let mut snapshot = showing(&[monitor("a", false), monitor("b", false)]);
    snapshot.navigate_monitor(1);
    snapshot.levels = Some(LEVELS);
    snapshot.begin_refresh(true);
    assert!(snapshot.loading && snapshot.refreshing);
    let now = vec![monitor("b", false), monitor("n", false), monitor("p", true)];
    let mut config = AppConfig::default();
    config.autostart_enabled = true;
    config.log_level = "debug".to_string();
    snapshot.refresh_snapshot_from_state(&now, &config, false, Some("b"));
    let ids: Vec<&str> = snapshot.monitors.iter().map(|m| m.id.as_str()).collect();
    assert_eq!(ids, ["p", "b", "n"]);
    assert_eq!(selected(&snapshot), Some("b"));
    assert_eq!(snapshot.levels, Some(LEVELS));
    assert!(!snapshot.loading && !snapshot.refreshing && !snapshot.ambient_available);
    assert!(snapshot.autostart_enabled);
    assert_eq!(snapshot.log_level, "debug");
    snapshot.refresh_snapshot_from_state(&now, &config, false, Some("n"));
    assert_eq!(selected(&snapshot), Some("n"));
    assert_eq!(snapshot.levels, None);
    snapshot.refresh_snapshot_from_state(&now, &config, false, Some("gone"));
    assert_eq!(snapshot.selected, 0);
}

#[test]
fn a_failed_refresh_is_shown() {
    let mut snapshot = showing(&[monitor("a", true)]);
    snapshot.begin_refresh(false);
    assert!(snapshot.loading && !snapshot.refreshing);
    snapshot.refresh_failed("no list".to_string());
    assert!(!snapshot.loading);
    assert_eq!(snapshot.error.as_deref(), Some("no list"));
}

#[test]
fn only_the_newest_load_counts() {
    let mut snapshot = showing(&[monitor("a", true), monitor("b", false)]);
    let mut generations = 0u64;
    assert_eq!(snapshot.begin_load(&mut generations).as_deref(), Some("a"));
    assert_eq!(snapshot.begin_load(&mut generations).as_deref(), Some("a"));
    assert_eq!((generations, snapshot.load_generation), (2, 2));
    assert!(!snapshot.finish_load(1, "a", Ok(LEVELS)));
    assert!(snapshot.loading && snapshot.levels.is_none());
    assert!(!snapshot.finish_load(2, "b", Ok(LEVELS)));
    assert!(snapshot.finish_load(2, "a", Ok(LEVELS)));
    assert!(!snapshot.loading);
    assert_eq!(snapshot.levels, Some(LEVELS));
    snapshot.begin_load(&mut generations);
    assert!(snapshot.finish_load(3, "a", Err("unplugged".to_string())));
    assert_eq!((snapshot.levels, snapshot.error.as_deref()), (None, Some("unplugged")));
    let mut nothing = UiSnapshot::empty(false);
    nothing.loading = true;
    assert_eq!(nothing.begin_load(&mut generations), None);
    assert!(!nothing.loading);
    assert_eq!(generations, 3);
}

#[test]
fn a_chosen_level_is_shown_and_pending() {
    let mut snapshot = showing(&[monitor("a", true)]);
    let mut pending = None;
    snapshot.update_local_level(LevelKind::Brightness, 70, &mut pending);
    snapshot.update_local_level(LevelKind::Contrast, 20, &mut pending);
    assert_eq!(snapshot.levels, Some(MonitorLevels { brightness: 70, contrast: 20 }));
    let commit = pending.unwrap();
    assert_eq!((commit.monitor_id.as_str(), commit.value), ("a", 20));
    assert_eq!(commit.kind, LevelKind::Contrast);
    let mut nothing = UiSnapshot::empty(false);
    let mut pending = None;
    nothing.update_local_level(LevelKind::Contrast, 20, &mut pending);
    assert_eq!(pending, None);
}

#[test]
fn levels_suit_the_light() {
    let steps = [
        (0, 20, 40),
        (9, 20, 40),
        (10, 30, 45),
        (50, 40, 55),
        (100, 50, 65),
        (200, 65, 75),
        (500, 80, 85),
        (999, 80, 85),
        (1000, 100, 95),
        (u64::MAX, 100, 95),
    ];
    for (lux, brightness, contrast) in steps {
        assert_eq!(ambient_levels(lux), MonitorLevels { brightness, contrast });
    }
}

#[test]
fn ambient_light_is_applied_to_a_connected_monitor() {
    let monitors = vec![monitor("a", false), monitor("b", false)];
    assert_eq!(
        apply_ambient(AmbientReading::Lux(60), &monitors, "b"),
        Ok(AmbientTarget { index: 1, levels: MonitorLevels { brightness: 40, contrast: 55 } })
    );
    assert_eq!(
        apply_ambient(AmbientReading::Lux(60), &monitors, "c"),
        Err("The selected monitor is no longer connected".to_string())
    );
    assert_eq!(
        apply_ambient(AmbientReading::NoSensor, &monitors, "b"),
        Err("No ambient light sensor is available".to_string())
    );
    assert_eq!(
        apply_ambient(AmbientReading::Failed("dark".to_string()), &monitors, "b"),
        Err("dark".to_string())
    );
}

#[test]
fn a_setting_takes_effect_only_when_saved_and_applied() {
    let monitors = vec![monitor("a", true)];
    let mut config = AppConfig::default();
    let mut snapshot = showing(&[monitor("a", true)]);
    assert!(with_autostart(&config, true).autostart_enabled);
    let refused = SettingOutcome::NotApplied("registry".to_string());
    assert!(!update_autostart(&mut config, &mut snapshot, &monitors, true, true, refused));
    assert!(!config.autostart_enabled && !snapshot.autostart_enabled);
    assert_eq!(snapshot.error.as_deref(), Some("registry"));
    let done = SettingOutcome::Done;
    assert!(update_autostart(&mut config, &mut snapshot, &monitors, true, true, done));
    assert!(config.autostart_enabled && snapshot.autostart_enabled);
    assert_eq!(snapshot.error, None);
}

#[test]
fn an_invalid_log_level_is_not_taken_up() {
    let monitors = vec![];
    let mut config = AppConfig::default();
    let mut snapshot = UiSnapshot::empty(false);
    let mut max_level = MaxLevel::new();
    let done = SettingOutcome::Done;
    let (c, s, m) = (&mut config, &mut snapshot, &mut max_level);
    assert!(!update_log_level(c, s, &monitors, false, "loud", done, m));
    assert_eq!(config.log_level, "warn");
    assert_eq!(
        snapshot.error.as_deref(),
        Some("Invalid log level: 'loud'. Must be one of: error, warn, info, debug")
    );
    let unsaved = SettingOutcome::NotSaved("disk full".to_string());
    let (c, s, m) = (&mut config, &mut snapshot, &mut max_level);
    assert!(!update_log_level(c, s, &monitors, false, "info", unsaved, m));
    assert_eq!(snapshot.error.as_deref(), Some("disk full"));
}

#[test]
fn a_refresh_saves_only_what_changed() {
    let mut config = AppConfig::default();
    let found = vec![monitor("a", true)];
    assert!(matches!(plan_monitor_refresh(&mut config, &found), RefreshStep::Save));
    assert!(matches!(plan_monitor_refresh(&mut config, &found), RefreshStep::Replace));
    let blank = vec![monitor(" ", true)];
    match plan_monitor_refresh(&mut config, &blank) {
        RefreshStep::Failed(fault) => assert_eq!(fault, "Monitor id cannot be empty"),
        other => panic!("{other:?}"),
    }
    let mut monitors = vec![];
    let failed = refresh_monitors_sync(&mut monitors, found.clone(), Err("disk full".to_string()));
    assert_eq!(failed, Err("disk full".to_string()));
    assert!(monitors.is_empty());
    assert_eq!(refresh_monitors_sync(&mut monitors, found, Ok(())), Ok(()));
    assert_eq!(monitors[0].id, "a");
}

#[test]
fn the_flyout_shows_the_selected_monitor() {
    let mut snapshot = showing(&[monitor("a", true), monitor("b", false)]);
    snapshot.loading = true;
    let page = flyout_model(&snapshot).page.unwrap();
    assert_eq!(page.heading, "a (Primary)");
    assert!(!page.navigation_enabled);
    assert_eq!(page.controls, Controls::Reading);
    snapshot.loading = false;
    snapshot.navigate_monitor(1);
    let page = flyout_model(&snapshot).page.unwrap();
    assert_eq!(page.heading, "b");
    assert!(page.navigation_enabled);
    assert_eq!(page.controls, Controls::Unavailable);
    snapshot.levels = Some(LEVELS);
    assert_eq!(flyout_model(&snapshot).page.unwrap().controls, Controls::Sliders(LEVELS));
}

#[test]
fn the_flyout_shows_one_page_at_a_time() {
    let mut snapshot = UiSnapshot::empty(true);
    snapshot.error = Some("broken".to_string());
    snapshot.log_level = "DEBUG".to_string();
    let model = flyout_model(&snapshot);
    assert!(model.page.is_none() && model.main_shown && !model.settings_shown);
    assert_eq!(model.left_margin, 0);
    assert!(!model.ambient_enabled);
    assert_eq!(model.ambient_tooltip, "Set from ambient light");
    assert_eq!(model.error.as_deref(), Some("broken"));
    assert_eq!(model.log_level_index, 3);
    snapshot.current_view = ActiveView::Settings;
    snapshot.ambient_available = false;
    let model = flyout_model(&snapshot);
    assert!(!model.main_shown && model.settings_shown);
    assert_eq!(model.left_margin, -368);
    assert_eq!(model.ambient_tooltip, "No ambient light sensor is available");
}

#[test]
fn log_levels_stand_in_a_list() {
    for index in 0..4 {
        assert_eq!(log_level_index(log_level_at(index)), index);
    }
    assert_eq!(log_level_at(7), "warn");
    assert_eq!(log_level_at(-1), "warn");
    assert_eq!(log_level_index("Info"), 2);
    assert_eq!(log_level_index("verbose"), 1);
}

#[test]
fn a_refresh_ends_with_the_monitors_or_an_error() {
    let found = vec![monitor("a", true), monitor("b", false)];
    let config = AppConfig::default();
    let mut snapshot = UiSnapshot::empty(false);
    snapshot.begin_refresh(true);
    assert!(!snapshot.finish_refresh(Err("no".to_string()), &found, &config, true, None));
    assert_eq!((snapshot.error.as_deref(), snapshot.monitors.len()), (Some("no"), 0));
    assert!(!snapshot.loading && !snapshot.refreshing && !snapshot.ambient_available);
    assert!(snapshot.finish_refresh(Ok(()), &found, &config, true, Some("b")));
    assert_eq!((snapshot.error.clone(), selected(&snapshot)), (None, Some("b")));
    assert!(snapshot.ambient_available);
}

#[test]
fn a_write_ends_with_another_read_or_an_error() {
    let mut snapshot = showing(&[monitor("a", true)]);
    assert!(snapshot.finish_write(Ok(false)));
    assert_eq!(snapshot.error, None);
    assert!(!snapshot.finish_write(Err("deaf".to_string())));
    assert_eq!(snapshot.error.as_deref(), Some("deaf"));
    snapshot.show_view(ActiveView::Settings);
    assert_eq!(snapshot.current_view, ActiveView::Settings);
}

#[test]
fn a_configuration_changed_from_outside_is_taken_up() {
    let monitors = vec![monitor("a", true)];
    let mut config = AppConfig::default();
    let mut snapshot = showing(&[monitor("a", true)]);
    let mut found = AppConfig::default();
    found.log_level = "debug".to_string();
    found.autostart_enabled = true;
    assert!(reload_config(&mut config, &mut snapshot, &monitors, true, found));
    assert_eq!((config.log_level.as_str(), config.monitors.len()), ("debug", 1));
    assert!(snapshot.autostart_enabled);
    assert_eq!(snapshot.log_level, "debug");
    let again = config.clone();
    assert!(!reload_config(&mut config, &mut snapshot, &monitors, true, again));
}
