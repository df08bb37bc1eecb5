use xcreen::ddc::{
    ddc_function_names, enumerate_physical_monitors, get_ddc_functions, level_percent,
    scale_to_range, ApplyRequest, ApplyResult, DdcAction, DdcReply, LevelKind, LevelRange,
};
use xcreen::monitor::{
    commit_level, describe_monitor, find_monitor, get_monitor_list_sync, levels_from_ranges,
    plan_level_read, plan_monitor_settings, plan_single_level, set_monitor_brightness_only,
    set_monitor_contrast_only, set_monitor_level, set_monitor_settings_with_cache, CommitPlan,
    DisplayDevice, MonitorLevels,
};
use xcreen::session::ApplySession;

type Range = Option<(u32, u32, u32)>;

/// A physical monitor: its two ranges, and whether it takes a write of either level.
struct Panel {
    brightness: Range,
    contrast: Range,
    takes: (bool, bool),
}

fn drive(request: ApplyRequest, panels: &[Panel]) -> (Vec<DdcAction>, Result<ApplyResult, String>) {
    let mut session = ApplySession::begin(request, Ok(()), Ok(panels.len())).ok().unwrap();
    let mut actions = Vec::new();
    loop {
        let action = session.next_action();
        if action == DdcAction::Finished {
            return (actions, session.result());
        }
        actions.push(action);
        let reply = match action {
            DdcAction::Read { monitor, kind } => {
                let range = match kind {
                    LevelKind::Brightness => panels[monitor].brightness,
                    LevelKind::Contrast => panels[monitor].contrast,
                };
                DdcReply::Range(range.map(|(min, current, max)| LevelRange { min, current, max }))
            }
            DdcAction::Write { monitor, kind, .. } => DdcReply::Written(match kind {
                LevelKind::Brightness => panels[monitor].takes.0,
                LevelKind::Contrast => panels[monitor].takes.1,
            }),
            _ => DdcReply::Released,
        };
        assert!(session.reply(reply));
    }
}

fn both(brightness: u32, contrast: u32) -> ApplyRequest {
    ApplyRequest { brightness, contrast, apply_brightness: true, apply_contrast: true }
}

#[test]
fn levels_scale_to_the_range_and_round() {
    assert_eq!(scale_to_range(50, 0, 100), 50);
    assert_eq!(scale_to_range(0, 10, 90), 10);
    assert_eq!(scale_to_range(100, 10, 90), 90);
    assert_eq!(scale_to_range(33, 0, 255), 84);
    assert_eq!(scale_to_range(1, 0, 50), 1);
    assert_eq!(scale_to_range(1, 0, 49), 0);
    assert_eq!(scale_to_range(70, 5, 5), 5);
    assert_eq!(scale_to_range(70, 9, 5), 9);
    assert_eq!(scale_to_range(100, 0, u32::MAX), u32::MAX);
    assert_eq!(scale_to_range(150, 10, 110), 160);
}

#[test]
fn levels_scale_monotonically() {
    let mut previous = 0;
    for value in 0..=100 {
        let raw = scale_to_range(value, 3, 58);
        assert!(3 <= raw && raw <= 58);
        assert!(previous <= raw);
        previous = raw;
    }
}

#[test]
fn written_levels_read_back() {
    for max in [100u32, 101, 255, 65535] {
        for value in 0..=100 {
            let current = scale_to_range(value, 0, max);
            assert_eq!(level_percent(LevelRange { min: 0, current, max }), value);
        }
    }
    assert_eq!(level_percent(LevelRange { min: 10, current: 3, max: 20 }), 0);
    assert_eq!(level_percent(LevelRange { min: 10, current: 30, max: 20 }), 100);
    assert_eq!(level_percent(LevelRange { min: 10, current: 30, max: 10 }), 0);
}

#[test]
fn a_run_writes_what_differs_and_releases_every_monitor() {
    let panels = [
        Panel { brightness: Some((0, 10, 100)), contrast: Some((0, 40, 100)), takes: (true, true) },
        Panel { brightness: Some((0, 0, 50)), contrast: None, takes: (true, true) },
    ];
    let (actions, result) = drive(both(60, 40), &panels);
    let b = LevelKind::Brightness;
    let c = LevelKind::Contrast;
    assert_eq!(
        actions,
        [
            DdcAction::Read { monitor: 0, kind: b },
            DdcAction::Write { monitor: 0, kind: b, value: 60 },
            DdcAction::Read { monitor: 0, kind: c },
            DdcAction::Read { monitor: 1, kind: b },
            DdcAction::Write { monitor: 1, kind: b, value: 30 },
            DdcAction::Read { monitor: 1, kind: c },
            DdcAction::Release { monitor: 0 },
            DdcAction::Release { monitor: 1 },
        ]
    );
    assert_eq!(
        result,
        Ok(ApplyResult {
            brightness_succeeded: true,
            contrast_succeeded: true,
            brightness_wrote: true,
            contrast_wrote: false,
        })
    );
}

#[test]
fn a_run_that_reaches_nothing_reports_the_last_failure() {
    let deaf = Panel { brightness: None, contrast: None, takes: (false, false) };
    assert_eq!(drive(both(1, 2), &[deaf]).1, Err("Contrast not supported".to_string()));
    let stubborn = Panel {
        brightness: Some((0, 0, 100)),
        contrast: Some((0, 0, 100)),
        takes: (false, false),
    };
    assert_eq!(drive(both(1, 2), &[stubborn]).1, Err("Failed to set contrast".to_string()));
    let only_brightness =
        ApplyRequest { brightness: 5, contrast: 5, apply_brightness: true, apply_contrast: false };
    let deaf = Panel { brightness: None, contrast: Some((0, 0, 9)), takes: (true, true) };
    assert_eq!(drive(only_brightness, &[deaf]).1, Err("Brightness not supported".to_string()));
    let stubborn =
        Panel { brightness: Some((0, 0, 100)), contrast: None, takes: (false, false) };
    assert_eq!(drive(only_brightness, &[stubborn]).1, Err("Failed to set brightness".to_string()));
    assert_eq!(drive(both(1, 2), &[]).1, Err("DDC/CI operation failed".to_string()));
}

#[test]
fn a_run_without_levels_only_releases() {
    let nothing =
        ApplyRequest { brightness: 0, contrast: 0, apply_brightness: false, apply_contrast: false };
    let panel = Panel { brightness: None, contrast: None, takes: (false, false) };
    let (actions, result) = drive(nothing, &[panel]);
    assert_eq!(actions, [DdcAction::Release { monitor: 0 }]);
    assert!(result.is_ok());
}

#[test]
fn a_reply_to_another_action_is_refused() {
    let mut session = ApplySession::new(both(50, 50), 1);
    let before = session.next_action();
    assert!(!session.reply(DdcReply::Written(true)));
    assert!(!session.reply(DdcReply::Released));
    assert_eq!(session.next_action(), before);
}

#[test]
fn a_run_that_cannot_begin_is_explained() {
    let unsupported =
        ApplySession::begin(both(1, 1), Err("DDC/CI not supported".to_string()), Ok(1));
    assert_eq!(unsupported.err().unwrap(), "DDC/CI error: DDC/CI not supported");
    let none = ApplySession::begin(both(1, 1), Ok(()), Err("No physical monitors found".into()));
    assert_eq!(
        none.err().unwrap(),
        "Failed to get physical monitor(s): No physical monitors found"
    );
}

#[test]
fn settings_that_are_known_need_no_write() {
    let mut monitor = describe_monitor(7, "DISPLAY1".to_string(), true);
    let plan = plan_monitor_settings(&monitor, 60, 70).unwrap().unwrap();
    assert_eq!(plan, both(60, 70));
    let panel = Panel {
        brightness: Some((0, 0, 100)),
        contrast: Some((0, 70, 100)),
        takes: (true, true),
    };
    let applied = drive(plan, &[panel]).1;
    assert_eq!(set_monitor_settings_with_cache(&mut monitor, 60, 70, applied), Ok(true));
    assert_eq!(monitor.cached_brightness, Some(60));
    assert_eq!(monitor.cached_contrast, Some(70));
    assert_eq!(plan_monitor_settings(&monitor, 60, 70), Ok(None));
    let unused = Err("not asked for".to_string());
    assert_eq!(set_monitor_settings_with_cache(&mut monitor, 60, 70, unused), Ok(false));
    let next = plan_monitor_settings(&monitor, 60, 71).unwrap().unwrap();
    assert!(!next.apply_brightness && next.apply_contrast);
}

#[test]
fn settings_beyond_a_hundred_percent_are_refused() {
    let mut monitor = describe_monitor(7, "DISPLAY1".to_string(), true);
    let refusal = "Values must be between 0 and 100".to_string();
    assert_eq!(plan_monitor_settings(&monitor, 101, 0), Err(refusal.clone()));
    assert_eq!(plan_monitor_settings(&monitor, 0, 101), Err(refusal.clone()));
    assert_eq!(plan_single_level(LevelKind::Contrast, 101), Err(refusal.clone()));
    let applied = Ok(ApplyResult {
        brightness_succeeded: true,
        contrast_succeeded: true,
        brightness_wrote: true,
        contrast_wrote: true,
    });
    assert_eq!(
        set_monitor_settings_with_cache(&mut monitor, 101, 0, applied.clone()),
        Err(refusal.clone())
    );
    assert_eq!(set_monitor_brightness_only(&mut monitor, 101, applied), Err(refusal));
    assert_eq!(monitor.cached_brightness, None);
    assert_eq!(monitor.cached_contrast, None);
}

#[test]
fn settings_that_failed_are_not_remembered() {
    let mut monitor = describe_monitor(7, "DISPLAY1".to_string(), true);
    let failed = Err("Brightness not supported".to_string());
    assert_eq!(
        set_monitor_settings_with_cache(&mut monitor, 10, 20, failed),
        Err("Brightness not supported".to_string())
    );
    assert_eq!(monitor.cached_brightness, None);
    let half = Ok(ApplyResult {
        brightness_succeeded: false,
        contrast_succeeded: true,
        brightness_wrote: false,
        contrast_wrote: false,
    });
    assert_eq!(set_monitor_settings_with_cache(&mut monitor, 10, 20, half), Ok(false));
    assert_eq!(monitor.cached_brightness, None);
    assert_eq!(monitor.cached_contrast, Some(20));
}

#[test]
fn a_single_level_leaves_the_other_alone() {
    let mut monitor = describe_monitor(7, "DISPLAY1".to_string(), true);
    let plan = plan_single_level(LevelKind::Brightness, 30).unwrap();
    let panel = Panel {
        brightness: Some((0, 0, 100)),
        contrast: Some((0, 0, 100)),
        takes: (true, true),
    };
    let (actions, applied) = drive(plan, &[panel]);
    assert_eq!(actions.len(), 3);
    assert_eq!(set_monitor_brightness_only(&mut monitor, 30, applied), Ok(true));
    assert_eq!((monitor.cached_brightness, monitor.cached_contrast), (Some(30), None));
    let plan = plan_single_level(LevelKind::Contrast, 40).unwrap();
    let panel = Panel {
        brightness: Some((0, 0, 100)),
        contrast: Some((0, 40, 100)),
        takes: (true, true),
    };
    let applied = drive(plan, &[panel]).1;
    assert_eq!(set_monitor_contrast_only(&mut monitor, 40, applied), Ok(false));
    assert_eq!((monitor.cached_brightness, monitor.cached_contrast), (Some(30), Some(40)));
}

#[test]
fn levels_come_from_both_ranges() {
    let b = Some(LevelRange { min: 0, current: 30, max: 100 });
    let c = Some(LevelRange { min: 0, current: 128, max: 255 });
    assert_eq!(levels_from_ranges(b, c), Ok(MonitorLevels { brightness: 30, contrast: 50 }));
    assert_eq!(levels_from_ranges(None, c), Err("Brightness not supported".to_string()));
    assert_eq!(levels_from_ranges(b, None), Err("Contrast not supported".to_string()));
}

#[test]
fn displays_are_listed_with_their_names() {
    let mut device: Vec<u16> = "\\\\.\\DISPLAY1".encode_utf16().collect();
    device.resize(32, 0);
    device[31] = 65;
    let clef: Vec<u16> = vec![0xd834, 0xdd1e, 0x61];
    let broken: Vec<u16> = vec![0x62, 0xd834, 0x63];
    let loose: Vec<u16> = vec![0xd834, 0xd834, 0xdd1e, 0xdd1e, 0xd834];
    let displays = vec![
        DisplayDevice { handle: 11, device, flags: 3 },
        DisplayDevice { handle: 12, device: clef, flags: 2 },
        DisplayDevice { handle: 13, device: broken, flags: 0 },
        DisplayDevice { handle: 14, device: loose, flags: 4 },
    ];
    let monitors = get_monitor_list_sync(&displays).unwrap();
    let names: Vec<&str> = monitors.iter().map(|m| m.name.as_str()).collect();
    assert_eq!(
        names,
        [
            "\\\\.\\DISPLAY1",
            "\u{1d11e}a",
            "b\u{fffd}c",
            "\u{fffd}\u{1d11e}\u{fffd}\u{fffd}",
        ]
    );
    let primary: Vec<bool> = monitors.iter().map(|m| m.is_primary).collect();
    assert_eq!(primary, [true, false, false, false]);
    assert_eq!(monitors[0].handle, 11);
    assert_eq!(monitors[0].id, "\\\\.\\DISPLAY1");
    assert_eq!(monitors[0].cached_brightness, None);
}

#[test]
fn a_monitor_is_found_by_its_id() {
    let monitors = vec![
        describe_monitor(1, "a".to_string(), false),
        describe_monitor(2, "b".to_string(), false),
        describe_monitor(3, "b".to_string(), false),
    ];
    assert_eq!(find_monitor(&monitors, "b"), Ok(1));
    assert_eq!(
        find_monitor(&monitors, "c"),
        Err("The selected monitor is no longer connected".to_string())
    );
}

#[test]
fn the_first_missing_function_is_reported() {
    let names = ddc_function_names();
    assert_eq!(
        names,
        [
            "GetNumberOfPhysicalMonitorsFromHMONITOR",
            "GetPhysicalMonitorsFromHMONITOR",
            "GetMonitorBrightness",
            "SetMonitorBrightness",
            "GetMonitorContrast",
            "SetMonitorContrast",
            "DestroyPhysicalMonitor",
        ]
    );
    let complete = vec![true; 7];
    assert_eq!(get_ddc_functions(true, &complete), Ok(()));
    assert_eq!(get_ddc_functions(false, &complete), Err("DDC/CI not supported".to_string()));
    for missing in 0..7 {
        let mut found = vec![false; 7];
        found[..missing].fill(true);
        assert_eq!(get_ddc_functions(true, &found), Err(format!("Missing {}", names[missing])));
        found.truncate(missing);
        assert_eq!(get_ddc_functions(true, &found), Err(format!("Missing {}", names[missing])));
    }
}

#[test]
fn a_second_run_writes_only_what_was_refused() {
    let before = [
        Panel { brightness: Some((0, 10, 100)), contrast: Some((0, 9, 50)), takes: (true, false) },
        Panel { brightness: None, contrast: Some((5, 5, 55)), takes: (true, true) },
    ];
    let after = [
        Panel { brightness: Some((0, 60, 100)), contrast: Some((0, 9, 50)), takes: (true, false) },
        Panel { brightness: None, contrast: Some((5, 25, 55)), takes: (true, true) },
    ];
    let first = drive(both(60, 40), &before).1.unwrap();
    let (actions, second) = drive(both(60, 40), &after);
    let writes: Vec<&DdcAction> =
        actions.iter().filter(|action| matches!(action, DdcAction::Write { .. })).collect();
    let refused = DdcAction::Write { monitor: 0, kind: LevelKind::Contrast, value: 20 };
    assert_eq!(writes, [&refused]);
    assert!(first.brightness_wrote && first.contrast_wrote);
    assert_eq!(
        second,
        Ok(ApplyResult { brightness_wrote: false, contrast_wrote: false, ..first })
    );
}

#[test]
fn levels_are_read_from_the_monitor_at_its_place() {
    let mut monitor = describe_monitor(1, "a".to_string(), false);
    monitor.physical_index = 1;
    assert_eq!(plan_level_read(&monitor, Ok(()), Ok(2)), Ok(Some(1)));
    assert_eq!(plan_level_read(&monitor, Ok(()), Ok(1)), Ok(None));
    assert_eq!(
        plan_level_read(&monitor, Err("gone".to_string()), Ok(2)),
        Err("DDC/CI error: gone".to_string())
    );
    assert_eq!(
        plan_level_read(&monitor, Ok(()), Err("none".to_string())),
        Err("Failed to get physical monitor(s): none".to_string())
    );
}

#[test]
fn physical_monitors_are_counted() {
    let none = Err("No physical monitors found".to_string());
    assert_eq!(enumerate_physical_monitors(None, true), none);
    assert_eq!(enumerate_physical_monitors(Some(0), true), none);
    assert_eq!(
        enumerate_physical_monitors(Some(2), false),
        Err("Failed to get physical monitors".to_string())
    );
    assert_eq!(enumerate_physical_monitors(Some(2), true), Ok(2));
}

#[test]
fn a_choice_is_committed_to_a_connected_monitor() {
    let mut monitors = vec![
        describe_monitor(1, "a".to_string(), false),
        describe_monitor(2, "b".to_string(), false),
    ];
    let request =
        ApplyRequest { brightness: 8, contrast: 8, apply_brightness: false, apply_contrast: true };
    assert_eq!(
        commit_level(&monitors, "b", LevelKind::Contrast, 8),
        Ok(CommitPlan { index: 1, request })
    );
    assert_eq!(
        commit_level(&monitors, "b", LevelKind::Contrast, 101),
        Err("Values must be between 0 and 100".to_string())
    );
    assert_eq!(
        commit_level(&monitors, "c", LevelKind::Contrast, 101),
        Err("The selected monitor is no longer connected".to_string())
    );
    let applied = Ok(ApplyResult {
        brightness_succeeded: true,
        contrast_succeeded: true,
        brightness_wrote: false,
        contrast_wrote: true,
    });
    let monitor = &mut monitors[1];
    assert_eq!(set_monitor_level(monitor, LevelKind::Contrast, 8, applied.clone()), Ok(true));
    assert_eq!((monitor.cached_brightness, monitor.cached_contrast), (None, Some(8)));
    assert_eq!(set_monitor_level(monitor, LevelKind::Brightness, 9, applied), Ok(false));
    assert_eq!((monitor.cached_brightness, monitor.cached_contrast), (Some(9), Some(8)));
}
