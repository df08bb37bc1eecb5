use xcreen::ddc::LevelKind;
use xcreen::flyout::{
    calculate_flyout_position, effective_dpi, flyout_size, hides_flyout, menu_command,
    position_flyout, scale_dip, take_pending, toggle_flyout, tray_click, FlyoutAction, MenuCommand,
    Placement, Rect, Tick,
};
use xcreen::snapshot::PendingCommit;
use xcreen::watcher::is_config_change;
use xcreen::window::{
    after_open, after_open_as, autostart_command, closes_tray_menu, current_thread_window,
    find_flyout_window, flyout_extended_style, flyout_style, OpenOutcome, ThreadWindow, WindowInfo,
};

const UP: Tick =
    Tick { left_button_down: false, visible: true, escape_down: false, in_foreground: true };

#[test]
fn flyout_anchors_to_bottom_right_with_padding() {
    let screen = Rect { left: 0, top: 0, right: 1920, bottom: 1080 };
    let (left, top) = calculate_flyout_position(screen, 360, 520, 8);
    assert_eq!(left, 1920 - 360 - 8);
    assert_eq!(top, 1080 - 520 - 8);

    // Test clamping (e.g. if width/height is larger than screen size)
    let (left_clamp, top_clamp) = calculate_flyout_position(screen, 2000, 1200, 8);
    assert_eq!(left_clamp, 0);
    assert_eq!(top_clamp, 0);
}

#[test]
fn a_gap_without_room_is_given_up() {
    let screen = Rect { left: 100, top: 0, right: 465, bottom: 300 };
    assert_eq!(calculate_flyout_position(screen, 360, 280, 12), (100, 8));
}

#[test]
fn units_scale_with_the_resolution() {
    for dpi in [96u32, 97, 120, 144, 192, 217, 240, 1000, 4_000_000_000, u32::MAX] {
        for dip in [360u32, 280, 12] {
            let expected = (dip as f64 * dpi as f64 / 96.0).round() as i32;
            assert_eq!(scale_dip(dip, dpi), expected, "{dip} at {dpi}");
        }
    }
    assert_eq!(flyout_size(144), (540, 420));
    assert_eq!(effective_dpi(None), 96);
    assert_eq!(effective_dpi(Some(72)), 96);
    assert_eq!(effective_dpi(Some(120)), 120);
}

#[test]
fn the_flyout_is_placed_as_large_as_it_became() {
    let screen = Rect { left: 0, top: 0, right: 1920, bottom: 1080 };
    let window = Rect { left: 50, top: 60, right: 450, bottom: 360 };
    assert_eq!(
        position_flyout(screen, window, 96),
        Some(Placement { x: 1508, y: 768, width: 400, height: 300 })
    );
    let endless = Rect { left: i32::MIN, top: 0, right: i32::MAX, bottom: 10 };
    assert_eq!(position_flyout(screen, endless, 96), None);
}

#[test]
fn clicks_come_and_go() {
    assert_eq!(toggle_flyout(false, false), FlyoutAction::Nothing);
    assert_eq!(toggle_flyout(true, true), FlyoutAction::Hide);
    assert_eq!(toggle_flyout(true, false), FlyoutAction::Show);
    assert_eq!(tray_click(true, true, true, false), FlyoutAction::Show);
    assert_eq!(tray_click(false, true, true, false), FlyoutAction::Nothing);
    assert_eq!(tray_click(true, false, true, false), FlyoutAction::Nothing);
    assert_eq!(menu_command("open"), Some(MenuCommand::Open));
    assert_eq!(menu_command("refresh"), Some(MenuCommand::Refresh));
    assert_eq!(menu_command("exit"), Some(MenuCommand::Exit));
    assert_eq!(menu_command("Open"), None);
}

#[test]
fn a_choice_is_written_once_the_button_is_up() {
    let commit = || PendingCommit { monitor_id: "a".into(), kind: LevelKind::Contrast, value: 9 };
    let mut pending = Some(commit());
    assert_eq!(take_pending(&mut pending, Tick { left_button_down: true, ..UP }), None);
    assert_eq!(pending, Some(commit()));
    assert_eq!(take_pending(&mut pending, UP), Some(commit()));
    assert_eq!(take_pending(&mut pending, UP), None);
}

#[test]
fn the_flyout_hides_when_left() {
    assert!(!hides_flyout(UP));
    assert!(hides_flyout(Tick { escape_down: true, ..UP }));
    assert!(hides_flyout(Tick { in_foreground: false, ..UP }));
    assert!(!hides_flyout(Tick { visible: false, escape_down: true, ..UP }));
}

fn window(handle: isize, title: &str, class_name: &str) -> WindowInfo {
    WindowInfo { handle, title: title.into(), class_name: class_name.into() }
}

#[test]
fn the_flyout_is_found_among_the_windows() {
    let helper = || window(1, "", "WinUI InputNonClientPointerSource");
    let bridge = || window(2, "", "DesktopWindowTreeSource.1");
    let other = || window(3, "x", "Other");
    let flyout = || window(4, "XCreenFlyout", "DesktopWindowTreeSource");
    assert_eq!(find_flyout_window(&vec![]), None);
    assert_eq!(find_flyout_window(&vec![helper(), bridge()]), None);
    assert_eq!(find_flyout_window(&vec![helper(), other(), window(5, "", "")]), Some(3));
    assert_eq!(find_flyout_window(&vec![other(), helper(), flyout()]), Some(4));
    assert_eq!(find_flyout_window(&vec![window(0, "", ""), other()]), Some(3));
    assert_eq!(find_flyout_window(&vec![other(), window(0, "XCreenFlyout", "")]), None);
}

#[test]
fn windows_are_read_as_the_system_describes_them() {
    let units = |text: &str| text.encode_utf16().collect::<Vec<u16>>();
    let raw = |handle: isize, title: &str, class_name: &str| ThreadWindow {
        handle,
        title: units(title),
        class_name: units(class_name),
    };
    let windows = vec![
        raw(1, "", "InputNonClientPointerSource"),
        raw(2, "\u{1d11e}", "Other"),
        raw(3, "XCreenFlyout", ""),
    ];
    assert_eq!(current_thread_window(&windows), Some(3));
    assert_eq!(current_thread_window(&vec![raw(2, "\u{1d11e}", "Other")]), Some(2));
}

#[test]
fn the_flyout_has_no_frame_and_no_task_bar_button() {
    assert_eq!(flyout_style(0xffff_ffff), 0xff30_ffff);
    assert_eq!(flyout_style(0x1000_0000), 0x1000_0000);
    assert_eq!(flyout_extended_style(0x0004_0008), 0x0000_0088);
}

#[test]
fn only_a_menu_of_the_program_is_closed() {
    assert!(closes_tray_menu(5, 10, 10));
    assert!(!closes_tray_menu(5, 10, 11));
    assert!(!closes_tray_menu(0, 10, 10));
}

#[test]
fn opening_the_configuration_file_can_fail() {
    assert!(matches!(after_open(33), OpenOutcome::Opened));
    assert!(matches!(after_open(31), OpenOutcome::AskForProgram));
    match after_open(2) {
        OpenOutcome::Failed(said) => {
            assert_eq!(said, "Failed to open config file: ShellExecuteW(open) returned 2");
        }
        other => panic!("{other:?}"),
    }
    assert_eq!(after_open_as(42), Ok(()));
    assert_eq!(
        after_open_as(32),
        Err("Failed to open config file: ShellExecuteW(openas) returned 32".to_string())
    );
}

#[test]
fn the_autostart_command_is_quoted() {
    assert_eq!(autostart_command("C:\\X Y\\XCreen.exe"), "\"C:\\X Y\\XCreen.exe\"");
}

#[test]
fn only_the_configuration_file_is_watched() {
    let names = |all: &[&str]| all.iter().map(|n| Some(n.to_string())).collect::<Vec<_>>();
    assert!(is_config_change(true, &names(&["XCreen.log", "config.json"])));
    assert!(!is_config_change(false, &names(&["config.json"])));
    assert!(!is_config_change(true, &names(&["Config.json"])));
    assert!(!is_config_change(true, &vec![None]));
}
