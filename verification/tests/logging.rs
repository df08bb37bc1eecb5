use std::io::Cursor;
use xcreen::config::AppConfig;
use xcreen::icon::load_icon;
use xcreen::logging::{
    apply_log_level, format_log_line, init_logger, level_enabled, parse_log_filter, LogFilter,
    LogLevel, LoggerSetup,
};
use xcreen::max_level::MaxLevel;
use xcreen::settings::{update_log_level, SettingOutcome};
use xcreen::snapshot::UiSnapshot;

#[test]
fn names_stand_for_filters_in_any_case() {
    assert_eq!(parse_log_filter("error"), LogFilter::Error);
    assert_eq!(parse_log_filter("Warn"), LogFilter::Warn);
    assert_eq!(parse_log_filter("INFO"), LogFilter::Info);
    assert_eq!(parse_log_filter("dEbUg"), LogFilter::Debug);
    assert_eq!(parse_log_filter("trace"), LogFilter::Warn);
    assert_eq!(parse_log_filter(""), LogFilter::Warn);
}

// The max level belongs to the whole process, so one test goes through everything that sets it.
#[test]
fn the_max_level_is_set_where_and_only_where_it_should_be() {
    let mut max_level = MaxLevel::new();
    assert_eq!(log::max_level(), log::LevelFilter::Off);

    // A logger that could not be set up leaves it alone.
    assert_eq!(
        init_logger("info", LoggerSetup::NotOpened("no file".to_string()), &mut max_level),
        Err("no file".to_string())
    );
    assert_eq!(
        init_logger("info", LoggerSetup::NotRegistered("taken".to_string()), &mut max_level),
        Err("Failed to set logger: taken".to_string())
    );
    assert_eq!(log::max_level(), log::LevelFilter::Off);

    // So does a change that was not saved.
    let mut config = AppConfig::default();
    let mut snapshot = UiSnapshot::empty(false);
    let none = vec![];
    let unsaved = SettingOutcome::NotSaved("disk full".to_string());
    let (c, s, m) = (&mut config, &mut snapshot, &mut max_level);
    assert!(!update_log_level(c, s, &none, false, "info", unsaved, m));
    assert_eq!(log::max_level(), log::LevelFilter::Off);

    // A logger that was set up goes by the level that is named.
    for (name, filter) in [
        ("error", log::LevelFilter::Error),
        ("Warn", log::LevelFilter::Warn),
        ("INFO", log::LevelFilter::Info),
        ("dEbUg", log::LevelFilter::Debug),
        ("trace", log::LevelFilter::Warn),
        ("", log::LevelFilter::Warn),
    ] {
        assert_eq!(init_logger(name, LoggerSetup::Registered, &mut max_level), Ok(()));
        assert_eq!(log::max_level(), filter, "{name}");
    }

    // A change that takes effect sets it, and so does a level that is applied.
    let (c, s, m) = (&mut config, &mut snapshot, &mut max_level);
    assert!(update_log_level(c, s, &none, false, "info", SettingOutcome::Done, m));
    assert_eq!(log::max_level(), log::LevelFilter::Info);
    assert_eq!((config.log_level.as_str(), snapshot.log_level.as_str()), ("info", "info"));
    apply_log_level("Debug", &mut max_level);
    assert_eq!(log::max_level(), log::LevelFilter::Debug);
    apply_log_level("\u{130}nfo", &mut max_level);
    assert_eq!(log::max_level(), log::LevelFilter::Warn);
}

#[test]
fn levels_pass_filters_as_in_the_log_crate() {
    let levels = [
        (LogLevel::Error, log::Level::Error),
        (LogLevel::Warn, log::Level::Warn),
        (LogLevel::Info, log::Level::Info),
        (LogLevel::Debug, log::Level::Debug),
        (LogLevel::Trace, log::Level::Trace),
    ];
    let filters = [
        (LogFilter::Off, log::LevelFilter::Off),
        (LogFilter::Error, log::LevelFilter::Error),
        (LogFilter::Warn, log::LevelFilter::Warn),
        (LogFilter::Info, log::LevelFilter::Info),
        (LogFilter::Debug, log::LevelFilter::Debug),
        (LogFilter::Trace, log::LevelFilter::Trace),
    ];
    for (level, theirs) in levels {
        for (filter, their_filter) in filters {
            assert_eq!(level_enabled(level, filter), theirs <= their_filter);
        }
    }
}

#[test]
fn log_lines_name_level_target_and_thread() {
    assert_eq!(
        format_log_line(LogLevel::Warn, "xcreen", Some("worker"), "late"),
        "[WARN] xcreen [worker] late\n"
    );
    assert_eq!(format_log_line(LogLevel::Trace, "t", None, ""), "[TRACE] t [main] \n");
    assert_eq!(format_log_line(LogLevel::Error, "", Some(""), "x"), "[ERROR]  [] x\n");
    assert_eq!(format_log_line(LogLevel::Info, "a", None, "b"), "[INFO] a [main] b\n");
    assert_eq!(format_log_line(LogLevel::Debug, "a", None, "b"), "[DEBUG] a [main] b\n");
}

#[test]
fn an_icon_is_decoded_to_its_pixels() {
    let mut picture = image::RgbaImage::new(2, 1);
    picture.put_pixel(0, 0, image::Rgba([1, 2, 3, 4]));
    picture.put_pixel(1, 0, image::Rgba([5, 6, 7, 255]));
    let mut file = Cursor::new(Vec::new());
    picture.write_to(&mut file, image::ImageFormat::Png).unwrap();
    let icon = load_icon(&file.into_inner()).unwrap();
    assert_eq!((icon.width, icon.height), (2, 1));
    assert_eq!(icon.rgba, [1, 2, 3, 4, 5, 6, 7, 255]);
}

#[test]
fn bytes_that_are_no_image_are_refused() {
    let mut cut = Cursor::new(Vec::new());
    image::RgbaImage::new(4, 4).write_to(&mut cut, image::ImageFormat::Png).unwrap();
    let mut cut = cut.into_inner();
    cut.truncate(40);
    for bytes in [vec![], vec![1, 2, 3, 4, 5, 6, 7, 8, 9], cut] {
        let said = image::load_from_memory_with_format(&bytes, image::ImageFormat::Png)
            .unwrap_err()
            .to_string();
        assert_eq!(load_icon(&bytes).unwrap_err(), said);
        assert!(!said.is_empty());
    }
}
