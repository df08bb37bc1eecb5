use xcreen::config::{AppConfig, ConfigFile, ConfigWrite, MonitorConfig};
use xcreen::monitor::{describe_monitor, MonitorInfo};

fn known(id: &str) -> MonitorConfig {
    MonitorConfig {
        id: id.into(),
        display_device: "DISPLAY1".into(),
        physical_index: 0,
        name: "Monitor".into(),
    }
}

fn connected(id: &str) -> MonitorInfo {
    let mut monitor = describe_monitor(1, id.to_string(), false);
    monitor.display_device = format!("device of {id}");
    monitor.physical_index = 3;
    monitor.name = format!("name of {id}");
    monitor
}

fn ids(config: &AppConfig) -> Vec<&str> {
    config.monitors.iter().map(|monitor| monitor.id.as_str()).collect()
}

#[test]
fn validates_monitor_ids() {
    let mut config = AppConfig::default();
    config.monitors.push(MonitorConfig {
        id: String::new(),
        display_device: "DISPLAY1".into(),
        physical_index: 0,
        name: "Monitor".into(),
    });
    assert!(config.validate().is_err());
}

#[test]
fn default_configuration_is_the_documented_one() {
    let config = AppConfig::default();
    assert!(!config.autostart_enabled);
    assert_eq!(config.last_brightness, 50);
    assert!(config.monitors.is_empty());
    assert_eq!(config.log_level, "warn");
    assert_eq!(config.validate(), Ok(()));
}

#[test]
fn every_fault_of_a_configuration_is_named() {
    let mut config = AppConfig::default();
    config.last_brightness = 101;
    assert_eq!(config.validate(), Err("Last brightness cannot exceed 100%".to_string()));
    config.monitors.push(known(" \t"));
    assert_eq!(config.validate(), Err("Monitor id cannot be empty".to_string()));
    config.monitors.clear();
    config.last_brightness = 100;
    config.log_level = "Warn".to_string();
    assert_eq!(
        config.validate(),
        Err("Invalid log level: 'Warn'. Must be one of: error, warn, info, debug".to_string())
    );
    for level in ["error", "warn", "info", "debug"] {
        config.log_level = level.to_string();
        assert_eq!(config.validate(), Ok(()));
    }
}

#[test]
fn merging_adds_each_new_monitor_once_and_in_order() {
    let mut config = AppConfig::default();
    config.monitors.push(known("b"));
    assert!(config.merge_connected_monitors(&[
        connected("c"),
        connected("b"),
        connected("a"),
        connected("c"),
    ]));
    assert_eq!(ids(&config), ["b", "c", "a"]);
    assert_eq!(config.monitors[0].name, "Monitor");
    assert_eq!(config.monitors[1].name, "name of c");
    assert_eq!(config.monitors[1].display_device, "device of c");
    assert_eq!(config.monitors[1].physical_index, 3);
}

#[test]
fn merging_again_changes_nothing() {
    let mut config = AppConfig::default();
    let monitors = [connected("a"), connected("b")];
    assert!(config.merge_connected_monitors(&monitors));
    assert!(!config.merge_connected_monitors(&monitors));
    assert!(!config.merge_connected_monitors(&[]));
    assert!(!config.merge_connected_monitors(&[connected("b"), connected("b")]));
    assert_eq!(ids(&config), ["a", "b"]);
    assert_eq!(config.validate(), Ok(()));
}

#[test]
fn a_first_run_begins_with_a_new_configuration() {
    let loaded = AppConfig::load("config.json", ConfigFile::Missing).unwrap();
    assert!(loaded.is_new);
    assert_eq!(loaded.config.log_level, "warn");
}

#[test]
fn a_kept_configuration_is_taken_up() {
    let mut config = AppConfig::default();
    config.last_brightness = 42;
    let loaded = AppConfig::load("config.json", ConfigFile::Parsed(config)).unwrap();
    assert!(!loaded.is_new);
    assert_eq!(loaded.config.last_brightness, 42);
}

#[test]
fn a_configuration_that_cannot_be_taken_up_is_explained() {
    let unreadable = AppConfig::load("c.json", ConfigFile::Unreadable("denied".to_string()));
    assert_eq!(unreadable.unwrap_err(), "Failed to read config file 'c.json': denied");
    let malformed = AppConfig::load("c.json", ConfigFile::Malformed("at line 1".to_string()));
    assert_eq!(
        malformed.unwrap_err(),
        "Failed to parse config file 'c.json': at line 1\n\nPlease check your JSON syntax or \
         delete the file to regenerate defaults."
    );
    let mut config = AppConfig::default();
    config.last_brightness = 200;
    let refused = AppConfig::load("c.json", ConfigFile::Parsed(config));
    assert_eq!(refused.unwrap_err(), "Last brightness cannot exceed 100%");
}

#[test]
fn a_copy_of_a_configuration_is_the_same() {
    let mut config = AppConfig::default();
    config.merge_connected_monitors(&[connected("a")]);
    let copy = config.clone();
    assert_eq!(format!("{config:?}"), format!("{copy:?}"));
}

#[test]
fn saving_can_fail_in_several_ways() {
    let config = AppConfig::default();
    assert_eq!(config.save(ConfigWrite::Written), Ok(()));
    assert_eq!(config.save(ConfigWrite::NoPath("where".into())), Err("where".to_string()));
    assert_eq!(
        config.save(ConfigWrite::NotSerialized("odd".into())),
        Err("Failed to serialize config: odd".to_string())
    );
    assert_eq!(
        config.save(ConfigWrite::NotWritten("full".into())),
        Err("Failed to write config file: full".to_string())
    );
    let mut invalid = config.clone();
    invalid.last_brightness = 101;
    assert_eq!(
        invalid.save(ConfigWrite::Written),
        Err("Last brightness cannot exceed 100%".to_string())
    );
}
