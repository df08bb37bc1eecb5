//! What the flyout is made of.

use crate::monitor::MonitorLevels;
use crate::snapshot::{ActiveView, UiSnapshot};
use crate::text::{same_text, to_lowercase};
use vstd::prelude::*;
use vstd::string::*;

verus! {

/// The width of a page, in units of which an inch has 96.
pub const PAGE_WIDTH: i32 = 328;

/// The room between the two pages.
pub const PAGE_GAP: i32 = 40;

/// What the page of a monitor shows below its heading.
#[derive(Clone, Copy, Debug, PartialEq, Eq, Structural)]
pub enum Controls {
    /// The levels are still being read.
    Reading,
    /// The sliders stand at these levels.
    Sliders(MonitorLevels),
    /// The levels are not known.
    Unavailable,
}

/// The page of a monitor.
#[derive(Debug)]
pub struct MonitorPage {
    pub heading: String,
    /// The buttons that lead to the other monitors work.
    pub navigation_enabled: bool,
    pub controls: Controls,
}

/// What the flyout is made of.
#[derive(Debug)]
pub struct FlyoutModel {
    /// The page of the selected monitor; there is none where no monitor is connected.
    pub page: Option<MonitorPage>,
    pub autostart_enabled: bool,
    /// The place of the log level in the list of levels.
    pub log_level_index: i32,
    /// The monitors are being looked for, so the button for it gives way.
    pub refreshing: bool,
    /// The monitor that the light around it can be applied to.
    pub ambient_monitor: Option<String>,
    pub ambient_enabled: bool,
    pub ambient_tooltip: String,
    pub error: Option<String>,
    /// How far the two pages, which stand side by side, are shifted.
    pub left_margin: i32,
    pub main_shown: bool,
    pub settings_shown: bool,
}

/// The heading of a monitor's page.
pub open spec fn heading(monitor: crate::snapshot::UiMonitorView) -> Seq<char> {
    if monitor.is_primary {
        monitor.name + " (Primary)"@
    } else {
        monitor.name
    }
}

/// What the page of the selected monitor shows below its heading.
pub open spec fn controls(snapshot: crate::snapshot::SnapshotView) -> Controls {
    match snapshot.levels {
        Some(levels) => Controls::Sliders(levels),
        None => if snapshot.loading {
            Controls::Reading
        } else {
            Controls::Unavailable
        },
    }
}

/// The place of a level, by its name in lower case, in the list of levels; any other name goes by
/// the place of warnings.
pub open spec fn index_of_level(name: Seq<char>) -> int {
    if name == "error"@ {
        0
    } else if name == "warn"@ {
        1
    } else if name == "info"@ {
        2
    } else if name == "debug"@ {
        3
    } else {
        1
    }
}

/// The name of the level at a place of the list; outside the list it is that of warnings.
pub open spec fn level_at(index: int) -> Seq<char> {
    if index == 0 {
        "error"@
    } else if index == 1 {
        "warn"@
    } else if index == 2 {
        "info"@
    } else if index == 3 {
        "debug"@
    } else {
        "warn"@
    }
}

/// The place of a level, by its name in lower case, in the list of levels.
pub fn index_for_name(name: &str) -> (index: i32)
    ensures
        index == index_of_level(name@),
{
    if same_text(name, "error") {
        0
    } else if same_text(name, "warn") {
        1
    } else if same_text(name, "info") {
        2
    } else if same_text(name, "debug") {
        3
    } else {
        1
    }
}

/// The place of a level, by its name in whatever case, in the list of levels.
pub fn log_level_index(log_level: &str) -> (index: i32)
    ensures
        index == index_of_level(crate::text::lowercase(log_level@)),
        crate::text::ascii(log_level@) ==> index == index_of_level(
            log_level@.map_values(|c: char| crate::text::ascii_lower(c)),
        ),
{
    let lower = to_lowercase(log_level);
    index_for_name(lower.as_str())
}

/// The name of the level at a place of the list.
pub fn log_level_at(index: i32) -> (name: &'static str)
    ensures
        name@ == level_at(index as int),
{
    match index {
        0 => "error",
        1 => "warn",
        2 => "info",
        3 => "debug",
        _ => "warn",
    }
}

/// What the flyout is made of while it shows a snapshot.
pub fn flyout_model(snapshot: &UiSnapshot) -> (model: FlyoutModel)
    requires
        snapshot@.monitors.len() == 0 || snapshot@.selected < snapshot@.monitors.len(),
    ensures
        match model.page {
            Some(page) => {
                &&& snapshot@.monitors.len() > 0
                &&& page.heading@ == heading(snapshot@.monitors[snapshot@.selected as int])
                &&& page.navigation_enabled == (snapshot@.monitors.len() > 1 && !snapshot@.loading)
                &&& page.controls == controls(snapshot@)
            },
            None => snapshot@.monitors.len() == 0,
        },
        model.autostart_enabled == snapshot@.autostart_enabled,
        model.log_level_index == index_of_level(crate::text::lowercase(snapshot@.log_level)),
        crate::text::ascii(snapshot@.log_level) ==> model.log_level_index == index_of_level(
            snapshot@.log_level.map_values(|c: char| crate::text::ascii_lower(c)),
        ),
        model.refreshing == snapshot@.refreshing,
        crate::text::option_view(model.ambient_monitor) == snapshot@.selected_id(),
        model.ambient_enabled == (snapshot@.ambient_available && snapshot@.selected_id() is Some),
        model.ambient_tooltip@ == if snapshot@.ambient_available {
            "Set from ambient light"@
        } else {
            "No ambient light sensor is available"@
        },
        crate::text::option_view(model.error) == snapshot@.error,
        model.left_margin == if snapshot@.current_view == ActiveView::Settings {
            -368int
        } else {
            0int
        },
        model.main_shown == (snapshot@.current_view == ActiveView::Main),
        model.settings_shown == (snapshot@.current_view == ActiveView::Settings),
{
    let page = match snapshot.selected_monitor() {
        None => None,
        Some(monitor) => {
            let heading = if monitor.is_primary {
                monitor.name.clone().concat(" (Primary)")
            } else {
                monitor.name.clone()
            };
            let controls = match snapshot.levels {
                Some(levels) => Controls::Sliders(levels),
                None => if snapshot.loading {
                    Controls::Reading
                } else {
                    Controls::Unavailable
                },
            };
            Some(
                MonitorPage {
                    heading,
                    navigation_enabled: snapshot.monitors.len() > 1 && !snapshot.loading,
                    controls,
                },
            )
        },
    };
    let ambient_monitor = snapshot.selected_id();
    let ambient_enabled = snapshot.ambient_available && ambient_monitor.is_some();
    let ambient_tooltip = if snapshot.ambient_available {
        "Set from ambient light".to_owned()
    } else {
        "No ambient light sensor is available".to_owned()
    };
    let error = match &snapshot.error {
        Some(error) => Some(error.clone()),
        None => None,
    };
    let settings_shown = snapshot.current_view == ActiveView::Settings;
    let left_margin: i32 = if settings_shown {
        -(PAGE_WIDTH + PAGE_GAP)
    } else {
        0
    };
    FlyoutModel {
        page,
        autostart_enabled: snapshot.autostart_enabled,
        log_level_index: log_level_index(snapshot.log_level.as_str()),
        refreshing: snapshot.refreshing,
        ambient_monitor,
        ambient_enabled,
        ambient_tooltip,
        error,
        left_margin,
        main_shown: snapshot.current_view == ActiveView::Main,
        settings_shown,
    }
}

/// Every level that the list offers is one that the configuration takes, and stands at the place
/// where it was chosen.
pub proof fn listed_levels_are_configurable(index: int)
    ensures
        crate::config::log_level_name(level_at(index)),
        0 <= index <= 3 ==> index_of_level(level_at(index)) == index,
{
    reveal_strlit("error");
    reveal_strlit("warn");
    reveal_strlit("info");
    reveal_strlit("debug");
    assert("error"@.len() == 5 && "warn"@.len() == 4 && "info"@.len() == 4 && "debug"@.len() == 5);
    assert("error"@[0] == 'e' && "debug"@[0] == 'd' && "warn"@[0] == 'w' && "info"@[0] == 'i');
}

/// A level that the configuration takes stands in the list under its own name.
pub proof fn configured_level_is_listed(name: Seq<char>)
    requires
        crate::config::log_level_name(name),
    ensures
        level_at(index_of_level(name)) == name,
{
}

/// A monitor's page is headed by its name, and says so where the monitor is a primary one.
pub proof fn headings_name_the_monitor(monitor: crate::snapshot::UiMonitorView)
    ensures
        monitor.is_primary ==> heading(monitor) == monitor.name + " (Primary)"@,
        !monitor.is_primary ==> heading(monitor) == monitor.name,
{
}

/// Levels that are known are shown by the sliders, also while they are read again; levels that are
/// not known are shown as being read exactly while something is under way.
pub proof fn known_levels_have_sliders(snapshot: crate::snapshot::SnapshotView)
    ensures
        match controls(snapshot) {
            Controls::Sliders(levels) => snapshot.levels == Some(levels),
            Controls::Reading => snapshot.levels is None && snapshot.loading,
            Controls::Unavailable => snapshot.levels is None && !snapshot.loading,
        },
{
}

/// The list holds the four levels, from errors to debugging; what it does not hold goes by warnings.
pub proof fn list_of_levels(index: int, name: Seq<char>)
    ensures
        level_at(0) == "error"@,
        level_at(1) == "warn"@,
        level_at(2) == "info"@,
        level_at(3) == "debug"@,
        index < 0 || index > 3 ==> level_at(index) == "warn"@,
        index_of_level("error"@) == 0,
        index_of_level("warn"@) == 1,
        index_of_level("info"@) == 2,
        index_of_level("debug"@) == 3,
        name != "error"@ && name != "warn"@ && name != "info"@ && name != "debug"@
            ==> index_of_level(name) == 1,
{
    listed_levels_are_configurable(0);
    listed_levels_are_configurable(1);
    listed_levels_are_configurable(2);
    listed_levels_are_configurable(3);
}

} // verus!
