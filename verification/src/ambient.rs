//! Levels that suit the light around the monitor.

use crate::monitor::{find_monitor, MonitorInfo, MonitorLevels};
use vstd::prelude::*;
use vstd::string::*;

verus! {

/// What the ambient light sensor says.
#[derive(Debug)]
pub enum AmbientReading {
    /// There is no sensor.
    NoSensor,
    /// The sensor could not be read; the text says why.
    Failed(String),
    /// The light, in whole lux.
    Lux(u64),
}

/// The levels to set, and the place of the monitor to set them on.
#[derive(Clone, Copy, Debug, PartialEq, Eq, Structural)]
pub struct AmbientTarget {
    pub index: usize,
    pub levels: MonitorLevels,
}

/// The levels that suit this much light.
pub open spec fn suited(lux: int) -> MonitorLevels {
    if lux < 10 {
        MonitorLevels { brightness: 20, contrast: 40 }
    } else if lux < 50 {
        MonitorLevels { brightness: 30, contrast: 45 }
    } else if lux < 100 {
        MonitorLevels { brightness: 40, contrast: 55 }
    } else if lux < 200 {
        MonitorLevels { brightness: 50, contrast: 65 }
    } else if lux < 500 {
        MonitorLevels { brightness: 65, contrast: 75 }
    } else if lux < 1000 {
        MonitorLevels { brightness: 80, contrast: 85 }
    } else {
        MonitorLevels { brightness: 100, contrast: 95 }
    }
}

/// The levels that suit this much light.
pub fn ambient_levels(lux: u64) -> (levels: MonitorLevels)
    ensures
        levels == suited(lux as int),
{
    if lux < 10 {
        MonitorLevels { brightness: 20, contrast: 40 }
    } else if lux < 50 {
        MonitorLevels { brightness: 30, contrast: 45 }
    } else if lux < 100 {
        MonitorLevels { brightness: 40, contrast: 55 }
    } else if lux < 200 {
        MonitorLevels { brightness: 50, contrast: 65 }
    } else if lux < 500 {
        MonitorLevels { brightness: 65, contrast: 75 }
    } else if lux < 1000 {
        MonitorLevels { brightness: 80, contrast: 85 }
    } else {
        MonitorLevels { brightness: 100, contrast: 95 }
    }
}

/// What to set on the monitor with an id, given what the sensor says.
pub fn apply_ambient(
    reading: AmbientReading,
    monitors: &Vec<MonitorInfo>,
    monitor_id: &str,
) -> (target: Result<AmbientTarget, String>)
    ensures
        match reading {
            AmbientReading::NoSensor => target matches Err(said) && said@
                == "No ambient light sensor is available"@,
            AmbientReading::Failed(error) => target matches Err(said) && said@ == error@,
            AmbientReading::Lux(lux) => match target {
                Ok(target) => {
                    &&& target.levels == suited(lux as int)
                    &&& target.index < monitors@.len()
                    &&& monitors@[target.index as int]@.id == monitor_id@
                    &&& forall|j: int|
                        0 <= j < target.index ==> (#[trigger] monitors@[j])@.id != monitor_id@
                },
                Err(said) => {
                    &&& said@ == "The selected monitor is no longer connected"@
                    &&& forall|j: int|
                        0 <= j < monitors@.len() ==> (#[trigger] monitors@[j])@.id != monitor_id@
                },
            },
        },
{
    match reading {
        AmbientReading::NoSensor => Err("No ambient light sensor is available".to_owned()),
        AmbientReading::Failed(error) => Err(error),
        AmbientReading::Lux(lux) => match find_monitor(monitors, monitor_id) {
            Err(error) => Err(error),
            Ok(index) => Ok(AmbientTarget { index, levels: ambient_levels(lux) }),
        },
    }
}

/// More light never suits lower levels.
pub proof fn suited_monotone(darker: int, brighter: int)
    requires
        darker <= brighter,
    ensures
        suited(darker).brightness <= suited(brighter).brightness,
        suited(darker).contrast <= suited(brighter).contrast,
{
}

/// The levels that suit some light are never refused by a monitor for not being percentages.
pub proof fn suited_is_accepted(lux: int, monitor: crate::monitor::MonitorView)
    ensures
        crate::monitor::needed(
            monitor,
            suited(lux).brightness,
            suited(lux).contrast,
        ) is Ok,
{
}

/// Each band of light has its levels, from the first lux of the band to the last.
pub proof fn bands_of_light(lux: int)
    ensures
        lux < 10 ==> suited(lux).brightness == 20 && suited(lux).contrast == 40,
        10 <= lux < 50 ==> suited(lux).brightness == 30 && suited(lux).contrast == 45,
        50 <= lux < 100 ==> suited(lux).brightness == 40 && suited(lux).contrast == 55,
        100 <= lux < 200 ==> suited(lux).brightness == 50 && suited(lux).contrast == 65,
        200 <= lux < 500 ==> suited(lux).brightness == 65 && suited(lux).contrast == 75,
        500 <= lux < 1000 ==> suited(lux).brightness == 80 && suited(lux).contrast == 85,
        1000 <= lux ==> suited(lux).brightness == 100 && suited(lux).contrast == 95,
{
}

} // verus!
