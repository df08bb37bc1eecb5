//! Changes of the configuration and of the list of monitors while the program runs.

use crate::config::AppConfig;
use crate::logging::apply_log_level;
use crate::max_level::MaxLevel;
use crate::monitor::MonitorInfo;
use crate::snapshot::UiSnapshot;
use vstd::prelude::*;
use vstd::string::*;

verus! {

/// What became of a change of the configuration outside the program.
#[derive(Debug)]
pub enum SettingOutcome {
    /// The configuration could not be saved; the text says why.
    NotSaved(String),
    /// The configuration was saved, but the system did not take the change; the text says why.
    NotApplied(String),
    Done,
}

/// How to go on once the monitors have been looked for.
#[derive(Debug)]
pub enum RefreshStep {
    /// The configuration has changed and is to be saved first.
    Save,
    /// Nothing is to be saved.
    Replace,
    /// The configuration cannot be kept; the text says why.
    Failed(String),
}

/// Why a change does not take effect, if it does not.
pub open spec fn setback(
    candidate: crate::config::ConfigView,
    outcome: SettingOutcome,
) -> Option<Seq<char>> {
    match (candidate.fault(), outcome) {
        (Some(fault), _) => Some(fault),
        (None, SettingOutcome::NotSaved(error)) => Some(error@),
        (None, SettingOutcome::NotApplied(error)) => Some(error@),
        (None, SettingOutcome::Done) => None,
    }
}

/// The configuration with autostart switched on or off.
pub fn with_autostart(config: &AppConfig, enable: bool) -> (candidate: AppConfig)
    ensures
        candidate@ == (crate::config::ConfigView { autostart_enabled: enable, ..config@ }),
{
    let mut candidate = config.clone();
    candidate.autostart_enabled = enable;
    candidate
}

/// The configuration with another log level.
pub fn with_log_level(config: &AppConfig, level: &str) -> (candidate: AppConfig)
    ensures
        candidate@ == (crate::config::ConfigView { log_level: level@, ..config@ }),
{
    let mut candidate = config.clone();
    candidate.log_level = level.to_owned();
    candidate
}

/// Takes up a changed configuration, or shows why it cannot be taken up. Returns whether it was.
fn settle(
    config: &mut AppConfig,
    snapshot: &mut UiSnapshot,
    monitors: &Vec<MonitorInfo>,
    ambient_available: bool,
    candidate: AppConfig,
    outcome: SettingOutcome,
) -> (adopted: bool)
    ensures
        match setback(candidate@, outcome) {
            Some(error) => {
                &&& !adopted
                &&& final(config)@ == old(config)@
                &&& final(snapshot)@ == (crate::snapshot::SnapshotView {
                    error: Some(error),
                    ..old(snapshot)@
                })
            },
            None => {
                &&& adopted
                &&& final(config)@ == candidate@
                &&& final(snapshot)@ == old(snapshot)@.refreshed(
                    crate::monitor::monitor_views(monitors@),
                    candidate@,
                    ambient_available,
                    None,
                )
            },
        },
        adopted || old(snapshot)@.wf() ==> final(snapshot)@.wf(),
{
    match candidate.validate() {
        Err(fault) => {
            snapshot.report_error(fault);
            false
        },
        Ok(()) => match outcome {
            SettingOutcome::NotSaved(error) => {
                snapshot.report_error(error);
                false
            },
            SettingOutcome::NotApplied(error) => {
                snapshot.report_error(error);
                false
            },
            SettingOutcome::Done => {
                *config = candidate;
                snapshot.refresh_snapshot_from_state(monitors, config, ambient_available, None);
                true
            },
        },
    }
}

/// Switches autostart on or off, where saving [`with_autostart`] and telling the system had this
/// outcome. A change that does not take effect is shown as an error and leaves the configuration
/// as it was.
pub fn update_autostart(
    config: &mut AppConfig,
    snapshot: &mut UiSnapshot,
    monitors: &Vec<MonitorInfo>,
    ambient_available: bool,
    enable: bool,
    outcome: SettingOutcome,
) -> (adopted: bool)
    ensures
        ({
            let candidate = crate::config::ConfigView {
                autostart_enabled: enable,
                ..old(config)@
            };
            match setback(candidate, outcome) {
                Some(error) => {
                    &&& !adopted
                    &&& final(config)@ == old(config)@
                    &&& final(snapshot)@ == (crate::snapshot::SnapshotView {
                        error: Some(error),
                        ..old(snapshot)@
                    })
                },
                None => {
                    &&& adopted
                    &&& final(config)@ == candidate
                    &&& final(snapshot)@ == old(snapshot)@.refreshed(
                        crate::monitor::monitor_views(monitors@),
                        candidate,
                        ambient_available,
                        None,
                    )
                },
            }
        }),
        adopted || old(snapshot)@.wf() ==> final(snapshot)@.wf(),
{
    let candidate = with_autostart(config, enable);
    settle(config, snapshot, monitors, ambient_available, candidate, outcome)
}

/// Changes the log level, where saving [`with_log_level`] had this outcome, and makes it the one
/// that is logged at. A change that does not take effect is shown as an error and leaves the
/// configuration and the max level as they were.
pub fn update_log_level(
    config: &mut AppConfig,
    snapshot: &mut UiSnapshot,
    monitors: &Vec<MonitorInfo>,
    ambient_available: bool,
    level: &str,
    outcome: SettingOutcome,
    max_level: &mut MaxLevel,
) -> (adopted: bool)
    ensures
        ({
            let candidate = crate::config::ConfigView { log_level: level@, ..old(config)@ };
            match setback(candidate, outcome) {
                Some(error) => {
                    &&& !adopted
                    &&& final(max_level)@ == old(max_level)@
                    &&& final(config)@ == old(config)@
                    &&& final(snapshot)@ == (crate::snapshot::SnapshotView {
                        error: Some(error),
                        ..old(snapshot)@
                    })
                },
                None => {
                    &&& adopted
                    &&& final(max_level)@ == Some(crate::logging::named_filter(level@))
                    &&& final(config)@ == candidate
                    &&& final(snapshot)@ == old(snapshot)@.refreshed(
                        crate::monitor::monitor_views(monitors@),
                        candidate,
                        ambient_available,
                        None,
                    )
                },
            }
        }),
        adopted || old(snapshot)@.wf() ==> final(snapshot)@.wf(),
{
    let candidate = with_log_level(config, level);
    if settle(config, snapshot, monitors, ambient_available, candidate, outcome) {
        proof {
            crate::logging::configured_names_are_lower_case(level@);
        }
        apply_log_level(level, max_level);
        true
    } else {
        false
    }
}

/// Adds the monitors that were found to the configuration, and says how to go on.
pub fn plan_monitor_refresh(config: &mut AppConfig, found: &Vec<MonitorInfo>) -> (step:
    RefreshStep)
    ensures
        final(config)@ == (crate::config::ConfigView {
            monitors: crate::config::merged(
                old(config)@.monitors,
                crate::monitor::monitor_views(found@),
            ),
            ..old(config)@
        }),
        match step {
            RefreshStep::Replace => final(config)@.monitors == old(config)@.monitors,
            RefreshStep::Save => final(config)@.monitors != old(config)@.monitors
                && final(config)@.valid(),
            RefreshStep::Failed(fault) => final(config)@.monitors != old(config)@.monitors
                && final(config)@.fault() == Some(fault@),
        },
{
    if !config.merge_connected_monitors(found.as_slice()) {
        return RefreshStep::Replace;
    }
    match config.validate() {
        Ok(()) => RefreshStep::Save,
        Err(fault) => RefreshStep::Failed(fault),
    }
}

/// Takes up the monitors that were found, unless the configuration could not be saved.
pub fn refresh_monitors_sync(
    monitors: &mut Vec<MonitorInfo>,
    found: Vec<MonitorInfo>,
    saved: Result<(), String>,
) -> (refreshed: Result<(), String>)
    ensures
        match saved {
            Ok(()) => refreshed is Ok && final(monitors)@ == found@,
            Err(error) => refreshed matches Err(said) && said@ == error@ && final(monitors)@
                == old(monitors)@,
        },
{
    match saved {
        Ok(()) => {
            *monitors = found;
            Ok(())
        },
        Err(error) => Err(error),
    }
}

/// Takes up a configuration that was changed from outside the program. The connected monitors that
/// it does not know of are added to it; returns whether there were any, so that it is to be saved.
pub fn reload_config(
    config: &mut AppConfig,
    snapshot: &mut UiSnapshot,
    monitors: &Vec<MonitorInfo>,
    ambient_available: bool,
    found: AppConfig,
) -> (saves: bool)
    ensures
        final(config)@ == (crate::config::ConfigView {
            monitors: crate::config::merged(
                found@.monitors,
                crate::monitor::monitor_views(monitors@),
            ),
            ..found@
        }),
        final(snapshot)@ == old(snapshot)@.refreshed(
            crate::monitor::monitor_views(monitors@),
            final(config)@,
            ambient_available,
            None,
        ),
        final(snapshot)@.wf(),
        saves == (final(config)@.monitors != found@.monitors),
{
    let mut merged = found;
    let saves = merged.merge_connected_monitors(monitors.as_slice());
    *config = merged;
    snapshot.refresh_snapshot_from_state(monitors, config, ambient_available, None);
    saves
}

/// A configuration that is taken up can be kept: a change takes effect only where the changed
/// configuration is valid, was saved, and was taken by the system.
pub proof fn adopted_configurations_are_valid(
    candidate: crate::config::ConfigView,
    outcome: SettingOutcome,
)
    ensures
        setback(candidate, outcome) is None <==> candidate.valid() && outcome is Done,
{
}

/// A configuration that was changed from outside is saved at most once: when what was saved is
/// found again, nothing is left to be added, so it is not saved again.
pub proof fn reload_saves_once(
    found: crate::config::ConfigView,
    connected: Seq<crate::monitor::MonitorView>,
)
    ensures
        ({
            let saved = crate::config::ConfigView {
                monitors: crate::config::merged(found.monitors, connected),
                ..found
            };
            crate::config::merged(saved.monitors, connected) == saved.monitors
        }),
{
    crate::config::merged_twice(found.monitors, connected);
}

/// Why a change does not take effect: what is wrong with the changed configuration comes first, then
/// why it was not saved, or why the system did not take it.
pub proof fn setbacks_are_named(candidate: crate::config::ConfigView, error: String)
    ensures
        !candidate.valid() ==> {
            &&& setback(candidate, SettingOutcome::Done) == candidate.fault()
            &&& setback(candidate, SettingOutcome::NotSaved(error)) == candidate.fault()
            &&& setback(candidate, SettingOutcome::NotApplied(error)) == candidate.fault()
        },
        candidate.valid() ==> {
            &&& setback(candidate, SettingOutcome::Done) is None
            &&& setback(candidate, SettingOutcome::NotSaved(error)) == Some(error@)
            &&& setback(candidate, SettingOutcome::NotApplied(error)) == Some(error@)
        },
{
}

} // verus!
