//! What the flyout shows, and how it changes.

use crate::config::AppConfig;
use crate::ddc::LevelKind;
use crate::monitor::{MonitorInfo, MonitorLevels};
use crate::text::same_text;
use vstd::prelude::*;
use vstd::string::*;

verus! {

/// The page of the flyout that is in view.
#[derive(Clone, Copy, Debug, PartialEq, Eq, Structural)]
pub enum ActiveView {
    Main,
    Settings,
}

/// A monitor as the flyout shows it.
#[derive(Debug, PartialEq, Eq)]
pub struct UiMonitor {
    pub id: String,
    pub name: String,
    pub is_primary: bool,
}

/// What a [`UiMonitor`] stands for.
#[verifier::ext_equal]
pub struct UiMonitorView {
    pub id: Seq<char>,
    pub name: Seq<char>,
    pub is_primary: bool,
}

impl View for UiMonitor {
    type V = UiMonitorView;

    open spec fn view(&self) -> UiMonitorView {
        UiMonitorView { id: self.id@, name: self.name@, is_primary: self.is_primary }
    }
}

impl Clone for UiMonitor {
    fn clone(&self) -> (copy: Self)
        ensures
            copy@ == self@,
    {
        UiMonitor {
            id: self.id.clone(),
            name: self.name.clone(),
            is_primary: self.is_primary,
        }
    }
}

/// A level that the user chose and that is still to be written.
#[derive(Debug, PartialEq, Eq)]
pub struct PendingCommit {
    pub monitor_id: String,
    pub kind: LevelKind,
    pub value: u32,
}

/// What a [`PendingCommit`] stands for.
#[verifier::ext_equal]
pub struct CommitView {
    pub monitor_id: Seq<char>,
    pub kind: LevelKind,
    pub value: u32,
}

impl View for PendingCommit {
    type V = CommitView;

    open spec fn view(&self) -> CommitView {
        CommitView { monitor_id: self.monitor_id@, kind: self.kind, value: self.value }
    }
}

/// What an optional [`PendingCommit`] stands for.
pub open spec fn commit_view(pending: Option<PendingCommit>) -> Option<CommitView> {
    match pending {
        Some(commit) => Some(commit@),
        None => None,
    }
}

/// What the flyout shows.
#[derive(Debug, PartialEq, Eq)]
pub struct UiSnapshot {
    pub monitors: Vec<UiMonitor>,
    pub selected: usize,
    pub levels: Option<MonitorLevels>,
    pub loading: bool,
    pub refreshing: bool,
    pub ambient_available: bool,
    pub error: Option<String>,
    pub load_generation: u64,
    pub current_view: ActiveView,
    pub autostart_enabled: bool,
    pub log_level: String,
}

/// What a [`UiSnapshot`] stands for.
#[verifier::ext_equal]
pub struct SnapshotView {
    pub monitors: Seq<UiMonitorView>,
    pub selected: usize,
    pub levels: Option<MonitorLevels>,
    pub loading: bool,
    pub refreshing: bool,
    pub ambient_available: bool,
    pub error: Option<Seq<char>>,
    pub load_generation: u64,
    pub current_view: ActiveView,
    pub autostart_enabled: bool,
    pub log_level: Seq<char>,
}

impl View for UiSnapshot {
    type V = SnapshotView;

    open spec fn view(&self) -> SnapshotView {
        SnapshotView {
            monitors: ui_views(self.monitors@),
            selected: self.selected,
            levels: self.levels,
            loading: self.loading,
            refreshing: self.refreshing,
            ambient_available: self.ambient_available,
            error: crate::text::option_view(self.error),
            load_generation: self.load_generation,
            current_view: self.current_view,
            autostart_enabled: self.autostart_enabled,
            log_level: self.log_level@,
        }
    }
}

impl Clone for UiSnapshot {
    fn clone(&self) -> (copy: Self)
        ensures
            copy@ == self@,
    {
        let mut monitors: Vec<UiMonitor> = Vec::new();
        let mut i: usize = 0;
        while i < self.monitors.len()
            invariant
                i <= self.monitors@.len(),
                monitors@.len() == i,
                forall|j: int| 0 <= j < i ==> (#[trigger] monitors@[j])@ == self.monitors@[j]@,
            decreases self.monitors@.len() - i,
        {
            monitors.push(self.monitors[i].clone());
            i += 1;
        }
        assert(ui_views(monitors@) =~= ui_views(self.monitors@));
        let error = match &self.error {
            Some(error) => Some(error.clone()),
            None => None,
        };
        UiSnapshot {
            monitors,
            selected: self.selected,
            levels: self.levels,
            loading: self.loading,
            refreshing: self.refreshing,
            ambient_available: self.ambient_available,
            error,
            load_generation: self.load_generation,
            current_view: self.current_view,
            autostart_enabled: self.autostart_enabled,
            log_level: self.log_level.clone(),
        }
    }
}

/// What a list of shown monitors stands for.
pub open spec fn ui_views(monitors: Seq<UiMonitor>) -> Seq<UiMonitorView> {
    Seq::new(monitors.len(), |i: int| monitors[i]@)
}

/// What the flyout shows of a connected monitor.
pub open spec fn shown(monitor: crate::monitor::MonitorView) -> UiMonitorView {
    UiMonitorView { id: monitor.id, name: monitor.name, is_primary: monitor.is_primary }
}

/// The primary monitors, then the others, each in the order in which they stood.
pub open spec fn primary_first(monitors: Seq<UiMonitorView>) -> Seq<UiMonitorView> {
    monitors.filter(|monitor: UiMonitorView| monitor.is_primary) + monitors.filter(
        |monitor: UiMonitorView| !monitor.is_primary,
    )
}

/// The first position from `from` on at which a monitor with this id stands.
pub open spec fn position(monitors: Seq<UiMonitorView>, id: Seq<char>, from: int) -> Option<int>
    decreases monitors.len() - from,
{
    if from < 0 || from >= monitors.len() {
        None
    } else if monitors[from].id == id {
        Some(from)
    } else {
        position(monitors, id, from + 1)
    }
}

impl SnapshotView {
    /// Nothing is shown yet.
    pub open spec fn empty(ambient_available: bool) -> SnapshotView {
        SnapshotView {
            monitors: Seq::empty(),
            selected: 0,
            levels: None,
            loading: false,
            refreshing: false,
            ambient_available,
            error: None,
            load_generation: 0,
            current_view: ActiveView::Main,
            autostart_enabled: false,
            log_level: "warn"@,
        }
    }

    /// The selection is one of the monitors, or the first place where there are none.
    pub open spec fn wf(self) -> bool {
        self.selected == 0 || self.selected < self.monitors.len()
    }

    /// The id of the selected monitor.
    pub open spec fn selected_id(self) -> Option<Seq<char>> {
        if self.selected < self.monitors.len() {
            Some(self.monitors[self.selected as int].id)
        } else {
            None
        }
    }

    /// The snapshot once it has been brought up to date. The monitor with the id `preserve`, or
    /// else the one that was selected, is selected; where it is gone, the first one is. The
    /// levels are kept where no other monitor was asked for.
    pub open spec fn refreshed(
        self,
        connected: Seq<crate::monitor::MonitorView>,
        config: crate::config::ConfigView,
        ambient_available: bool,
        preserve: Option<Seq<char>>,
    ) -> SnapshotView {
        let monitors = primary_first(
            connected.map_values(|monitor: crate::monitor::MonitorView| shown(monitor)),
        );
        let wanted = if preserve is Some {
            preserve
        } else {
            self.selected_id()
        };
        SnapshotView {
            monitors,
            selected: match wanted {
                Some(id) => match position(monitors, id, 0) {
                    Some(i) => i as usize,
                    None => 0,
                },
                None => 0,
            },
            levels: if self.selected_id() is Some && wanted == self.selected_id() {
                self.levels
            } else {
                None
            },
            loading: false,
            refreshing: false,
            error: None,
            ambient_available,
            autostart_enabled: config.autostart_enabled,
            log_level: config.log_level,
            ..self
        }
    }

    /// The snapshot while the monitors are looked for.
    pub open spec fn refreshing(self, explicit: bool) -> SnapshotView {
        SnapshotView {
            loading: true,
            refreshing: self.refreshing || explicit,
            error: None,
            ..self
        }
    }

    /// The snapshot while the levels of the selected monitor are read.
    pub open spec fn loading(self, generation: u64) -> SnapshotView {
        if self.selected_id() is Some {
            SnapshotView { loading: true, error: None, load_generation: generation, ..self }
        } else {
            SnapshotView { loading: false, levels: None, ..self }
        }
    }

    /// Levels that were asked for so are still waited for.
    pub open spec fn awaits(self, generation: u64, monitor_id: Seq<char>) -> bool {
        self.load_generation == generation && self.selected_id() == Some(monitor_id)
    }

    /// The snapshot once the levels of a monitor have been read, or could not be.
    pub open spec fn loaded(
        self,
        generation: u64,
        monitor_id: Seq<char>,
        result: Result<MonitorLevels, Seq<char>>,
    ) -> SnapshotView {
        if !self.awaits(generation, monitor_id) {
            self
        } else {
            match result {
                Ok(levels) => SnapshotView { loading: false, levels: Some(levels), ..self },
                Err(error) => SnapshotView {
                    loading: false,
                    levels: None,
                    error: Some(error),
                    ..self
                },
            }
        }
    }

    /// The snapshot once another monitor has been selected, `delta` places on; the last place is
    /// followed by the first.
    pub open spec fn navigated(self, delta: int) -> SnapshotView {
        if self.monitors.len() == 0 {
            self
        } else {
            SnapshotView {
                selected: wrapped(self.selected as int, delta, self.monitors.len() as int) as usize,
                levels: None,
                error: None,
                ..self
            }
        }
    }

    /// The snapshot once the user has chosen a level.
    pub open spec fn with_level(self, kind: LevelKind, value: u32) -> SnapshotView {
        let levels = match self.levels {
            Some(levels) => levels,
            None => MonitorLevels { brightness: 0, contrast: 0 },
        };
        SnapshotView {
            levels: match kind {
                LevelKind::Brightness => Some(MonitorLevels { brightness: value, ..levels }),
                LevelKind::Contrast => Some(MonitorLevels { contrast: value, ..levels }),
            },
            ..self
        }
    }
}

/// What is to be written once the user has chosen a level: it takes the place of what was chosen
/// before, unless no monitor is selected.
pub open spec fn chosen(
    snapshot: SnapshotView,
    pending: Option<CommitView>,
    kind: LevelKind,
    value: u32,
) -> Option<CommitView> {
    match snapshot.selected_id() {
        Some(monitor_id) => Some(CommitView { monitor_id, kind, value }),
        None => pending,
    }
}

/// The place `delta` places on from `selected`, on a round of `count` places.
pub open spec fn wrapped(selected: int, delta: int, count: int) -> int {
    (selected + delta) % count
}

/// The primary monitors, then the others, each in the order in which they stood.
pub fn sort_primary_first(monitors: &Vec<UiMonitor>) -> (sorted: Vec<UiMonitor>)
    ensures
        ui_views(sorted@) == primary_first(ui_views(monitors@)),
{
    let ghost views = ui_views(monitors@);
    let ghost primary = |monitor: UiMonitorView| monitor.is_primary;
    let ghost secondary = |monitor: UiMonitorView| !monitor.is_primary;
    let mut first: Vec<UiMonitor> = Vec::new();
    let mut rest: Vec<UiMonitor> = Vec::new();
    let mut i: usize = 0;
    proof {
        reveal(Seq::filter);
        assert(ui_views(first@) =~= views.take(0).filter(primary));
        assert(ui_views(rest@) =~= views.take(0).filter(secondary));
    }
    while i < monitors.len()
        invariant
            i <= monitors@.len(),
            views == ui_views(monitors@),
            primary == (|monitor: UiMonitorView| monitor.is_primary),
            secondary == (|monitor: UiMonitorView| !monitor.is_primary),
            ui_views(first@) == views.take(i as int).filter(primary),
            ui_views(rest@) == views.take(i as int).filter(secondary),
        decreases monitors@.len() - i,
    {
        let monitor = monitors[i].clone();
        proof {
            reveal(Seq::filter);
            assert(views.take(i + 1).drop_last() =~= views.take(i as int));
            assert(views.take(i + 1).last() == monitor@);
        }
        if monitor.is_primary {
            let ghost before = ui_views(first@);
            first.push(monitor);
            assert(ui_views(first@) =~= before.push(monitor@));
        } else {
            let ghost before = ui_views(rest@);
            rest.push(monitor);
            assert(ui_views(rest@) =~= before.push(monitor@));
        }
        i += 1;
    }
    assert(views.take(i as int) =~= views);
    let ghost head = first@;
    let ghost tail = rest@;
    first.append(&mut rest);
    assert(ui_views(first@) =~= ui_views(head) + ui_views(tail));
    first
}

/// The place `delta` places on from `selected`, on a round of `count` places.
pub fn wrapped_index(selected: usize, delta: isize, count: usize) -> (index: usize)
    requires
        count > 0,
    ensures
        index == wrapped(selected as int, delta as int, count as int),
        index < count,
{
    let sum: i128 = selected as i128 + delta as i128;
    let round: i128 = count as i128;
    match sum.checked_rem_euclid(round) {
        Some(index) => index as usize,
        None => 0,
    }
}

impl UiSnapshot {
    /// Nothing is shown yet.
    pub fn empty(ambient_available: bool) -> (snapshot: Self)
        ensures
            snapshot@ == SnapshotView::empty(ambient_available),
            snapshot@.wf(),
    {
        let snapshot = UiSnapshot {
            monitors: Vec::new(),
            selected: 0,
            levels: None,
            loading: false,
            refreshing: false,
            ambient_available,
            error: None,
            load_generation: 0,
            current_view: ActiveView::Main,
            autostart_enabled: false,
            log_level: "warn".to_owned(),
        };
        assert(snapshot@.monitors =~= Seq::empty());
        snapshot
    }

    /// The selected monitor.
    pub fn selected_monitor(&self) -> (monitor: Option<&UiMonitor>)
        ensures
            match monitor {
                Some(monitor) => self@.selected < self@.monitors.len() && monitor@
                    == self@.monitors[self@.selected as int],
                None => self@.selected >= self@.monitors.len(),
            },
    {
        if self.selected < self.monitors.len() {
            Some(&self.monitors[self.selected])
        } else {
            None
        }
    }

    /// The id of the selected monitor.
    pub fn selected_id(&self) -> (id: Option<String>)
        ensures
            crate::text::option_view(id) == self@.selected_id(),
    {
        match self.selected_monitor() {
            Some(monitor) => Some(monitor.id.clone()),
            None => None,
        }
    }

    /// Where the monitor with this id stands among the shown ones.
    fn position_of(&self, id: &str) -> (found: Option<usize>)
        ensures
            match (found, position(self@.monitors, id@, 0)) {
                (Some(at), Some(i)) => at == i && at < self@.monitors.len(),
                (None, None) => true,
                _ => false,
            },
    {
        let mut i: usize = 0;
        while i < self.monitors.len()
            invariant
                i <= self.monitors@.len(),
                position(self@.monitors, id@, 0) == position(self@.monitors, id@, i as int),
            decreases self.monitors@.len() - i,
        {
            if same_text(self.monitors[i].id.as_str(), id) {
                return Some(i);
            }
            i += 1;
        }
        None
    }

    /// Brings the snapshot up to date with the connected monitors and the configuration. The
    /// monitor with the id `preserve_id`, or else the one that was selected, is selected.
    pub fn refresh_snapshot_from_state(
        &mut self,
        monitors: &Vec<MonitorInfo>,
        config: &AppConfig,
        ambient_available: bool,
        preserve_id: Option<&str>,
    )
        ensures
            final(self)@ == old(self)@.refreshed(
                crate::monitor::monitor_views(monitors@),
                config@,
                ambient_available,
                match preserve_id {
                    Some(id) => Some(id@),
                    None => None,
                },
            ),
            final(self)@.wf(),
    {
        let ghost connected = crate::monitor::monitor_views(monitors@);
        let mut listed: Vec<UiMonitor> = Vec::new();
        let mut i: usize = 0;
        while i < monitors.len()
            invariant
                i <= monitors@.len(),
                listed@.len() == i,
                forall|j: int| 0 <= j < i ==> (#[trigger] listed@[j])@ == shown(monitors@[j]@),
            decreases monitors@.len() - i,
        {
            listed.push(
                UiMonitor {
                    id: monitors[i].id.clone(),
                    name: monitors[i].name.clone(),
                    is_primary: monitors[i].is_primary,
                },
            );
            i += 1;
        }
        assert(ui_views(listed@) =~= connected.map_values(
            |monitor: crate::monitor::MonitorView| shown(monitor),
        ));
        let previous = self.selected_id();
        let wanted = match preserve_id {
            Some(id) => Some(id.to_owned()),
            None => self.selected_id(),
        };
        let same_monitor = match (&previous, &wanted) {
            (Some(before), Some(now)) => same_text(before.as_str(), now.as_str()),
            _ => false,
        };
        self.monitors = sort_primary_first(&listed);
        self.selected = match &wanted {
            Some(id) => match self.position_of(id.as_str()) {
                Some(at) => at,
                None => 0,
            },
            None => 0,
        };
        if !same_monitor {
            self.levels = None;
        }
        self.loading = false;
        self.refreshing = false;
        self.error = None;
        self.ambient_available = ambient_available;
        self.autostart_enabled = config.autostart_enabled;
        self.log_level = config.log_level.clone();
    }

    /// Shows that the monitors are looked for; `explicit` where the user asked for it.
    pub fn begin_refresh(&mut self, explicit: bool)
        ensures
            final(self)@ == old(self)@.refreshing(explicit),
    {
        self.loading = true;
        if explicit {
            self.refreshing = true;
        }
        self.error = None;
    }

    /// Shows that the monitors could not be looked for.
    pub fn refresh_failed(&mut self, error: String)
        ensures
            final(self)@ == (SnapshotView {
                loading: false,
                refreshing: false,
                error: Some(error@),
                ..old(self)@
            }),
    {
        self.loading = false;
        self.refreshing = false;
        self.error = Some(error);
    }

    /// Shows what came of looking for the monitors. Where they were found, the snapshot is brought
    /// up to date with them, and the levels of the selected one are to be read next. Returns
    /// whether they are.
    pub fn finish_refresh(
        &mut self,
        outcome: Result<(), String>,
        monitors: &Vec<MonitorInfo>,
        config: &AppConfig,
        ambient_available: bool,
        selected_id: Option<&str>,
    ) -> (loads: bool)
        ensures
            loads == outcome is Ok,
            final(self)@ == match outcome {
                Ok(()) => old(self)@.refreshed(
                    crate::monitor::monitor_views(monitors@),
                    config@,
                    ambient_available,
                    match selected_id {
                        Some(id) => Some(id@),
                        None => None,
                    },
                ),
                Err(error) => SnapshotView {
                    loading: false,
                    refreshing: false,
                    error: Some(error@),
                    ..old(self)@
                },
            },
            loads || old(self)@.wf() ==> final(self)@.wf(),
    {
        match outcome {
            Ok(()) => {
                self.refresh_snapshot_from_state(monitors, config, ambient_available, selected_id);
                true
            },
            Err(error) => {
                self.refresh_failed(error);
                false
            },
        }
    }

    /// Shows what came of writing to a monitor: an error, if there was one. Otherwise the levels
    /// are to be read again. Returns whether they are.
    pub fn finish_write(&mut self, outcome: Result<bool, String>) -> (loads: bool)
        ensures
            loads == outcome is Ok,
            final(self)@ == match outcome {
                Ok(_) => old(self)@,
                Err(error) => SnapshotView { error: Some(error@), ..old(self)@ },
            },
    {
        match outcome {
            Ok(_) => true,
            Err(error) => {
                self.report_error(error);
                false
            },
        }
    }

    /// Shows the other page.
    pub fn show_view(&mut self, view: ActiveView)
        ensures
            final(self)@ == (SnapshotView { current_view: view, ..old(self)@ }),
    {
        self.current_view = view;
    }

    /// Shows an error.
    pub fn report_error(&mut self, error: String)
        ensures
            final(self)@ == (SnapshotView { error: Some(error@), ..old(self)@ }),
    {
        self.error = Some(error);
    }

    /// Shows that the levels of the selected monitor are read, under a new number. Returns the
    /// id of the monitor to read, if one is selected. `generations` counts the reads of all
    /// time.
    pub fn begin_load(&mut self, generations: &mut u64) -> (monitor_id: Option<String>)
        requires
            *old(generations) < u64::MAX,
        ensures
            final(self)@ == old(self)@.loading((*old(generations) + 1) as u64),
            crate::text::option_view(monitor_id) == old(self)@.selected_id(),
            *final(generations) == *old(generations) + (if old(self)@.selected_id() is Some {
                1int
            } else {
                0int
            }),
    {
        match self.selected_id() {
            None => {
                self.loading = false;
                self.levels = None;
                None
            },
            Some(id) => {
                *generations = *generations + 1;
                self.loading = true;
                self.error = None;
                self.load_generation = *generations;
                Some(id)
            },
        }
    }

    /// Takes the levels that were read under a number. They count only while the snapshot waits
    /// for them. Returns whether they counted.
    pub fn finish_load(
        &mut self,
        generation: u64,
        monitor_id: &str,
        result: Result<MonitorLevels, String>,
    ) -> (taken: bool)
        ensures
            final(self)@ == old(self)@.loaded(
                generation,
                monitor_id@,
                crate::text::result_view(result),
            ),
            taken == old(self)@.awaits(generation, monitor_id@),
    {
        let same_monitor = match self.selected_monitor() {
            Some(monitor) => same_text(monitor.id.as_str(), monitor_id),
            None => false,
        };
        if self.load_generation != generation || !same_monitor {
            return false;
        }
        self.loading = false;
        match result {
            Ok(levels) => {
                self.levels = Some(levels);
            },
            Err(error) => {
                self.levels = None;
                self.error = Some(error);
            },
        }
        true
    }

    /// Selects the monitor `delta` places on. Returns whether there is any.
    pub fn navigate_monitor(&mut self, delta: isize) -> (moved: bool)
        ensures
            final(self)@ == old(self)@.navigated(delta as int),
            moved == (old(self)@.monitors.len() > 0),
            moved ==> final(self)@.wf(),
    {
        let count: usize = self.monitors.len();
        if count == 0 {
            return false;
        }
        self.selected = wrapped_index(self.selected, delta, count);
        self.levels = None;
        self.error = None;
        true
    }

    /// Shows a level that the user chose, and makes it the one to be written to the selected
    /// monitor.
    pub fn update_local_level(
        &mut self,
        kind: LevelKind,
        value: u32,
        pending: &mut Option<PendingCommit>,
    )
        ensures
            final(self)@ == old(self)@.with_level(kind, value),
            commit_view(*final(pending)) == chosen(
                old(self)@,
                commit_view(*old(pending)),
                kind,
                value,
            ),
    {
        let mut levels = match self.levels {
            Some(levels) => levels,
            None => MonitorLevels { brightness: 0, contrast: 0 },
        };
        match kind {
            LevelKind::Brightness => {
                levels.brightness = value;
            },
            LevelKind::Contrast => {
                levels.contrast = value;
            },
        }
        self.levels = Some(levels);
        match self.selected_id() {
            Some(monitor_id) => {
                *pending = Some(PendingCommit { monitor_id, kind, value });
            },
            None => {},
        }
    }
}

proof fn lemma_position(monitors: Seq<UiMonitorView>, id: Seq<char>, from: int)
    requires
        0 <= from,
    ensures
        match position(monitors, id, from) {
            Some(i) => {
                &&& from <= i < monitors.len()
                &&& monitors[i].id == id
                &&& forall|j: int| from <= j < i ==> (#[trigger] monitors[j]).id != id
            },
            None => forall|j: int|
                from <= j < monitors.len() ==> (#[trigger] monitors[j]).id != id,
        },
    decreases monitors.len() - from,
{
    if from < monitors.len() && monitors[from].id != id {
        lemma_position(monitors, id, from + 1);
    }
}

proof fn lemma_filter_holds(
    monitors: Seq<UiMonitorView>,
    keep: spec_fn(UiMonitorView) -> bool,
    i: int,
)
    requires
        0 <= i < monitors.filter(keep).len(),
    ensures
        keep(monitors.filter(keep)[i]),
    decreases monitors.len(),
{
    reveal(Seq::filter);
    if monitors.len() > 0 {
        let shorter = monitors.drop_last();
        if i < shorter.filter(keep).len() {
            lemma_filter_holds(shorter, keep, i);
        }
    }
}

proof fn lemma_split_multiset(
    monitors: Seq<UiMonitorView>,
    keep: spec_fn(UiMonitorView) -> bool,
    drop: spec_fn(UiMonitorView) -> bool,
)
    requires
        forall|monitor: UiMonitorView| #[trigger] keep(monitor) == !drop(monitor),
    ensures
        (monitors.filter(keep) + monitors.filter(drop)).to_multiset() == monitors.to_multiset(),
    decreases monitors.len(),
{
    broadcast use vstd::seq_lib::group_to_multiset_ensures;

    reveal(Seq::filter);
    if monitors.len() > 0 {
        let shorter = monitors.drop_last();
        let last = monitors.last();
        lemma_split_multiset(shorter, keep, drop);
        assert(monitors =~= shorter.push(last));
        let kept = shorter.filter(keep);
        let dropped = shorter.filter(drop);
        vstd::seq_lib::lemma_multiset_commutative(kept, dropped);
        assert(keep(last) == !drop(last));
        if keep(last) {
            vstd::seq_lib::lemma_multiset_commutative(kept.push(last), dropped);
            assert(kept.push(last).to_multiset() =~= kept.to_multiset().insert(last));
        } else {
            vstd::seq_lib::lemma_multiset_commutative(kept, dropped.push(last));
            assert(dropped.push(last).to_multiset() =~= dropped.to_multiset().insert(last));
        }
        assert(shorter.push(last).to_multiset() =~= shorter.to_multiset().insert(last));
    } else {
        assert(monitors.filter(keep) + monitors.filter(drop) =~= monitors);
    }
}

/// Sorting loses no monitor and makes none up, and puts no other monitor before a primary one.
pub proof fn primary_first_sorts(monitors: Seq<UiMonitorView>)
    ensures
        primary_first(monitors).to_multiset() == monitors.to_multiset(),
        forall|i: int, j: int|
            0 <= i < j < primary_first(monitors).len() && (
            #[trigger] primary_first(monitors)[j]).is_primary ==> (#[trigger] primary_first(
                monitors,
            )[i]).is_primary,
{
    let primary = |monitor: UiMonitorView| monitor.is_primary;
    let secondary = |monitor: UiMonitorView| !monitor.is_primary;
    lemma_split_multiset(monitors, primary, secondary);
    let sorted = primary_first(monitors);
    let head = monitors.filter(primary);
    let tail = monitors.filter(secondary);
    assert forall|i: int, j: int|
        0 <= i < j < sorted.len() && (#[trigger] sorted[j]).is_primary implies (
    #[trigger] sorted[i]).is_primary by {
        if j >= head.len() {
            lemma_filter_holds(monitors, secondary, j - head.len());
        } else {
            lemma_filter_holds(monitors, primary, i);
        }
    }
}

/// Sorting leaves the primary monitors in the order in which they stood, and the others too.
pub proof fn primary_first_is_stable(monitors: Seq<UiMonitorView>)
    ensures
        ({
            let primary = |monitor: UiMonitorView| monitor.is_primary;
            let secondary = |monitor: UiMonitorView| !monitor.is_primary;
            &&& primary_first(monitors).filter(primary) == monitors.filter(primary)
            &&& primary_first(monitors).filter(secondary) == monitors.filter(secondary)
        }),
{
    let primary = |monitor: UiMonitorView| monitor.is_primary;
    let secondary = |monitor: UiMonitorView| !monitor.is_primary;
    let head = monitors.filter(primary);
    let tail = monitors.filter(secondary);
    assert forall|i: int| 0 <= i < head.len() implies primary(#[trigger] head[i]) by {
        lemma_filter_holds(monitors, primary, i);
    }
    assert forall|i: int| 0 <= i < tail.len() implies secondary(#[trigger] tail[i]) by {
        lemma_filter_holds(monitors, secondary, i);
    }
    lemma_filter_parts(head, tail, primary);
    lemma_filter_parts(head, tail, secondary);
    lemma_filter_all(head, primary);
    lemma_filter_none(tail, primary);
    lemma_filter_none(head, secondary);
    lemma_filter_all(tail, secondary);
    assert(head + Seq::empty() =~= head);
    assert(Seq::empty() + tail =~= tail);
}

proof fn lemma_filter_parts(
    head: Seq<UiMonitorView>,
    tail: Seq<UiMonitorView>,
    keep: spec_fn(UiMonitorView) -> bool,
)
    ensures
        (head + tail).filter(keep) == head.filter(keep) + tail.filter(keep),
    decreases tail.len(),
{
    reveal(Seq::filter);
    if tail.len() == 0 {
        assert(head + tail =~= head);
        assert(head.filter(keep) + tail.filter(keep) =~= head.filter(keep));
    } else {
        lemma_filter_parts(head, tail.drop_last(), keep);
        assert((head + tail).drop_last() =~= head + tail.drop_last());
        assert((head + tail).filter(keep) =~= head.filter(keep) + tail.filter(keep));
    }
}

proof fn lemma_filter_all(monitors: Seq<UiMonitorView>, keep: spec_fn(UiMonitorView) -> bool)
    requires
        forall|i: int| 0 <= i < monitors.len() ==> keep(#[trigger] monitors[i]),
    ensures
        monitors.filter(keep) == monitors,
    decreases monitors.len(),
{
    reveal(Seq::filter);
    if monitors.len() > 0 {
        lemma_filter_all(monitors.drop_last(), keep);
        assert(keep(monitors[monitors.len() - 1]));
        assert(monitors.drop_last().push(monitors.last()) =~= monitors);
    } else {
        assert(monitors.filter(keep) =~= monitors);
    }
}

proof fn lemma_filter_none(monitors: Seq<UiMonitorView>, keep: spec_fn(UiMonitorView) -> bool)
    requires
        forall|i: int| 0 <= i < monitors.len() ==> !keep(#[trigger] monitors[i]),
    ensures
        monitors.filter(keep) == Seq::<UiMonitorView>::empty(),
    decreases monitors.len(),
{
    reveal(Seq::filter);
    if monitors.len() > 0 {
        lemma_filter_none(monitors.drop_last(), keep);
        assert(!keep(monitors[monitors.len() - 1]));
    }
}

/// Bringing the snapshot up to date shows every connected monitor, and selects the one that was
/// asked for wherever it is connected, and otherwise the first one.
pub proof fn refresh_follows_the_monitor(
    before: SnapshotView,
    connected: Seq<crate::monitor::MonitorView>,
    config: crate::config::ConfigView,
    ambient_available: bool,
    id: Seq<char>,
)
    requires
        connected.len() <= usize::MAX,
    ensures
        ({
            let after = before.refreshed(connected, config, ambient_available, Some(id));
            &&& after.wf()
            &&& after.monitors.len() == connected.len()
            &&& (exists|i: int| 0 <= i < connected.len() && (#[trigger] connected[i]).id == id)
                ==> after.selected_id() == Some(id)
            &&& (forall|i: int| 0 <= i < connected.len() ==> (#[trigger] connected[i]).id != id)
                ==> after.selected == 0
        }),
{
    broadcast use vstd::seq_lib::group_to_multiset_ensures;

    let after = before.refreshed(connected, config, ambient_available, Some(id));
    let listed = connected.map_values(|monitor: crate::monitor::MonitorView| shown(monitor));
    primary_first_sorts(listed);
    lemma_position(after.monitors, id, 0);
    assert(after.monitors.to_multiset().len() == after.monitors.len());
    assert(listed.to_multiset().len() == listed.len());
    if exists|i: int| 0 <= i < connected.len() && (#[trigger] connected[i]).id == id {
        let i = choose|i: int| 0 <= i < connected.len() && (#[trigger] connected[i]).id == id;
        assert(listed.contains(listed[i]));
        assert(listed.to_multiset().count(listed[i]) > 0);
        assert(after.monitors.contains(listed[i]));
        let at = choose|at: int| 0 <= at < after.monitors.len() && after.monitors[at] == listed[i];
        assert(after.monitors[at].id == id);
    }
    if forall|i: int| 0 <= i < connected.len() ==> (#[trigger] connected[i]).id != id {
        assert forall|j: int| 0 <= j < after.monitors.len() implies (
        #[trigger] after.monitors[j]).id != id by {
            assert(after.monitors.contains(after.monitors[j]));
            assert(after.monitors.to_multiset().count(after.monitors[j]) > 0);
            assert(listed.contains(after.monitors[j]));
            let i = choose|i: int| 0 <= i < listed.len() && listed[i] == after.monitors[j];
            assert(connected[i].id != id);
        }
    }
}

/// Levels that were asked for before another read began do not count any more.
pub proof fn newer_load_wins(
    snapshot: SnapshotView,
    earlier: u64,
    later: u64,
    monitor_id: Seq<char>,
    result: Result<MonitorLevels, Seq<char>>,
)
    requires
        earlier < later,
        snapshot.selected_id() is Some,
    ensures
        snapshot.loading(later).loaded(earlier, monitor_id, result) == snapshot.loading(later),
{
}

/// Levels count where nothing happened since they were asked for.
pub proof fn awaited_load_counts(
    snapshot: SnapshotView,
    generation: u64,
    levels: MonitorLevels,
)
    requires
        snapshot.selected_id() is Some,
    ensures
        snapshot.loading(generation).loaded(
            generation,
            snapshot.selected_id()->0,
            Ok(levels),
        ) == (SnapshotView {
            loading: false,
            error: None,
            levels: Some(levels),
            load_generation: generation,
            ..snapshot
        }),
{
}

/// Levels of a monitor that is no longer the selected one do not count.
pub proof fn other_monitor_does_not_count(
    snapshot: SnapshotView,
    generation: u64,
    monitor_id: Seq<char>,
    result: Result<MonitorLevels, Seq<char>>,
)
    requires
        snapshot.selected_id() != Some(monitor_id),
    ensures
        snapshot.loaded(generation, monitor_id, result) == snapshot,
{
}

/// Going some places on and as many back leads to the same monitor; so does going once round.
pub proof fn navigation_goes_round(snapshot: SnapshotView, delta: int)
    requires
        snapshot.wf(),
        0 < snapshot.monitors.len() <= usize::MAX,
    ensures
        snapshot.navigated(delta).wf(),
        snapshot.navigated(delta).navigated(-delta).selected == snapshot.selected,
        snapshot.navigated(snapshot.monitors.len() as int).selected == snapshot.selected,
{
    let count = snapshot.monitors.len() as int;
    let selected = snapshot.selected as int;
    let next = (selected + delta) % count;
    vstd::arithmetic::div_mod::lemma_mod_bound(selected + delta, count);
    vstd::arithmetic::div_mod::lemma_mod_bound(next - delta, count);
    vstd::arithmetic::div_mod::lemma_add_mod_noop(selected + delta, -delta, count);
    vstd::arithmetic::div_mod::lemma_add_mod_noop(next, -delta, count);
    vstd::arithmetic::div_mod::lemma_mod_twice(selected + delta, count);
    vstd::arithmetic::div_mod::lemma_small_mod(selected as nat, count as nat);
    vstd::arithmetic::div_mod::lemma_mod_add_multiples_vanish(selected, count);
    vstd::arithmetic::div_mod::lemma_mod_bound(selected + count, count);
}

/// One place on from the last monitor stands the first, and one place back from the first the
/// last.
pub proof fn navigation_wraps(count: int)
    requires
        count > 0,
    ensures
        wrapped(count - 1, 1, count) == 0,
        wrapped(0, -1, count) == count - 1,
{
    vstd::arithmetic::div_mod::lemma_mod_self_0(count);
    vstd::arithmetic::div_mod::lemma_mod_add_multiples_vanish(-1, count);
    vstd::arithmetic::div_mod::lemma_small_mod((count - 1) as nat, count as nat);
}

/// The selection stays one of the monitors whatever the snapshot goes through.
pub proof fn selection_stays_valid(
    snapshot: SnapshotView,
    explicit: bool,
    generation: u64,
    monitor_id: Seq<char>,
    result: Result<MonitorLevels, Seq<char>>,
    delta: int,
    kind: LevelKind,
    value: u32,
)
    requires
        snapshot.wf(),
        snapshot.monitors.len() <= usize::MAX,
    ensures
        snapshot.refreshing(explicit).wf(),
        snapshot.loading(generation).wf(),
        snapshot.loaded(generation, monitor_id, result).wf(),
        snapshot.navigated(delta).wf(),
        snapshot.with_level(kind, value).wf(),
{
    if snapshot.monitors.len() > 0 {
        navigation_goes_round(snapshot, delta);
    }
}

/// A round leads to the place that is `delta` places on: it is one of the places, and lies a whole
/// number of rounds from where a straight line would have led. There is no other such place.
pub proof fn wrapping_goes_whole_rounds(selected: int, delta: int, count: int, other: int)
    requires
        count > 0,
    ensures
        0 <= wrapped(selected, delta, count) < count,
        exists|rounds: int|
            selected + delta == wrapped(selected, delta, count) + #[trigger] (rounds * count),
        0 <= other < count && (exists|rounds: int|
            selected + delta == other + #[trigger] (rounds * count)) ==> other == wrapped(
            selected,
            delta,
            count,
        ),
{
    let sum = selected + delta;
    vstd::arithmetic::div_mod::lemma_fundamental_div_mod(sum, count);
    vstd::arithmetic::div_mod::lemma_mod_bound(sum, count);
    assert(count * (sum / count) == (sum / count) * count) by (nonlinear_arith);
    assert(sum == wrapped(selected, delta, count) + (sum / count) * count);
    if 0 <= other < count && exists|rounds: int| sum == other + #[trigger] (rounds * count) {
        let rounds = choose|rounds: int| sum == other + #[trigger] (rounds * count);
        vstd::arithmetic::div_mod::lemma_fundamental_div_mod_converse(sum, count, rounds, other);
    }
}

/// One place on from any monitor but the last stands the next one, and one place back from any but
/// the first the one before.
pub proof fn neighbours_are_next_to_each_other(selected: int, count: int)
    requires
        0 <= selected < count,
    ensures
        selected < count - 1 ==> wrapped(selected, 1, count) == selected + 1,
        selected == count - 1 ==> wrapped(selected, 1, count) == 0,
        selected > 0 ==> wrapped(selected, -1, count) == selected - 1,
        selected == 0 ==> wrapped(selected, -1, count) == count - 1,
        wrapped(selected, 0, count) == selected,
{
    navigation_wraps(count);
    if selected < count - 1 {
        vstd::arithmetic::div_mod::lemma_small_mod((selected + 1) as nat, count as nat);
    }
    if selected > 0 {
        vstd::arithmetic::div_mod::lemma_small_mod((selected - 1) as nat, count as nat);
    }
    vstd::arithmetic::div_mod::lemma_small_mod(selected as nat, count as nat);
}

/// Going to another monitor forgets the levels and the error that were shown, and changes nothing
/// else but the selection, which lies `delta` places on, a whole number of rounds aside. Where
/// there is no monitor, nothing happens.
pub proof fn navigation_moves_the_selection(snapshot: SnapshotView, delta: int)
    requires
        snapshot.monitors.len() <= usize::MAX,
    ensures
        ({
            let after = snapshot.navigated(delta);
            &&& snapshot.monitors.len() == 0 ==> after == snapshot
            &&& snapshot.monitors.len() > 0 ==> {
                &&& after.selected < snapshot.monitors.len()
                &&& exists|rounds: int|
                    snapshot.selected + delta == after.selected + #[trigger] (rounds
                        * snapshot.monitors.len())
                &&& after == (SnapshotView {
                    selected: after.selected,
                    levels: None,
                    error: None,
                    ..snapshot
                })
            }
        }),
{
    if snapshot.monitors.len() > 0 {
        wrapping_goes_whole_rounds(
            snapshot.selected as int,
            delta,
            snapshot.monitors.len() as int,
            0,
        );
    }
}

/// Choosing a level shows that level at the chosen value and leaves the other one as it was shown;
/// where none was shown, the other one is shown at 0. Nothing else changes.
pub proof fn chosen_levels_are_shown(snapshot: SnapshotView, value: u32)
    ensures
        ({
            let brighter = snapshot.with_level(LevelKind::Brightness, value);
            let starker = snapshot.with_level(LevelKind::Contrast, value);
            &&& brighter.levels matches Some(shown) && shown.brightness == value && shown.contrast
                == match snapshot.levels {
                Some(before) => before.contrast,
                None => 0,
            }
            &&& starker.levels matches Some(shown) && shown.contrast == value && shown.brightness
                == match snapshot.levels {
                Some(before) => before.brightness,
                None => 0,
            }
            &&& brighter == (SnapshotView { levels: brighter.levels, ..snapshot })
            &&& starker == (SnapshotView { levels: starker.levels, ..snapshot })
        }),
{
}

/// What is chosen is to be written to the selected monitor, at the chosen value, in place of what
/// was to be written before; where no monitor is selected, that stays.
pub proof fn chosen_levels_are_pending(
    snapshot: SnapshotView,
    pending: Option<CommitView>,
    kind: LevelKind,
    value: u32,
)
    ensures
        snapshot.selected < snapshot.monitors.len() ==> chosen(snapshot, pending, kind, value)
            == Some(
            CommitView {
                monitor_id: snapshot.monitors[snapshot.selected as int].id,
                kind,
                value,
            },
        ),
        snapshot.selected >= snapshot.monitors.len() ==> chosen(snapshot, pending, kind, value)
            == pending,
{
}

/// The id of the selected monitor is that of the monitor at the selected place, if there is one.
pub proof fn selected_ids_belong_to_monitors(snapshot: SnapshotView)
    ensures
        match snapshot.selected_id() {
            Some(id) => snapshot.selected < snapshot.monitors.len()
                && snapshot.monitors[snapshot.selected as int].id == id,
            None => snapshot.selected >= snapshot.monitors.len(),
        },
        snapshot.wf() <==> snapshot.selected == 0 || snapshot.selected < snapshot.monitors.len(),
{
}

/// The connected monitors as they are to be shown, in the order in which they are connected.
pub open spec fn to_be_shown(connected: Seq<crate::monitor::MonitorView>) -> Seq<UiMonitorView> {
    Seq::new(
        connected.len(),
        |i: int|
            UiMonitorView {
                id: connected[i].id,
                name: connected[i].name,
                is_primary: connected[i].is_primary,
            },
    )
}

proof fn lemma_refreshed_monitors(
    before: SnapshotView,
    connected: Seq<crate::monitor::MonitorView>,
    config: crate::config::ConfigView,
    ambient_available: bool,
    preserve: Option<Seq<char>>,
)
    ensures
        before.refreshed(connected, config, ambient_available, preserve).monitors == primary_first(
            to_be_shown(connected),
        ),
{
    assert(connected.map_values(|monitor: crate::monitor::MonitorView| shown(monitor))
        =~= to_be_shown(connected));
}

/// Bringing the snapshot up to date shows every connected monitor as it is, once, and the primary
/// ones first.
pub proof fn refresh_shows_the_monitors(
    before: SnapshotView,
    connected: Seq<crate::monitor::MonitorView>,
    config: crate::config::ConfigView,
    ambient_available: bool,
    preserve: Option<Seq<char>>,
    i: int,
    j: int,
)
    ensures
        ({
            let now = before.refreshed(connected, config, ambient_available, preserve).monitors;
            &&& now.to_multiset() == to_be_shown(connected).to_multiset()
            &&& 0 <= i < j < now.len() && now[j].is_primary ==> now[i].is_primary
        }),
{
    lemma_refreshed_monitors(before, connected, config, ambient_available, preserve);
    primary_first_sorts(to_be_shown(connected));
}

/// The primary monitors are shown in the order in which they are connected, and the others too.
pub proof fn refresh_keeps_the_order(
    before: SnapshotView,
    connected: Seq<crate::monitor::MonitorView>,
    config: crate::config::ConfigView,
    ambient_available: bool,
    preserve: Option<Seq<char>>,
)
    ensures
        ({
            let now = before.refreshed(connected, config, ambient_available, preserve).monitors;
            let primary = |monitor: UiMonitorView| monitor.is_primary;
            let secondary = |monitor: UiMonitorView| !monitor.is_primary;
            &&& now.filter(primary) == to_be_shown(connected).filter(primary)
            &&& now.filter(secondary) == to_be_shown(connected).filter(secondary)
        }),
{
    lemma_refreshed_monitors(before, connected, config, ambient_available, preserve);
    primary_first_is_stable(to_be_shown(connected));
}

/// The monitor that is asked for is selected, at its first place, wherever it is connected, and
/// otherwise the first one. Its levels stay shown where it was the selected one before, and
/// only there.
pub proof fn refresh_selects_what_is_asked_for(
    before: SnapshotView,
    connected: Seq<crate::monitor::MonitorView>,
    config: crate::config::ConfigView,
    ambient_available: bool,
    id: Seq<char>,
)
    requires
        connected.len() <= usize::MAX,
    ensures
        ({
            let after = before.refreshed(connected, config, ambient_available, Some(id));
            let was_selected = before.selected < before.monitors.len()
                && before.monitors[before.selected as int].id == id;
            &&& (exists|i: int| 0 <= i < connected.len() && (#[trigger] connected[i]).id == id)
                ==> {
                &&& after.selected < after.monitors.len()
                &&& after.monitors[after.selected as int].id == id
                &&& forall|j: int|
                    0 <= j < after.selected ==> (#[trigger] after.monitors[j]).id != id
            }
            &&& (forall|i: int| 0 <= i < connected.len() ==> (#[trigger] connected[i]).id != id)
                ==> after.selected == 0
            &&& was_selected ==> after.levels == before.levels
            &&& !was_selected ==> after.levels is None
        }),
{
    let after = before.refreshed(connected, config, ambient_available, Some(id));
    refresh_follows_the_monitor(before, connected, config, ambient_available, id);
    lemma_position(after.monitors, id, 0);
}

/// Where no monitor is asked for, the selected one stays selected and its levels stay shown as long
/// as it is connected; where it is gone, the first one is selected. Where none was selected, the
/// first one is, and no levels are shown.
pub proof fn refresh_keeps_the_selection(
    before: SnapshotView,
    connected: Seq<crate::monitor::MonitorView>,
    config: crate::config::ConfigView,
    ambient_available: bool,
)
    requires
        connected.len() <= usize::MAX,
    ensures
        ({
            let after = before.refreshed(connected, config, ambient_available, None);
            &&& before.selected < before.monitors.len() ==> ({
                let id = before.monitors[before.selected as int].id;
                &&& after.levels == before.levels
                &&& (exists|i: int| 0 <= i < connected.len() && (#[trigger] connected[i]).id == id)
                    ==> {
                    &&& after.selected < after.monitors.len()
                    &&& after.monitors[after.selected as int].id == id
                    &&& forall|j: int|
                        0 <= j < after.selected ==> (#[trigger] after.monitors[j]).id != id
                }
                &&& (forall|i: int|
                    0 <= i < connected.len() ==> (#[trigger] connected[i]).id != id)
                    ==> after.selected == 0
            })
            &&& before.selected >= before.monitors.len() ==> after.selected == 0
                && after.levels is None
        }),
{
    let after = before.refreshed(connected, config, ambient_available, None);
    if before.selected < before.monitors.len() {
        let id = before.monitors[before.selected as int].id;
        assert(after == before.refreshed(connected, config, ambient_available, Some(id)));
        refresh_selects_what_is_asked_for(before, connected, config, ambient_available, id);
    }
}

/// Bringing the snapshot up to date ends the search, forgets the error, and shows the settings of
/// the configuration and whether there is a sensor. The page in view and the number of the last
/// read stay.
pub proof fn refresh_shows_the_settings(
    before: SnapshotView,
    connected: Seq<crate::monitor::MonitorView>,
    config: crate::config::ConfigView,
    ambient_available: bool,
    preserve: Option<Seq<char>>,
)
    ensures
        ({
            let after = before.refreshed(connected, config, ambient_available, preserve);
            &&& !after.loading && !after.refreshing && after.error is None
            &&& after.ambient_available == ambient_available
            &&& after.autostart_enabled == config.autostart_enabled
            &&& after.log_level == config.log_level
            &&& after.current_view == before.current_view
            &&& after.load_generation == before.load_generation
        }),
{
}

/// While the monitors are looked for, the snapshot is loading and shows no error; it also shows the
/// search where the user asked for it or it was shown already. Nothing else changes.
pub proof fn searching_is_shown(snapshot: SnapshotView, explicit: bool)
    ensures
        ({
            let after = snapshot.refreshing(explicit);
            &&& after.loading && after.error is None
            &&& after.refreshing <==> snapshot.refreshing || explicit
            &&& after == (SnapshotView {
                loading: true,
                refreshing: after.refreshing,
                error: None,
                ..snapshot
            })
        }),
{
}

/// A read of levels is shown under its number while a monitor is selected, with the levels that are
/// known left in place; without one, no levels are shown and none are read.
pub proof fn reading_is_shown(snapshot: SnapshotView, generation: u64)
    ensures
        snapshot.selected < snapshot.monitors.len() ==> snapshot.loading(generation) == (
        SnapshotView { loading: true, error: None, load_generation: generation, ..snapshot }),
        snapshot.selected >= snapshot.monitors.len() ==> snapshot.loading(generation) == (
        SnapshotView { loading: false, levels: None, ..snapshot }),
{
}

/// What was read counts exactly where it was the last read that began, and its monitor is still the
/// selected one. It is shown then, or the reason why it could not be read; otherwise nothing
/// changes.
pub proof fn read_levels_are_shown(
    snapshot: SnapshotView,
    generation: u64,
    monitor_id: Seq<char>,
    levels: MonitorLevels,
    error: Seq<char>,
)
    ensures
        ({
            let counts = snapshot.load_generation == generation && snapshot.selected
                < snapshot.monitors.len() && snapshot.monitors[snapshot.selected as int].id
                == monitor_id;
            &&& snapshot.awaits(generation, monitor_id) <==> counts
            &&& counts ==> snapshot.loaded(generation, monitor_id, Ok(levels)) == (SnapshotView {
                loading: false,
                levels: Some(levels),
                ..snapshot
            })
            &&& counts ==> snapshot.loaded(generation, monitor_id, Err(error)) == (SnapshotView {
                loading: false,
                levels: None,
                error: Some(error),
                ..snapshot
            })
            &&& !counts ==> snapshot.loaded(generation, monitor_id, Ok(levels)) == snapshot
                && snapshot.loaded(generation, monitor_id, Err(error)) == snapshot
        }),
{
}

/// At first nothing is shown: no monitors, no levels, no error, nothing under way, and the main page
/// in view.
pub proof fn nothing_is_shown_at_first(ambient_available: bool)
    ensures
        ({
            let snapshot = SnapshotView::empty(ambient_available);
            &&& snapshot.monitors.len() == 0 && snapshot.selected == 0
            &&& snapshot.levels is None && snapshot.error is None
            &&& !snapshot.loading && !snapshot.refreshing && !snapshot.autostart_enabled
            &&& snapshot.load_generation == 0
            &&& snapshot.current_view == ActiveView::Main
            &&& snapshot.ambient_available == ambient_available
            &&& snapshot.log_level == "warn"@
        }),
{
}

/// What a snapshot stands for holds every field of it, and every monitor in its place.
pub proof fn snapshots_are_seen_whole(
    snapshot: UiSnapshot,
    monitor: UiMonitor,
    commit: PendingCommit,
    i: int,
)
    ensures
        snapshot@.monitors.len() == snapshot.monitors@.len(),
        0 <= i < snapshot.monitors@.len() ==> snapshot@.monitors[i] == snapshot.monitors@[i]@,
        snapshot@.selected == snapshot.selected,
        snapshot@.levels == snapshot.levels,
        snapshot@.loading == snapshot.loading,
        snapshot@.refreshing == snapshot.refreshing,
        snapshot@.ambient_available == snapshot.ambient_available,
        snapshot.error matches Some(error) ==> snapshot@.error == Some(error@),
        snapshot.error is None ==> snapshot@.error is None,
        snapshot@.load_generation == snapshot.load_generation,
        snapshot@.current_view == snapshot.current_view,
        snapshot@.autostart_enabled == snapshot.autostart_enabled,
        snapshot@.log_level == snapshot.log_level@,
        monitor@.id == monitor.id@,
        monitor@.name == monitor.name@,
        monitor@.is_primary == monitor.is_primary,
        commit@.monitor_id == commit.monitor_id@,
        commit@.kind == commit.kind,
        commit@.value == commit.value,
        commit_view(Some(commit)) == Some(commit@),
        commit_view(None) is None,
{
}

} // verus!
