//! The configuration that is kept between runs.

use crate::monitor::MonitorInfo;
use crate::text::{is_blank, same_text};
use vstd::prelude::*;
use vstd::string::*;

verus! {

/// The name of the configuration file, which stands beside the executable.
pub const CONFIG_FILE_NAME: &'static str = "config.json";

/// A monitor that the configuration knows of.
#[derive(Debug)]
pub struct MonitorConfig {
    pub id: String,
    pub display_device: String,
    pub physical_index: u32,
    pub name: String,
}

/// What a [`MonitorConfig`] stands for.
#[verifier::ext_equal]
pub struct MonitorConfigView {
    pub id: Seq<char>,
    pub display_device: Seq<char>,
    pub physical_index: u32,
    pub name: Seq<char>,
}

impl View for MonitorConfig {
    type V = MonitorConfigView;

    open spec fn view(&self) -> MonitorConfigView {
        MonitorConfigView {
            id: self.id@,
            display_device: self.display_device@,
            physical_index: self.physical_index,
            name: self.name@,
        }
    }
}

impl Clone for MonitorConfig {
    fn clone(&self) -> (copy: Self)
        ensures
            copy@ == self@,
    {
        MonitorConfig {
            id: self.id.clone(),
            display_device: self.display_device.clone(),
            physical_index: self.physical_index,
            name: self.name.clone(),
        }
    }
}

/// The configuration.
#[derive(Debug)]
pub struct AppConfig {
    pub autostart_enabled: bool,
    pub last_brightness: u32,
    pub monitors: Vec<MonitorConfig>,
    pub log_level: String,
}

/// What an [`AppConfig`] stands for.
#[verifier::ext_equal]
pub struct ConfigView {
    pub autostart_enabled: bool,
    pub last_brightness: u32,
    pub monitors: Seq<MonitorConfigView>,
    pub log_level: Seq<char>,
}

impl View for AppConfig {
    type V = ConfigView;

    open spec fn view(&self) -> ConfigView {
        ConfigView {
            autostart_enabled: self.autostart_enabled,
            last_brightness: self.last_brightness,
            monitors: config_views(self.monitors@),
            log_level: self.log_level@,
        }
    }
}

/// What a list of configured monitors stands for.
pub open spec fn config_views(monitors: Seq<MonitorConfig>) -> Seq<MonitorConfigView> {
    Seq::new(monitors.len(), |i: int| monitors[i]@)
}

impl Clone for AppConfig {
    fn clone(&self) -> (copy: Self)
        ensures
            copy@ == self@,
    {
        let mut monitors: Vec<MonitorConfig> = Vec::new();
        let mut i: usize = 0;
        while i < self.monitors.len()
            invariant
                i <= self.monitors@.len(),
                monitors@.len() == i,
                forall|j: int| 0 <= j < i ==> (#[trigger] monitors@[j])@ == self.monitors@[j]@,
            decreases self.monitors@.len() - i,
        {
            monitors.push(self.monitors[i].clone());
            i += 1;
        }
        assert(config_views(monitors@) =~= config_views(self.monitors@));
        AppConfig {
            autostart_enabled: self.autostart_enabled,
            last_brightness: self.last_brightness,
            monitors,
            log_level: self.log_level.clone(),
        }
    }
}

impl Default for AppConfig {
    fn default() -> (config: Self)
        ensures
            config@ == ConfigView::initial(),
    {
        let config = AppConfig {
            autostart_enabled: false,
            last_brightness: 50,
            monitors: Vec::new(),
            log_level: "warn".to_owned(),
        };
        assert(config@.monitors =~= Seq::empty());
        config
    }
}

/// The names of the log levels.
pub open spec fn log_level_name(level: Seq<char>) -> bool {
    level == "error"@ || level == "warn"@ || level == "info"@ || level == "debug"@
}

/// The list knows of a monitor with this id.
pub open spec fn knows(monitors: Seq<MonitorConfigView>, id: Seq<char>) -> bool {
    exists|i: int| 0 <= i < monitors.len() && (#[trigger] monitors[i]).id == id
}

/// What the configuration keeps of a connected monitor.
pub open spec fn kept(monitor: crate::monitor::MonitorView) -> MonitorConfigView {
    MonitorConfigView {
        id: monitor.id,
        display_device: monitor.display_device,
        physical_index: monitor.physical_index,
        name: monitor.name,
    }
}

/// The list once every connected monitor that it did not know of has been added, in order.
pub open spec fn merged(
    known: Seq<MonitorConfigView>,
    connected: Seq<crate::monitor::MonitorView>,
) -> Seq<MonitorConfigView>
    decreases connected.len(),
{
    if connected.len() == 0 {
        known
    } else {
        let before = merged(known, connected.drop_last());
        if knows(before, connected.last().id) {
            before
        } else {
            before.push(kept(connected.last()))
        }
    }
}

impl ConfigView {
    /// The configuration of a first run.
    pub open spec fn initial() -> ConfigView {
        ConfigView {
            autostart_enabled: false,
            last_brightness: 50,
            monitors: Seq::empty(),
            log_level: "warn"@,
        }
    }

    /// Some monitor has an id that says nothing.
    pub open spec fn has_blank_id(self) -> bool {
        exists|i: int|
            0 <= i < self.monitors.len() && crate::text::blank((#[trigger] self.monitors[i]).id)
    }

    /// What is wrong with the configuration, if anything is.
    pub open spec fn fault(self) -> Option<Seq<char>> {
        if self.has_blank_id() {
            Some("Monitor id cannot be empty"@)
        } else if self.last_brightness > 100 {
            Some("Last brightness cannot exceed 100%"@)
        } else if !log_level_name(self.log_level) {
            Some(
                "Invalid log level: '"@ + self.log_level
                    + "'. Must be one of: error, warn, info, debug"@,
            )
        } else {
            None
        }
    }

    /// The configuration is one that can be kept.
    pub open spec fn valid(self) -> bool {
        self.fault() is None
    }
}

/// What was found where the configuration is kept.
#[derive(Debug)]
pub enum ConfigFile {
    /// There is no file.
    Missing,
    /// The file could not be read; the text says why.
    Unreadable(String),
    /// The file holds no configuration; the text says why.
    Malformed(String),
    Parsed(AppConfig),
}

/// A configuration to go on with.
#[derive(Debug)]
pub struct LoadedConfig {
    pub config: AppConfig,
    /// The configuration is a new one that is to be saved first.
    pub is_new: bool,
}

/// What became of an attempt to write the configuration; the texts say why it failed.
#[derive(Debug)]
pub enum ConfigWrite {
    /// It is not known where the configuration is kept.
    NoPath(String),
    NotSerialized(String),
    NotWritten(String),
    Written,
}

/// The configuration to go on with, and whether it is a new one, given what was found at `path`.
pub open spec fn load_outcome(path: Seq<char>, found: ConfigFile) -> Result<
    (ConfigView, bool),
    Seq<char>,
> {
    match found {
        ConfigFile::Missing => Ok((ConfigView::initial(), true)),
        ConfigFile::Unreadable(error) => Err(
            "Failed to read config file '"@ + path + "': "@ + error@,
        ),
        ConfigFile::Malformed(error) => Err(
            "Failed to parse config file '"@ + path + "': "@ + error@
                + "\n\nPlease check your JSON syntax or delete the file to regenerate defaults."@,
        ),
        ConfigFile::Parsed(config) => match config@.fault() {
            Some(fault) => Err(fault),
            None => Ok((config@, false)),
        },
    }
}

/// What saving a configuration comes to, where writing it had this outcome.
pub open spec fn save_outcome(config: ConfigView, write: ConfigWrite) -> Result<(), Seq<char>> {
    match (config.fault(), write) {
        (Some(fault), _) => Err(fault),
        (None, ConfigWrite::NoPath(error)) => Err(error@),
        (None, ConfigWrite::NotSerialized(error)) => Err("Failed to serialize config: "@ + error@),
        (None, ConfigWrite::NotWritten(error)) => Err("Failed to write config file: "@ + error@),
        (None, ConfigWrite::Written) => Ok(()),
    }
}

impl AppConfig {
    /// The configuration to go on with, given what was found at `path`: a first run begins with
    /// the initial one, and one that cannot be kept is refused.
    pub fn load(path: &str, found: ConfigFile) -> (loaded: Result<LoadedConfig, String>)
        ensures
            match (loaded, load_outcome(path@, found)) {
                (Ok(loaded), Ok((config, is_new))) => {
                    &&& loaded.config@ == config
                    &&& loaded.is_new == is_new
                },
                (Err(said), Err(error)) => said@ == error,
                _ => false,
            },
    {
        match found {
            ConfigFile::Missing => Ok(LoadedConfig { config: AppConfig::default(), is_new: true }),
            ConfigFile::Unreadable(error) => Err(
                "Failed to read config file '".to_owned().concat(path).concat("': ").concat(
                    error.as_str(),
                ),
            ),
            ConfigFile::Malformed(error) => Err(
                "Failed to parse config file '".to_owned().concat(path).concat("': ").concat(
                    error.as_str(),
                ).concat(
                    "\n\nPlease check your JSON syntax or delete the file to regenerate defaults.",
                ),
            ),
            ConfigFile::Parsed(config) => match config.validate() {
                Err(fault) => Err(fault),
                Ok(()) => Ok(LoadedConfig { config, is_new: false }),
            },
        }
    }

    /// What saving the configuration comes to. One that cannot be kept is not to be written; of
    /// any other, `write` tells what became of writing it.
    pub fn save(&self, write: ConfigWrite) -> (saved: Result<(), String>)
        ensures
            crate::text::result_view(saved) == save_outcome(self@, write),
    {
        match self.validate() {
            Err(fault) => Err(fault),
            Ok(()) => match write {
                ConfigWrite::NoPath(error) => Err(error),
                ConfigWrite::NotSerialized(error) => Err(
                    "Failed to serialize config: ".to_owned().concat(error.as_str()),
                ),
                ConfigWrite::NotWritten(error) => Err(
                    "Failed to write config file: ".to_owned().concat(error.as_str()),
                ),
                ConfigWrite::Written => Ok(()),
            },
        }
    }

    /// Checks that the configuration can be kept.
    pub fn validate(&self) -> (checked: Result<(), String>)
        ensures
            crate::text::result_view(checked) == match self@.fault() {
                Some(fault) => Err::<(), Seq<char>>(fault),
                None => Ok::<(), Seq<char>>(()),
            },
    {
        let mut i: usize = 0;
        while i < self.monitors.len()
            invariant
                i <= self.monitors@.len(),
                forall|j: int|
                    0 <= j < i ==> !crate::text::blank((#[trigger] self@.monitors[j]).id),
            decreases self.monitors@.len() - i,
        {
            if is_blank(self.monitors[i].id.as_str()) {
                assert(crate::text::blank(self@.monitors[i as int].id));
                return Err("Monitor id cannot be empty".to_owned());
            }
            i += 1;
        }
        if self.last_brightness > 100 {
            return Err("Last brightness cannot exceed 100%".to_owned());
        }
        let level = self.log_level.as_str();
        if !(same_text(level, "error") || same_text(level, "warn") || same_text(level, "info")
            || same_text(level, "debug")) {
            return Err(
                "Invalid log level: '".to_owned().concat(level).concat(
                    "'. Must be one of: error, warn, info, debug",
                ),
            );
        }
        Ok(())
    }

    /// Whether the configuration knows of a monitor with this id.
    fn has_monitor(&self, id: &str) -> (r: bool)
        ensures
            r == knows(self@.monitors, id@),
    {
        let mut i: usize = 0;
        while i < self.monitors.len()
            invariant
                i <= self.monitors@.len(),
                forall|j: int| 0 <= j < i ==> (#[trigger] self@.monitors[j]).id != id@,
            decreases self.monitors@.len() - i,
        {
            if same_text(self.monitors[i].id.as_str(), id) {
                assert(self@.monitors[i as int].id == id@);
                return true;
            }
            i += 1;
        }
        false
    }

    /// Adds the connected monitors that the configuration does not know of yet. Returns whether
    /// there were any.
    pub fn merge_connected_monitors(&mut self, monitors: &[MonitorInfo]) -> (changed: bool)
        ensures
            final(self)@ == (ConfigView {
                monitors: merged(
                    old(self)@.monitors,
                    crate::monitor::monitor_views(monitors@),
                ),
                ..old(self)@
            }),
            changed == (final(self)@.monitors != old(self)@.monitors),
    {
        let original_len: usize = self.monitors.len();
        let ghost connected = crate::monitor::monitor_views(monitors@);
        let mut i: usize = 0;
        assert(connected.take(0) =~= Seq::empty());
        while i < monitors.len()
            invariant
                i <= monitors@.len(),
                original_len == old(self)@.monitors.len(),
                connected == crate::monitor::monitor_views(monitors@),
                self@ == (ConfigView {
                    monitors: merged(old(self)@.monitors, connected.take(i as int)),
                    ..old(self)@
                }),
            decreases monitors@.len() - i,
        {
            let monitor = &monitors[i];
            assert(connected.take(i + 1).drop_last() =~= connected.take(i as int));
            assert(connected.take(i + 1).last() == monitor@);
            if !self.has_monitor(monitor.id.as_str()) {
                let ghost before = self@.monitors;
                self.monitors.push(
                    MonitorConfig {
                        id: monitor.id.clone(),
                        display_device: monitor.display_device.clone(),
                        physical_index: monitor.physical_index,
                        name: monitor.name.clone(),
                    },
                );
                assert(self@.monitors =~= before.push(kept(monitor@)));
            }
            i += 1;
        }
        assert(connected.take(i as int) =~= connected);
        proof {
            lemma_merged_extends(old(self)@.monitors, connected);
        }
        self.monitors.len() != original_len
    }
}

proof fn lemma_merged_extends(
    known: Seq<MonitorConfigView>,
    connected: Seq<crate::monitor::MonitorView>,
)
    ensures
        known.len() <= merged(known, connected).len(),
        merged(known, connected).take(known.len() as int) == known,
        merged(known, connected).len() == known.len() ==> merged(known, connected) == known,
    decreases connected.len(),
{
    if connected.len() == 0 {
        assert(known.take(known.len() as int) =~= known);
    } else {
        lemma_merged_extends(known, connected.drop_last());
        let before = merged(known, connected.drop_last());
        assert(before.push(kept(connected.last())).take(known.len() as int) =~= before.take(
            known.len() as int,
        ));
    }
}

/// The initial configuration can be kept.
pub proof fn initial_is_valid()
    ensures
        ConfigView::initial().valid(),
{
}

/// A configuration that was saved is taken up as it is when it is found again, and nothing that
/// cannot be taken up is ever saved.
pub proof fn saved_configurations_load(path: Seq<char>, config: AppConfig, write: ConfigWrite)
    ensures
        save_outcome(config@, write) is Ok ==> load_outcome(path, ConfigFile::Parsed(config)) == Ok::<
            (ConfigView, bool),
            Seq<char>,
        >((config@, false)),
        load_outcome(path, ConfigFile::Parsed(config)) is Err ==> save_outcome(
            config@,
            write,
        ) is Err,
{
}

/// Merging leaves what the configuration knew of as it was, and in its place.
pub proof fn merged_keeps_known(
    known: Seq<MonitorConfigView>,
    connected: Seq<crate::monitor::MonitorView>,
    i: int,
)
    requires
        0 <= i < known.len(),
    ensures
        i < merged(known, connected).len(),
        merged(known, connected)[i] == known[i],
{
    lemma_merged_extends(known, connected);
    assert(merged(known, connected).take(known.len() as int)[i] == known[i]);
}

/// After merging, the configuration knows of every connected monitor.
pub proof fn merged_knows_connected(
    known: Seq<MonitorConfigView>,
    connected: Seq<crate::monitor::MonitorView>,
    i: int,
)
    requires
        0 <= i < connected.len(),
    ensures
        knows(merged(known, connected), connected[i].id),
    decreases connected.len(),
{
    let before = merged(known, connected.drop_last());
    let after = merged(known, connected);
    if i < connected.len() - 1 {
        merged_knows_connected(known, connected.drop_last(), i);
        let k = choose|k: int| 0 <= k < before.len() && (#[trigger] before[k]).id == connected[i].id;
        assert(after[k].id == connected[i].id);
    } else if !knows(before, connected[i].id) {
        assert(after[before.len() as int].id == connected[i].id);
    }
}

/// Merging adds nothing but connected monitors that were not known of, each once: what it adds
/// stands for a connected monitor, and no entry before it has the same id.
pub proof fn merged_adds_only_new(
    known: Seq<MonitorConfigView>,
    connected: Seq<crate::monitor::MonitorView>,
    i: int,
)
    requires
        known.len() <= i < merged(known, connected).len(),
    ensures
        exists|j: int|
            0 <= j < connected.len() && merged(known, connected)[i] == kept(#[trigger] connected[j]),
        forall|k: int|
            0 <= k < i ==> (#[trigger] merged(known, connected)[k]).id != merged(
                known,
                connected,
            )[i].id,
    decreases connected.len(),
{
    if connected.len() > 0 {
        let shorter = connected.drop_last();
        let before = merged(known, shorter);
        let after = merged(known, connected);
        if i < before.len() {
            merged_adds_only_new(known, shorter, i);
            let j = choose|j: int|
                0 <= j < shorter.len() && before[i] == kept(#[trigger] shorter[j]);
            assert(connected[j] == shorter[j]);
            assert forall|k: int| 0 <= k < i implies (#[trigger] after[k]).id != after[i].id by {
                assert(before[k].id != before[i].id);
            }
        } else {
            assert(after[i] == kept(connected[connected.len() - 1]));
            assert forall|k: int| 0 <= k < i implies (#[trigger] after[k]).id != after[i].id by {
                assert(before[k].id != connected.last().id);
            }
        }
    }
}

/// Merging monitors that the configuration knows of already changes nothing.
pub proof fn merged_known(
    known: Seq<MonitorConfigView>,
    connected: Seq<crate::monitor::MonitorView>,
)
    requires
        forall|i: int| 0 <= i < connected.len() ==> knows(known, (#[trigger] connected[i]).id),
    ensures
        merged(known, connected) == known,
    decreases connected.len(),
{
    if connected.len() > 0 {
        assert forall|i: int| 0 <= i < connected.drop_last().len() implies knows(
            known,
            (#[trigger] connected.drop_last()[i]).id,
        ) by {
            assert(connected.drop_last()[i] == connected[i]);
        }
        merged_known(known, connected.drop_last());
        assert(connected.last() == connected[connected.len() - 1]);
    }
}

/// Merging monitors whose ids have all been merged before changes nothing, in whatever order and
/// however often they come.
pub proof fn merged_before(
    known: Seq<MonitorConfigView>,
    earlier: Seq<crate::monitor::MonitorView>,
    later: Seq<crate::monitor::MonitorView>,
)
    requires
        forall|i: int|
            0 <= i < later.len() ==> exists|j: int|
                0 <= j < earlier.len() && (#[trigger] earlier[j]).id == (#[trigger] later[i]).id,
    ensures
        merged(merged(known, earlier), later) == merged(known, earlier),
{
    let list = merged(known, earlier);
    assert forall|i: int| 0 <= i < later.len() implies knows(list, (#[trigger] later[i]).id) by {
        let j = choose|j: int|
            0 <= j < earlier.len() && (#[trigger] earlier[j]).id == later[i].id;
        merged_knows_connected(known, earlier, j);
    }
    merged_known(list, later);
}

/// Merging the same monitors again changes nothing.
pub proof fn merged_twice(
    known: Seq<MonitorConfigView>,
    connected: Seq<crate::monitor::MonitorView>,
)
    ensures
        merged(merged(known, connected), connected) == merged(known, connected),
{
    merged_before(known, connected, connected);
}

/// A valid configuration stays valid when monitors with ids that are not blank are merged into
/// it.
pub proof fn merged_stays_valid(config: ConfigView, connected: Seq<crate::monitor::MonitorView>)
    requires
        config.valid(),
        forall|i: int|
            0 <= i < connected.len() ==> !crate::text::blank((#[trigger] connected[i]).id),
    ensures
        (ConfigView { monitors: merged(config.monitors, connected), ..config }).valid(),
{
    let after = ConfigView { monitors: merged(config.monitors, connected), ..config };
    assert forall|i: int| 0 <= i < after.monitors.len() implies !crate::text::blank(
        (#[trigger] after.monitors[i]).id,
    ) by {
        if i < config.monitors.len() {
            merged_keeps_known(config.monitors, connected, i);
            assert(!crate::text::blank(config.monitors[i].id));
        } else {
            merged_adds_only_new(config.monitors, connected, i);
        }
    }
}

/// The entry at `i` is the first with its id.
pub open spec fn first_of(connected: Seq<crate::monitor::MonitorView>, i: int) -> bool {
    &&& 0 <= i < connected.len()
    &&& forall|j: int| 0 <= j < i ==> (#[trigger] connected[j]).id != connected[i].id
}

/// After merging, some entry has the id of each connected monitor.
pub proof fn connected_monitors_have_entries(
    known: Seq<MonitorConfigView>,
    connected: Seq<crate::monitor::MonitorView>,
    i: int,
)
    requires
        0 <= i < connected.len(),
    ensures
        exists|k: int|
            0 <= k < merged(known, connected).len() && (#[trigger] merged(known, connected)[k]).id
                == connected[i].id,
{
    merged_knows_connected(known, connected, i);
}

/// What merging adds is taken over from the first connected monitor with its id, field by field;
/// the configuration did not know of that id.
pub proof fn added_entries_copy_monitors(
    known: Seq<MonitorConfigView>,
    connected: Seq<crate::monitor::MonitorView>,
    i: int,
) -> (a: int)
    requires
        known.len() <= i < merged(known, connected).len(),
    ensures
        first_of(connected, a),
        merged(known, connected)[i].id == connected[a].id,
        merged(known, connected)[i].display_device == connected[a].display_device,
        merged(known, connected)[i].physical_index == connected[a].physical_index,
        merged(known, connected)[i].name == connected[a].name,
        forall|k: int| 0 <= k < known.len() ==> (#[trigger] known[k]).id != connected[a].id,
    decreases connected.len(),
{
    if connected.len() == 0 {
        return 0;
    }
    let shorter = connected.drop_last();
    let before = merged(known, shorter);
    lemma_merged_extends(known, shorter);
    if i < before.len() {
        let a = added_entries_copy_monitors(known, shorter, i);
        assert forall|j: int| 0 <= j < a implies (#[trigger] connected[j]).id
            != connected[a].id by {
            assert(shorter[j].id != shorter[a].id);
        }
        a
    } else {
        let a = connected.len() - 1;
        assert forall|j: int| 0 <= j < a implies (#[trigger] connected[j]).id
            != connected[a].id by {
            merged_knows_connected(known, shorter, j);
            assert(shorter[j] == connected[j]);
        }
        assert forall|k: int| 0 <= k < known.len() implies (#[trigger] known[k]).id
            != connected[a].id by {
            merged_keeps_known(known, shorter, k);
            assert(before[k].id != connected.last().id);
        }
        a
    }
}

/// What merging adds comes in the order in which the monitors are connected.
pub proof fn added_entries_keep_the_order(
    known: Seq<MonitorConfigView>,
    connected: Seq<crate::monitor::MonitorView>,
    i: int,
    j: int,
)
    requires
        known.len() <= i < j < merged(known, connected).len(),
    ensures
        exists|a: int, b: int|
            #![trigger first_of(connected, a), first_of(connected, b)]
            a < b && first_of(connected, a) && first_of(connected, b) && merged(
                known,
                connected,
            )[i].id == connected[a].id && merged(known, connected)[j].id == connected[b].id,
    decreases connected.len(),
{
    if connected.len() > 0 {
        let shorter = connected.drop_last();
        let before = merged(known, shorter);
        if j < before.len() {
            added_entries_keep_the_order(known, shorter, i, j);
            let (a, b) = choose|a: int, b: int|
                #![trigger first_of(shorter, a), first_of(shorter, b)]
                a < b && first_of(shorter, a) && first_of(shorter, b) && before[i].id
                    == shorter[a].id && before[j].id == shorter[b].id;
            assert forall|k: int| 0 <= k < a implies (#[trigger] connected[k]).id
                != connected[a].id by {
                assert(shorter[k].id != shorter[a].id);
            }
            assert forall|k: int| 0 <= k < b implies (#[trigger] connected[k]).id
                != connected[b].id by {
                assert(shorter[k].id != shorter[b].id);
            }
            assert(first_of(connected, a) && first_of(connected, b));
        } else {
            let a = added_entries_copy_monitors(known, shorter, i);
            assert forall|k: int| 0 <= k < a implies (#[trigger] connected[k]).id
                != connected[a].id by {
                assert(shorter[k].id != shorter[a].id);
            }
            let b = added_entries_copy_monitors(known, connected, j);
            assert(merged(known, connected)[j].id == connected.last().id);
            assert(b == connected.len() - 1) by {
                if b < connected.len() - 1 {
                    merged_knows_connected(known, shorter, b);
                    assert(shorter[b] == connected[b]);
                }
            }
            assert(first_of(connected, a) && first_of(connected, b));
        }
    }
}

/// Some character of a text is no white space.
pub open spec fn says_something(text: Seq<char>) -> bool {
    exists|k: int| 0 <= k < text.len() && !crate::text::white_space(#[trigger] text[k])
}

/// A configuration can be kept exactly where the id of every monitor holds something else than
/// white space, the last brightness is a percentage, and the log level is one of the four names in
/// lower case.
pub proof fn valid_configurations(config: ConfigView)
    ensures
        config.valid() <==> {
            &&& forall|i: int|
                0 <= i < config.monitors.len() ==> says_something((#[trigger] config.monitors[i]).id)
            &&& config.last_brightness <= 100
            &&& (config.log_level == "error"@ || config.log_level == "warn"@ || config.log_level
                == "info"@ || config.log_level == "debug"@)
        },
        config.valid() <==> config.fault() is None,
{
    assert forall|text: Seq<char>| #[trigger]
        says_something(text) == !crate::text::blank(text) by {
        if says_something(text) {
            let k = choose|k: int|
                0 <= k < text.len() && !crate::text::white_space(#[trigger] text[k]);
            assert(!crate::text::white_space(text[k]));
        }
    }
    if !config.has_blank_id() {
        assert forall|i: int| 0 <= i < config.monitors.len() implies says_something(
            (#[trigger] config.monitors[i]).id,
        ) by {
            assert(!crate::text::blank(config.monitors[i].id));
        }
    }
}

/// The first thing that is wrong is the one that is named: a blank id, then the brightness, then
/// the log level, which is quoted.
pub proof fn faults_are_named(config: ConfigView, i: int)
    ensures
        0 <= i < config.monitors.len() && crate::text::blank(config.monitors[i].id)
            ==> config.fault() == Some("Monitor id cannot be empty"@),
        (forall|k: int|
            0 <= k < config.monitors.len() ==> !crate::text::blank((#[trigger] config.monitors[k]).id))
            ==> {
            &&& config.last_brightness > 100 ==> config.fault() == Some(
                "Last brightness cannot exceed 100%"@,
            )
            &&& config.last_brightness <= 100 && !config.valid() ==> config.fault() == Some(
                "Invalid log level: '"@ + config.log_level
                    + "'. Must be one of: error, warn, info, debug"@,
            )
        },
{
}

/// A first run begins without autostart, at half brightness, with no monitor known and with
/// warnings logged.
pub proof fn first_runs_begin_so(path: Seq<char>)
    ensures
        load_outcome(path, ConfigFile::Missing) matches Ok((config, is_new)) && is_new
            && !config.autostart_enabled && config.last_brightness == 50 && config.monitors.len()
            == 0 && config.log_level == "warn"@,
{
}

/// What cannot be loaded is refused with the reason and the place, and what can be kept is taken up
/// unchanged and not as new.
pub proof fn loading_says_why_not(path: Seq<char>, error: String, config: AppConfig)
    ensures
        load_outcome(path, ConfigFile::Unreadable(error)) == Err::<(ConfigView, bool), Seq<char>>(
            "Failed to read config file '"@ + path + "': "@ + error@,
        ),
        load_outcome(path, ConfigFile::Malformed(error)) == Err::<(ConfigView, bool), Seq<char>>(
            "Failed to parse config file '"@ + path + "': "@ + error@
                + "\n\nPlease check your JSON syntax or delete the file to regenerate defaults."@,
        ),
        match load_outcome(path, ConfigFile::Parsed(config)) {
            Ok((taken, is_new)) => config@.valid() && taken == config@ && !is_new,
            Err(said) => !config@.valid() && config@.fault() == Some(said),
        },
{
}

/// Saving succeeds exactly where the configuration can be kept and was written. What is wrong with
/// the configuration comes before what went wrong with writing it.
pub proof fn saving_says_why_not(config: ConfigView, error: String, write: ConfigWrite)
    ensures
        save_outcome(config, write) is Ok <==> config.valid() && write is Written,
        !config.valid() ==> save_outcome(config, write) == Err::<(), Seq<char>>(config.fault()->0),
        config.valid() ==> {
            &&& save_outcome(config, ConfigWrite::NoPath(error)) == Err::<(), Seq<char>>(error@)
            &&& save_outcome(config, ConfigWrite::NotSerialized(error)) == Err::<(), Seq<char>>(
                "Failed to serialize config: "@ + error@,
            )
            &&& save_outcome(config, ConfigWrite::NotWritten(error)) == Err::<(), Seq<char>>(
                "Failed to write config file: "@ + error@,
            )
        },
{
}

/// What a configuration stands for holds all of it: every field, and every monitor in its place.
pub proof fn configurations_are_seen_whole(config: AppConfig, monitor: MonitorConfig, i: int)
    ensures
        config@.autostart_enabled == config.autostart_enabled,
        config@.last_brightness == config.last_brightness,
        config@.log_level == config.log_level@,
        config@.monitors.len() == config.monitors@.len(),
        0 <= i < config.monitors@.len() ==> config@.monitors[i] == config.monitors@[i]@,
        monitor@.id == monitor.id@,
        monitor@.display_device == monitor.display_device@,
        monitor@.physical_index == monitor.physical_index,
        monitor@.name == monitor.name@,
{
}

} // verus!
