//! The connected monitors and the levels that were last set on them.

use crate::ddc::{level_percent, ApplyRequest, ApplyResult, LevelKind, LevelRange};
use crate::text::{same_text, text_from_utf16};
use vstd::prelude::*;
use vstd::string::*;

verus! {

/// A connected monitor.
#[derive(Debug)]
pub struct MonitorInfo {
    pub id: String,
    pub display_device: String,
    pub physical_index: u32,
    pub handle: isize,
    pub name: String,
    pub is_primary: bool,
    /// The brightness, in percent, that the monitor is known to have.
    pub cached_brightness: Option<u32>,
    /// The contrast, in percent, that the monitor is known to have.
    pub cached_contrast: Option<u32>,
}

/// What a [`MonitorInfo`] stands for.
#[verifier::ext_equal]
pub struct MonitorView {
    pub id: Seq<char>,
    pub display_device: Seq<char>,
    pub physical_index: u32,
    pub handle: isize,
    pub name: Seq<char>,
    pub is_primary: bool,
    pub cached_brightness: Option<u32>,
    pub cached_contrast: Option<u32>,
}

impl View for MonitorInfo {
    type V = MonitorView;

    open spec fn view(&self) -> MonitorView {
        MonitorView {
            id: self.id@,
            display_device: self.display_device@,
            physical_index: self.physical_index,
            handle: self.handle,
            name: self.name@,
            is_primary: self.is_primary,
            cached_brightness: self.cached_brightness,
            cached_contrast: self.cached_contrast,
        }
    }
}

impl Clone for MonitorInfo {
    fn clone(&self) -> (copy: Self)
        ensures
            copy@ == self@,
    {
        MonitorInfo {
            id: self.id.clone(),
            display_device: self.display_device.clone(),
            physical_index: self.physical_index,
            handle: self.handle,
            name: self.name.clone(),
            is_primary: self.is_primary,
            cached_brightness: self.cached_brightness,
            cached_contrast: self.cached_contrast,
        }
    }
}

/// Brightness and contrast, in percent.
#[derive(Clone, Copy, Debug, PartialEq, Eq, Structural)]
pub struct MonitorLevels {
    pub brightness: u32,
    pub contrast: u32,
}

/// A write to the physical monitors behind the monitor at a place of the list.
#[derive(Clone, Copy, Debug, PartialEq, Eq, Structural)]
pub struct CommitPlan {
    pub index: usize,
    pub request: ApplyRequest,
}

/// A display as the system describes it: its handle, its device name as UTF-16 code units that
/// end at the first zero, and its flags.
#[derive(Debug)]
pub struct DisplayDevice {
    pub handle: isize,
    pub device: Vec<u16>,
    pub flags: u32,
}

impl MonitorView {
    /// The levels that the monitor is known to have are percentages.
    pub open spec fn wf(self) -> bool {
        &&& self.cached_brightness matches Some(level) ==> level <= 100
        &&& self.cached_contrast matches Some(level) ==> level <= 100
    }
}

/// What a list of monitors stands for.
pub open spec fn monitor_views(monitors: Seq<MonitorInfo>) -> Seq<MonitorView> {
    Seq::new(monitors.len(), |i: int| monitors[i]@)
}

/// The position of the first zero, or the length where there is none.
pub open spec fn text_end(units: Seq<u16>) -> nat
    decreases units.len(),
{
    if units.len() == 0 || units[0] == 0 {
        0
    } else {
        1 + text_end(units.drop_first())
    }
}

/// The monitor that a display with this device name stands for; nothing is known of its levels
/// yet.
pub open spec fn described(handle: isize, device: Seq<char>, is_primary: bool) -> MonitorView {
    MonitorView {
        id: device,
        display_device: device,
        physical_index: 0,
        handle,
        name: device,
        is_primary,
        cached_brightness: None,
        cached_contrast: None,
    }
}

/// The monitor that a display stands for. The lowest flag marks the primary display.
pub open spec fn listed(display: DisplayDevice) -> MonitorView {
    described(
        display.handle,
        crate::text::utf16_text(display.device@.take(text_end(display.device@) as int)),
        display.flags % 2 == 1,
    )
}

/// Where a text of zero-terminated code units ends.
fn find_text_end(units: &Vec<u16>) -> (end: usize)
    ensures
        end == text_end(units@),
        end <= units@.len(),
{
    let mut i: usize = 0;
    assert(units@.skip(0) =~= units@);
    while i < units.len()
        invariant
            i <= units@.len(),
            text_end(units@) == i + text_end(units@.skip(i as int)),
        decreases units@.len() - i,
    {
        assert(units@.skip(i as int)[0] == units@[i as int]);
        assert(units@.skip(i as int).drop_first() =~= units@.skip(i + 1));
        if units[i] == 0 {
            return i;
        }
        i += 1;
    }
    i
}

/// The monitor that a display with this device name stands for.
pub fn describe_monitor(handle: isize, device: String, is_primary: bool) -> (monitor: MonitorInfo)
    ensures
        monitor@ == described(handle, device@, is_primary),
{
    MonitorInfo {
        id: device.clone(),
        display_device: device.clone(),
        physical_index: 0,
        handle,
        name: device,
        is_primary,
        cached_brightness: None,
        cached_contrast: None,
    }
}

/// The monitors that the displays of the system stand for, in their order.
pub fn get_monitor_list_sync(displays: &Vec<DisplayDevice>) -> (listing: Result<
    Vec<MonitorInfo>,
    String,
>)
    ensures
        listing matches Ok(monitors) && monitor_views(monitors@) == displays@.map_values(
            |display: DisplayDevice| listed(display),
        ),
{
    let mut monitors: Vec<MonitorInfo> = Vec::new();
    let mut i: usize = 0;
    while i < displays.len()
        invariant
            i <= displays@.len(),
            monitors@.len() == i,
            forall|j: int| 0 <= j < i ==> (#[trigger] monitors@[j])@ == listed(displays@[j]),
        decreases displays@.len() - i,
    {
        let display = &displays[i];
        let end: usize = find_text_end(&display.device);
        let device = text_from_utf16(vstd::slice::slice_subrange(display.device.as_slice(), 0, end));
        let flags = display.flags;
        assert(flags & 1 == flags % 2) by (bit_vector);
        assert(display.device@.take(end as int) =~= display.device@.subrange(0, end as int));
        monitors.push(describe_monitor(display.handle, device, (flags & 1) != 0));
        i += 1;
    }
    assert(monitor_views(monitors@) =~= displays@.map_values(
        |display: DisplayDevice| listed(display),
    ));
    Ok(monitors)
}

/// Finds the monitor with an id.
pub fn find_monitor(monitors: &Vec<MonitorInfo>, id: &str) -> (found: Result<usize, String>)
    ensures
        match found {
            Ok(i) => {
                &&& i < monitors@.len()
                &&& monitors@[i as int]@.id == id@
                &&& forall|j: int| 0 <= j < i ==> (#[trigger] monitors@[j])@.id != id@
            },
            Err(error) => {
                &&& error@ == "The selected monitor is no longer connected"@
                &&& forall|j: int| 0 <= j < monitors@.len() ==> (#[trigger] monitors@[j])@.id != id@
            },
        },
{
    let mut i: usize = 0;
    while i < monitors.len()
        invariant
            i <= monitors@.len(),
            forall|j: int| 0 <= j < i ==> (#[trigger] monitors@[j])@.id != id@,
        decreases monitors@.len() - i,
    {
        if same_text(monitors[i].id.as_str(), id) {
            return Ok(i);
        }
        i += 1;
    }
    Err("The selected monitor is no longer connected".to_owned())
}

/// The write that settings need: none where the monitor is known to have them already.
pub open spec fn needed(
    monitor: MonitorView,
    brightness: u32,
    contrast: u32,
) -> Result<Option<ApplyRequest>, Seq<char>> {
    if brightness > 100 || contrast > 100 {
        Err("Values must be between 0 and 100"@)
    } else if monitor.cached_brightness == Some(brightness) && monitor.cached_contrast == Some(
        contrast,
    ) {
        Ok(None)
    } else {
        Ok(
            Some(
                ApplyRequest {
                    brightness,
                    contrast,
                    apply_brightness: monitor.cached_brightness != Some(brightness),
                    apply_contrast: monitor.cached_contrast != Some(contrast),
                },
            ),
        )
    }
}

/// The monitor once a run has achieved this much of two levels.
pub open spec fn remembered(
    monitor: MonitorView,
    brightness: u32,
    contrast: u32,
    applied: ApplyResult,
) -> MonitorView {
    MonitorView {
        cached_brightness: if applied.brightness_succeeded {
            Some(brightness)
        } else {
            monitor.cached_brightness
        },
        cached_contrast: if applied.contrast_succeeded {
            Some(contrast)
        } else {
            monitor.cached_contrast
        },
        ..monitor
    }
}

/// What setting both levels comes to, where the monitors answer a write so.
pub open spec fn settled(
    monitor: MonitorView,
    brightness: u32,
    contrast: u32,
    applied: Result<ApplyResult, Seq<char>>,
) -> (MonitorView, Result<bool, Seq<char>>) {
    match (needed(monitor, brightness, contrast), applied) {
        (Err(error), _) => (monitor, Err(error)),
        (Ok(None), _) => (monitor, Ok(false)),
        (Ok(Some(_)), Err(error)) => (monitor, Err(error)),
        (Ok(Some(_)), Ok(applied)) => (
            remembered(monitor, brightness, contrast, applied),
            Ok(applied.brightness_wrote || applied.contrast_wrote),
        ),
    }
}

/// The write that settings need, if they need one.
pub fn plan_monitor_settings(monitor_info: &MonitorInfo, brightness: u32, contrast: u32) -> (plan:
    Result<Option<ApplyRequest>, String>)
    ensures
        crate::text::result_view(plan) == needed(monitor_info@, brightness, contrast),
{
    if brightness > 100 || contrast > 100 {
        return Err("Values must be between 0 and 100".to_owned());
    }
    let apply_brightness = match monitor_info.cached_brightness {
        Some(cached) => cached != brightness,
        None => true,
    };
    let apply_contrast = match monitor_info.cached_contrast {
        Some(cached) => cached != contrast,
        None => true,
    };
    if !apply_brightness && !apply_contrast {
        return Ok(None);
    }
    Ok(Some(ApplyRequest { brightness, contrast, apply_brightness, apply_contrast }))
}

/// Sets both levels of a monitor. Hardware wears, so nothing is written where nothing changes;
/// `applied` is what the physical monitors made of the write that [`plan_monitor_settings`]
/// asks for, and counts only where it asks for one. Returns whether anything was written.
pub fn set_monitor_settings_with_cache(
    monitor_info: &mut MonitorInfo,
    brightness: u32,
    contrast: u32,
    applied: Result<ApplyResult, String>,
) -> (changed: Result<bool, String>)
    ensures
        (final(monitor_info)@, crate::text::result_view(changed)) == settled(
            old(monitor_info)@,
            brightness,
            contrast,
            crate::text::result_view(applied),
        ),
{
    match plan_monitor_settings(monitor_info, brightness, contrast) {
        Err(error) => Err(error),
        Ok(None) => Ok(false),
        Ok(Some(_)) => match applied {
            Err(error) => Err(error),
            Ok(applied) => {
                if applied.brightness_succeeded {
                    monitor_info.cached_brightness = Some(brightness);
                }
                if applied.contrast_succeeded {
                    monitor_info.cached_contrast = Some(contrast);
                }
                Ok(applied.brightness_wrote || applied.contrast_wrote)
            },
        },
    }
}

/// The write that setting a single level takes.
pub open spec fn single(kind: LevelKind, value: u32) -> Result<ApplyRequest, Seq<char>> {
    if value > 100 {
        Err("Values must be between 0 and 100"@)
    } else {
        Ok(
            ApplyRequest {
                brightness: value,
                contrast: value,
                apply_brightness: kind == LevelKind::Brightness,
                apply_contrast: kind == LevelKind::Contrast,
            },
        )
    }
}

/// What setting a single level comes to, where the monitors answer the write so.
pub open spec fn single_settled(
    monitor: MonitorView,
    kind: LevelKind,
    value: u32,
    applied: Result<ApplyResult, Seq<char>>,
) -> (MonitorView, Result<bool, Seq<char>>) {
    match (single(kind, value), applied, kind) {
        (Err(error), _, _) => (monitor, Err(error)),
        (Ok(_), Err(error), _) => (monitor, Err(error)),
        (Ok(_), Ok(applied), LevelKind::Brightness) => (
            MonitorView {
                cached_brightness: if applied.brightness_succeeded {
                    Some(value)
                } else {
                    monitor.cached_brightness
                },
                ..monitor
            },
            Ok(applied.brightness_wrote),
        ),
        (Ok(_), Ok(applied), LevelKind::Contrast) => (
            MonitorView {
                cached_contrast: if applied.contrast_succeeded {
                    Some(value)
                } else {
                    monitor.cached_contrast
                },
                ..monitor
            },
            Ok(applied.contrast_wrote),
        ),
    }
}

/// The write that setting a single level takes.
pub fn plan_single_level(kind: LevelKind, value: u32) -> (plan: Result<ApplyRequest, String>)
    ensures
        crate::text::result_view(plan) == single(kind, value),
{
    if value > 100 {
        return Err("Values must be between 0 and 100".to_owned());
    }
    Ok(
        ApplyRequest {
            brightness: value,
            contrast: value,
            apply_brightness: kind == LevelKind::Brightness,
            apply_contrast: kind == LevelKind::Contrast,
        },
    )
}

/// Sets the brightness of a monitor and leaves its contrast alone. `applied` is what the
/// physical monitors made of the write that [`plan_single_level`] asks for.
pub fn set_monitor_brightness_only(
    monitor_info: &mut MonitorInfo,
    value: u32,
    applied: Result<ApplyResult, String>,
) -> (changed: Result<bool, String>)
    ensures
        (final(monitor_info)@, crate::text::result_view(changed)) == single_settled(
            old(monitor_info)@,
            LevelKind::Brightness,
            value,
            crate::text::result_view(applied),
        ),
{
    match plan_single_level(LevelKind::Brightness, value) {
        Err(error) => Err(error),
        Ok(_) => match applied {
            Err(error) => Err(error),
            Ok(applied) => {
                if applied.brightness_succeeded {
                    monitor_info.cached_brightness = Some(value);
                }
                Ok(applied.brightness_wrote)
            },
        },
    }
}

/// Sets the contrast of a monitor and leaves its brightness alone. `applied` is what the
/// physical monitors made of the write that [`plan_single_level`] asks for.
pub fn set_monitor_contrast_only(
    monitor_info: &mut MonitorInfo,
    value: u32,
    applied: Result<ApplyResult, String>,
) -> (changed: Result<bool, String>)
    ensures
        (final(monitor_info)@, crate::text::result_view(changed)) == single_settled(
            old(monitor_info)@,
            LevelKind::Contrast,
            value,
            crate::text::result_view(applied),
        ),
{
    match plan_single_level(LevelKind::Contrast, value) {
        Err(error) => Err(error),
        Ok(_) => match applied {
            Err(error) => Err(error),
            Ok(applied) => {
                if applied.contrast_succeeded {
                    monitor_info.cached_contrast = Some(value);
                }
                Ok(applied.contrast_wrote)
            },
        },
    }
}

/// Sets a single level of a monitor and leaves the other alone. `applied` is what the physical
/// monitors made of the write that [`plan_single_level`] asks for.
pub fn set_monitor_level(
    monitor_info: &mut MonitorInfo,
    kind: LevelKind,
    value: u32,
    applied: Result<ApplyResult, String>,
) -> (changed: Result<bool, String>)
    ensures
        (final(monitor_info)@, crate::text::result_view(changed)) == single_settled(
            old(monitor_info)@,
            kind,
            value,
            crate::text::result_view(applied),
        ),
{
    match kind {
        LevelKind::Brightness => set_monitor_brightness_only(monitor_info, value, applied),
        LevelKind::Contrast => set_monitor_contrast_only(monitor_info, value, applied),
    }
}

/// The write that setting a single level of the monitor with an id takes, and the place of that
/// monitor.
pub fn commit_level(
    monitors: &Vec<MonitorInfo>,
    monitor_id: &str,
    kind: LevelKind,
    value: u32,
) -> (plan: Result<CommitPlan, String>)
    ensures
        match plan {
            Ok(plan) => {
                &&& plan.index < monitors@.len()
                &&& monitors@[plan.index as int]@.id == monitor_id@
                &&& forall|j: int|
                    0 <= j < plan.index ==> (#[trigger] monitors@[j])@.id != monitor_id@
                &&& single(kind, value) == Ok::<ApplyRequest, Seq<char>>(plan.request)
            },
            Err(error) => if exists|j: int|
                0 <= j < monitors@.len() && (#[trigger] monitors@[j])@.id == monitor_id@ {
                single(kind, value) == Err::<ApplyRequest, Seq<char>>(error@)
            } else {
                error@ == "The selected monitor is no longer connected"@
            },
        },
{
    match find_monitor(monitors, monitor_id) {
        Err(error) => Err(error),
        Ok(index) => match plan_single_level(kind, value) {
            Err(error) => Err(error),
            Ok(request) => Ok(CommitPlan { index, request }),
        },
    }
}

/// The physical monitor to read the levels of a monitor from, by its place among those behind the
/// display; there is none where the display has too few. `support` tells whether monitors can be
/// reached at all, `found` how many there are behind the display.
pub fn plan_level_read(
    monitor_info: &MonitorInfo,
    support: Result<(), String>,
    found: Result<usize, String>,
) -> (physical: Result<Option<usize>, String>)
    ensures
        crate::text::result_view(physical) == match (support, found) {
            (Err(error), _) => Err("DDC/CI error: "@ + error@),
            (Ok(_), Err(error)) => Err("Failed to get physical monitor(s): "@ + error@),
            (Ok(_), Ok(count)) => if monitor_info@.physical_index < count {
                Ok(Some(monitor_info@.physical_index as usize))
            } else {
                Ok(None)
            },
        },
{
    match support {
        Err(error) => Err("DDC/CI error: ".to_owned().concat(error.as_str())),
        Ok(_) => match found {
            Err(error) => Err(
                "Failed to get physical monitor(s): ".to_owned().concat(error.as_str()),
            ),
            Ok(count) => if (monitor_info.physical_index as usize) < count {
                Ok(Some(monitor_info.physical_index as usize))
            } else {
                Ok(None)
            },
        },
    }
}

/// The levels at which a monitor stands, from what it reports of each; `None` where it does not
/// support the level.
pub fn levels_from_ranges(
    brightness: Option<LevelRange>,
    contrast: Option<LevelRange>,
) -> (levels: Result<MonitorLevels, String>)
    ensures
        crate::text::result_view(levels) == match (brightness, contrast) {
            (None, _) => Err("Brightness not supported"@),
            (Some(_), None) => Err("Contrast not supported"@),
            (Some(b), Some(c)) => Ok(
                MonitorLevels {
                    brightness: crate::ddc::percent(b) as u32,
                    contrast: crate::ddc::percent(c) as u32,
                },
            ),
        },
{
    match brightness {
        None => Err("Brightness not supported".to_owned()),
        Some(brightness) => match contrast {
            None => Err("Contrast not supported".to_owned()),
            Some(contrast) => Ok(
                MonitorLevels {
                    brightness: level_percent(brightness),
                    contrast: level_percent(contrast),
                },
            ),
        },
    }
}

/// A write is asked for only of values that are percentages and only of a level that changes.
pub proof fn needed_writes_change_something(monitor: MonitorView, brightness: u32, contrast: u32)
    ensures
        needed(monitor, brightness, contrast) matches Ok(Some(request)) ==> {
            &&& crate::session::in_percent(request)
            &&& request.apply_brightness || request.apply_contrast
            &&& request.apply_brightness <==> monitor.cached_brightness != Some(brightness)
            &&& request.apply_contrast <==> monitor.cached_contrast != Some(contrast)
        },
{
}

/// Setting levels that a run has just established asks for no further write: once every level
/// that was asked for has reached some physical monitor, the same settings are free.
pub proof fn repeated_settings_are_free(
    monitor: MonitorView,
    brightness: u32,
    contrast: u32,
    count: usize,
    device: crate::session::Device,
)
    requires
        needed(monitor, brightness, contrast) matches Ok(Some(request)) && {
            let log = crate::session::full_log(request, count, device);
            &&& request.apply_brightness ==> crate::session::succeeded(log, LevelKind::Brightness)
            &&& request.apply_contrast ==> crate::session::succeeded(log, LevelKind::Contrast)
        },
    ensures
        needed(monitor, brightness, contrast) matches Ok(Some(request)) && {
            let log = crate::session::full_log(request, count, device);
            let (after, changed) = settled(
                monitor,
                brightness,
                contrast,
                crate::session::summary(request, log),
            );
            &&& changed is Ok
            &&& needed(after, brightness, contrast) == Ok::<Option<ApplyRequest>, Seq<char>>(None)
        },
{
}

/// A run that reaches no physical monitor is reported as an error, and what was known of the
/// monitor's levels stays.
pub proof fn failed_settings_are_forgotten(
    monitor: MonitorView,
    brightness: u32,
    contrast: u32,
    log: Seq<crate::ddc::Done>,
)
    requires
        needed(monitor, brightness, contrast) is Ok,
        needed(monitor, brightness, contrast)->Ok_0 is Some,
        !crate::session::succeeded(log, LevelKind::Brightness),
        !crate::session::succeeded(log, LevelKind::Contrast),
    ensures
        ({
            let request = needed(monitor, brightness, contrast)->Ok_0->0;
            let (after, changed) = settled(
                monitor,
                brightness,
                contrast,
                crate::session::summary(request, log),
            );
            after == monitor && changed is Err
        }),
{
}

/// Setting a single level asks for a write of that level alone, and what is known of the other
/// one stays.
pub proof fn single_level_leaves_the_other(
    monitor: MonitorView,
    kind: LevelKind,
    value: u32,
    applied: Result<ApplyResult, Seq<char>>,
)
    ensures
        single(kind, value) matches Ok(request) ==> {
            &&& crate::session::in_percent(request)
            &&& crate::session::wanted(request, kind) == value
            &&& forall|other: LevelKind|
                #[trigger] crate::session::asked(request, other) <==> other == kind
        },
        ({
            let after = single_settled(monitor, kind, value, applied).0;
            &&& kind != LevelKind::Brightness ==> after.cached_brightness
                == monitor.cached_brightness
            &&& kind != LevelKind::Contrast ==> after.cached_contrast == monitor.cached_contrast
        }),
{
}

/// Whatever is set on a monitor, and whatever comes of it, what is known of its levels stays a
/// percentage, and nothing else about the monitor changes.
pub proof fn known_levels_stay_percentages(
    monitor: MonitorView,
    brightness: u32,
    contrast: u32,
    kind: LevelKind,
    applied: Result<ApplyResult, Seq<char>>,
)
    requires
        monitor.wf(),
    ensures
        ({
            let both = settled(monitor, brightness, contrast, applied).0;
            let one = single_settled(monitor, kind, brightness, applied).0;
            &&& both.wf()
            &&& one.wf()
            &&& both == (MonitorView {
                cached_brightness: both.cached_brightness,
                cached_contrast: both.cached_contrast,
                ..monitor
            })
            &&& one == (MonitorView {
                cached_brightness: one.cached_brightness,
                cached_contrast: one.cached_contrast,
                ..monitor
            })
        }),
{
}

/// Of a monitor that has just been found nothing is known that is no percentage.
pub proof fn described_is_well_formed(handle: isize, device: Seq<char>, is_primary: bool)
    ensures
        described(handle, device, is_primary).wf(),
{
}

/// Where setting two levels asks for a write, the levels that it asks to be written are the ones
/// that were given, whatever is known of the monitor; and it asks for one of a level exactly where
/// the level is not known to be the given one.
pub proof fn given_levels_are_written(monitor: MonitorView, brightness: u32, contrast: u32)
    ensures
        match needed(monitor, brightness, contrast) {
            Ok(Some(request)) => {
                &&& brightness <= 100 && contrast <= 100
                &&& request.apply_brightness <==> monitor.cached_brightness != Some(brightness)
                &&& request.apply_contrast <==> monitor.cached_contrast != Some(contrast)
                &&& request.apply_brightness || request.apply_contrast
                &&& request.brightness == brightness
                &&& request.contrast == contrast
            },
            Ok(None) => {
                &&& brightness <= 100 && contrast <= 100
                &&& monitor.cached_brightness == Some(brightness)
                &&& monitor.cached_contrast == Some(contrast)
            },
            Err(error) => {
                &&& brightness > 100 || contrast > 100
                &&& error == "Values must be between 0 and 100"@
            },
        },
{
}

/// A level that a run brought about is known from then on at the value that was given, and any
/// other stays as it was known. Setting both levels is answered with whether anything was written.
pub proof fn achieved_levels_are_known(
    monitor: MonitorView,
    brightness: u32,
    contrast: u32,
    applied: ApplyResult,
)
    requires
        brightness <= 100,
        contrast <= 100,
        monitor.cached_brightness != Some(brightness) || monitor.cached_contrast != Some(contrast),
    ensures
        ({
            let (after, changed) = settled(monitor, brightness, contrast, Ok(applied));
            &&& applied.brightness_succeeded ==> after.cached_brightness == Some(brightness)
            &&& !applied.brightness_succeeded ==> after.cached_brightness
                == monitor.cached_brightness
            &&& applied.contrast_succeeded ==> after.cached_contrast == Some(contrast)
            &&& !applied.contrast_succeeded ==> after.cached_contrast == monitor.cached_contrast
            &&& changed == Ok::<bool, Seq<char>>(
                applied.brightness_wrote || applied.contrast_wrote,
            )
        }),
{
}

/// Settings that are refused, that are known already or whose write fails leave the monitor as it
/// was. What is answered is the refusal, that nothing was written, or the failure.
pub proof fn unachieved_settings_change_nothing(
    monitor: MonitorView,
    brightness: u32,
    contrast: u32,
    applied: Result<ApplyResult, Seq<char>>,
)
    ensures
        ({
            let (after, changed) = settled(monitor, brightness, contrast, applied);
            let known = monitor.cached_brightness == Some(brightness) && monitor.cached_contrast
                == Some(contrast);
            &&& brightness > 100 || contrast > 100 ==> after == monitor && changed == Err::<
                bool,
                Seq<char>,
            >("Values must be between 0 and 100"@)
            &&& brightness <= 100 && contrast <= 100 && known ==> after == monitor && changed
                == Ok::<bool, Seq<char>>(false)
            &&& brightness <= 100 && contrast <= 100 && !known && applied is Err ==> after
                == monitor && changed == Err::<bool, Seq<char>>(applied->Err_0)
        }),
{
}

/// Setting a single level asks for a write of the given value of that level alone, is answered with
/// whether that level was written, and makes it known where it was brought about. A value that is
/// no percentage is refused.
pub proof fn given_level_is_written(
    monitor: MonitorView,
    kind: LevelKind,
    value: u32,
    applied: Result<ApplyResult, Seq<char>>,
)
    ensures
        value > 100 ==> {
            &&& single(kind, value) == Err::<ApplyRequest, Seq<char>>(
                "Values must be between 0 and 100"@,
            )
            &&& single_settled(monitor, kind, value, applied) == (
                monitor,
                Err::<bool, Seq<char>>("Values must be between 0 and 100"@),
            )
        },
        value <= 100 && kind == LevelKind::Brightness ==> {
            &&& single(kind, value) matches Ok(request)
            &&& request.apply_brightness && !request.apply_contrast
            &&& request.brightness == value
        },
        value <= 100 && kind == LevelKind::Contrast ==> {
            &&& single(kind, value) matches Ok(request)
            &&& request.apply_contrast && !request.apply_brightness
            &&& request.contrast == value
        },
        value <= 100 && applied is Err ==> single_settled(monitor, kind, value, applied) == (
            monitor,
            Err::<bool, Seq<char>>(applied->Err_0),
        ),
        value <= 100 && applied is Ok && kind == LevelKind::Brightness ==> ({
            let (after, changed) = single_settled(monitor, kind, value, applied);
            &&& changed == Ok::<bool, Seq<char>>(applied->Ok_0.brightness_wrote)
            &&& after.cached_contrast == monitor.cached_contrast
            &&& applied->Ok_0.brightness_succeeded ==> after.cached_brightness == Some(value)
            &&& !applied->Ok_0.brightness_succeeded ==> after == monitor
        }),
        value <= 100 && applied is Ok && kind == LevelKind::Contrast ==> ({
            let (after, changed) = single_settled(monitor, kind, value, applied);
            &&& changed == Ok::<bool, Seq<char>>(applied->Ok_0.contrast_wrote)
            &&& after.cached_brightness == monitor.cached_brightness
            &&& applied->Ok_0.contrast_succeeded ==> after.cached_contrast == Some(value)
            &&& !applied->Ok_0.contrast_succeeded ==> after == monitor
        }),
{
}

/// A text of zero-terminated code units ends at its first zero, and with the units where none is
/// zero.
pub proof fn text_ends_at_the_first_zero(units: Seq<u16>)
    ensures
        text_end(units) <= units.len(),
        forall|i: int| 0 <= i < text_end(units) ==> #[trigger] units[i] != 0,
        text_end(units) < units.len() ==> units[text_end(units) as int] == 0,
    decreases units.len(),
{
    if units.len() > 0 && units[0] != 0 {
        let rest = units.drop_first();
        text_ends_at_the_first_zero(rest);
        assert forall|i: int| 0 <= i < text_end(units) implies #[trigger] units[i] != 0 by {
            if i > 0 {
                assert(rest[i - 1] == units[i]);
            }
        }
    }
}

/// The monitor of a display has the display's handle, goes by the device name up to its first zero,
/// and is a primary one exactly where the lowest flag of the display is set. Nothing is known of
/// its levels.
pub proof fn displays_are_listed_as_they_are(display: DisplayDevice, end: int)
    requires
        0 <= end <= display.device@.len(),
        forall|i: int| 0 <= i < end ==> #[trigger] display.device@[i] != 0,
        end < display.device@.len() ==> display.device@[end] == 0,
    ensures
        ({
            let device = crate::text::utf16_text(display.device@.take(end));
            let monitor = listed(display);
            &&& monitor.handle == display.handle
            &&& monitor.id == device && monitor.name == device && monitor.display_device == device
            &&& monitor.physical_index == 0
            &&& monitor.is_primary <==> display.flags & 1 == 1
            &&& monitor.cached_brightness is None && monitor.cached_contrast is None
        }),
{
    let units = display.device@;
    let flags = display.flags;
    text_ends_at_the_first_zero(units);
    if text_end(units) < end {
        assert(units[text_end(units) as int] != 0);
    } else if end < text_end(units) {
        assert(units[end] != 0);
    }
    assert(flags & 1 == flags % 2) by (bit_vector);
}

/// A monitor that has just been found goes by its device name, and nothing is known of its levels.
pub proof fn found_monitors_go_by_their_device(handle: isize, device: Seq<char>, is_primary: bool)
    ensures
        ({
            let monitor = described(handle, device, is_primary);
            &&& monitor.handle == handle && monitor.is_primary == is_primary
            &&& monitor.id == device && monitor.name == device && monitor.display_device == device
            &&& monitor.physical_index == 0
            &&& monitor.cached_brightness is None && monitor.cached_contrast is None
        }),
{
}

/// What a monitor stands for holds every field of it, and a list of monitors every monitor in its
/// place.
pub proof fn monitors_are_seen_whole(monitors: Seq<MonitorInfo>, monitor: MonitorInfo, i: int)
    ensures
        monitor@.id == monitor.id@,
        monitor@.display_device == monitor.display_device@,
        monitor@.physical_index == monitor.physical_index,
        monitor@.handle == monitor.handle,
        monitor@.name == monitor.name@,
        monitor@.is_primary == monitor.is_primary,
        monitor@.cached_brightness == monitor.cached_brightness,
        monitor@.cached_contrast == monitor.cached_contrast,
        monitor_views(monitors).len() == monitors.len(),
        0 <= i < monitors.len() ==> monitor_views(monitors)[i] == monitors[i]@,
{
}

} // verus!
