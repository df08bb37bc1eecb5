//! Writing levels to the physical monitors behind a display.
//!
//! A display can stand for several physical monitors, each with its own range of raw values.

use vstd::prelude::*;
use vstd::string::*;

verus! {

/// A level that a monitor lets its owner set.
#[derive(Clone, Copy, Debug, PartialEq, Eq, Structural)]
pub enum LevelKind {
    Brightness,
    Contrast,
}

/// The raw values that a monitor reports for one level.
#[derive(Clone, Copy, Debug, PartialEq, Eq, Structural)]
pub struct LevelRange {
    pub min: u32,
    pub current: u32,
    pub max: u32,
}

/// What to write: two levels in percent, and which of them are to be written at all.
#[derive(Clone, Copy, Debug, PartialEq, Eq, Structural)]
pub struct ApplyRequest {
    pub brightness: u32,
    pub contrast: u32,
    pub apply_brightness: bool,
    pub apply_contrast: bool,
}

/// What a run achieved, level by level.
#[derive(Clone, Copy, Debug, PartialEq, Eq, Structural)]
pub struct ApplyResult {
    pub brightness_succeeded: bool,
    pub contrast_succeeded: bool,
    pub brightness_wrote: bool,
    pub contrast_wrote: bool,
}

/// The next thing to do with the physical monitors; each is known by its position.
#[derive(Clone, Copy, Debug, PartialEq, Eq, Structural)]
pub enum DdcAction {
    Read { monitor: usize, kind: LevelKind },
    Write { monitor: usize, kind: LevelKind, value: u32 },
    Release { monitor: usize },
    Finished,
}

/// What came of the last action.
#[derive(Clone, Copy, Debug, PartialEq, Eq, Structural)]
pub enum DdcReply {
    /// The answer to a read; `None` where the monitor does not support the level.
    Range(Option<LevelRange>),
    /// The answer to a write: whether the monitor took it.
    Written(bool),
    /// The monitor was released.
    Released,
}

/// How one level of one physical monitor fared.
#[derive(Clone, Copy, Debug, PartialEq, Eq, Structural)]
pub enum Outcome {
    /// The monitor does not report the level.
    Unsupported,
    /// The level was already there, so nothing was written.
    Unchanged,
    Written,
    /// The monitor refused the write.
    Refused,
}

/// One level of one physical monitor that has been dealt with.
#[derive(Clone, Copy, Debug, PartialEq, Eq, Structural)]
pub struct Done {
    pub monitor: usize,
    pub kind: LevelKind,
    pub outcome: Outcome,
}

/// The raw value that stands for `value` percent of the range from `min` to `max`, rounded to
/// the nearest; a range without room has only its lower end.
pub open spec fn scaled(value: int, min: int, max: int) -> int {
    if max <= min {
        min
    } else {
        min + (value * (max - min) + 50) / 100
    }
}

/// The share of its range at which a level stands, in percent, rounded to the nearest.
pub open spec fn percent(range: LevelRange) -> int {
    if range.max <= range.min || range.current <= range.min {
        0
    } else if range.current >= range.max {
        100
    } else {
        ((range.current - range.min) * 100 + (range.max - range.min) / 2) / (range.max - range.min)
    }
}

/// `scaled`, on machine integers. A level within 0 and 100 percent always fits.
pub fn scale_to_range(value: u32, min_v: u32, max_v: u32) -> (raw: u32)
    requires
        scaled(value as int, min_v as int, max_v as int) <= u32::MAX,
    ensures
        raw == scaled(value as int, min_v as int, max_v as int),
{
    if max_v <= min_v {
        return min_v;
    }
    let span: u64 = (max_v - min_v) as u64;
    proof {
        assert(0 <= value * span <= u32::MAX * u32::MAX) by (nonlinear_arith)
            requires
                0 <= value <= u32::MAX,
                0 <= span <= u32::MAX,
        ;
    }
    let shifted: u64 = (value as u64 * span + 50) / 100;
    min_v + shifted as u32
}

/// `percent`, on machine integers.
pub fn level_percent(range: LevelRange) -> (level: u32)
    ensures
        level == percent(range),
        level <= 100,
{
    if range.max <= range.min || range.current <= range.min {
        return 0;
    }
    if range.current >= range.max {
        return 100;
    }
    let span: u64 = (range.max - range.min) as u64;
    let above: u64 = (range.current - range.min) as u64;
    let numerator: u64 = above * 100 + span / 2;
    proof {
        vstd::arithmetic::div_mod::lemma_div_is_ordered(
            numerator as int,
            101 * span - 1,
            span as int,
        );
        vstd::arithmetic::div_mod::lemma_div_pos_is_pos(numerator as int, span as int);
        assert((101 * span - 1) / span as int == 100) by (nonlinear_arith)
            requires
                span >= 1,
        ;
    }
    (numerator / span) as u32
}

/// A level within 0 and 100 percent is scaled to a raw value within the range; the ends of the
/// scale go to the ends of the range.
pub proof fn scaled_within_range(value: int, min: int, max: int)
    requires
        0 <= value <= 100,
        min <= max,
    ensures
        min <= scaled(value, min, max) <= max,
        scaled(0, min, max) == min,
        scaled(100, min, max) == max,
{
    let span = max - min;
    assert(0 <= value * span <= 100 * span) by (nonlinear_arith)
        requires
            0 <= value <= 100,
            span >= 0,
    ;
}

/// The functions of the system's monitor library that the program needs, by name.
pub open spec fn needed_functions() -> Seq<Seq<char>> {
    seq![
        "GetNumberOfPhysicalMonitorsFromHMONITOR"@,
        "GetPhysicalMonitorsFromHMONITOR"@,
        "GetMonitorBrightness"@,
        "SetMonitorBrightness"@,
        "GetMonitorContrast"@,
        "SetMonitorContrast"@,
        "DestroyPhysicalMonitor"@,
    ]
}

/// The name of the first function from `from` on that was not found.
pub open spec fn first_missing(found: Seq<bool>, from: int) -> Option<Seq<char>>
    decreases needed_functions().len() - from,
{
    if from < 0 || from >= needed_functions().len() {
        None
    } else if from >= found.len() || !found[from] {
        Some(needed_functions()[from])
    } else {
        first_missing(found, from + 1)
    }
}

/// The functions of the system's monitor library that the program needs, by name.
pub fn ddc_function_names() -> (names: Vec<&'static str>)
    ensures
        names@.len() == needed_functions().len(),
        forall|i: int| 0 <= i < names@.len() ==> (#[trigger] names@[i])@ == needed_functions()[i],
{
    let mut names: Vec<&'static str> = Vec::new();
    names.push("GetNumberOfPhysicalMonitorsFromHMONITOR");
    names.push("GetPhysicalMonitorsFromHMONITOR");
    names.push("GetMonitorBrightness");
    names.push("SetMonitorBrightness");
    names.push("GetMonitorContrast");
    names.push("SetMonitorContrast");
    names.push("DestroyPhysicalMonitor");
    names
}

/// Whether monitors can be reached: the library must have been loaded, and every function of
/// [`ddc_function_names`] must have been found in it. `found` tells so of each, in that order. The
/// first that is missing is reported.
pub fn get_ddc_functions(loaded: bool, found: &Vec<bool>) -> (support: Result<(), String>)
    ensures
        crate::text::result_view(support) == if !loaded {
            Err::<(), Seq<char>>("DDC/CI not supported"@)
        } else {
            match first_missing(found@, 0) {
                Some(name) => Err::<(), Seq<char>>("Missing "@ + name),
                None => Ok::<(), Seq<char>>(()),
            }
        },
{
    if !loaded {
        return Err("DDC/CI not supported".to_owned());
    }
    let names = ddc_function_names();
    let mut i: usize = 0;
    while i < names.len()
        invariant
            loaded,
            i <= names@.len(),
            names@.len() == needed_functions().len(),
            forall|j: int|
                0 <= j < names@.len() ==> (#[trigger] names@[j])@ == needed_functions()[j],
            first_missing(found@, 0) == first_missing(found@, i as int),
        decreases names@.len() - i,
    {
        if i >= found.len() || !found[i] {
            return Err("Missing ".to_owned().concat(names[i]));
        }
        i += 1;
    }
    Ok(())
}

/// The number of physical monitors behind a display. `reported` is the number that the system
/// gave, if it gave one, and `filled` tells whether it then handed the monitors out; it counts
/// only where there are any.
pub fn enumerate_physical_monitors(reported: Option<u32>, filled: bool) -> (found: Result<
    usize,
    String,
>)
    ensures
        crate::text::result_view(found) == match reported {
            Some(count) => if count == 0 {
                Err::<usize, Seq<char>>("No physical monitors found"@)
            } else if !filled {
                Err::<usize, Seq<char>>("Failed to get physical monitors"@)
            } else {
                Ok::<usize, Seq<char>>(count as usize)
            },
            None => Err::<usize, Seq<char>>("No physical monitors found"@),
        },
{
    match reported {
        Some(count) => if count == 0 {
            Err("No physical monitors found".to_owned())
        } else if !filled {
            Err("Failed to get physical monitors".to_owned())
        } else {
            Ok(count as usize)
        },
        None => Err("No physical monitors found".to_owned()),
    }
}

/// A higher level never scales to a lower raw value.
pub proof fn scaled_monotone(low: int, high: int, min: int, max: int)
    requires
        low <= high,
    ensures
        scaled(low, min, max) <= scaled(high, min, max),
{
    if min < max {
        assert(low * (max - min) <= high * (max - min)) by (nonlinear_arith)
            requires
                low <= high,
                max - min > 0,
        ;
    }
}

/// Where the range has a raw value for every percent, reading back what was written gives the
/// percent that was asked for.
pub proof fn percent_of_scaled(value: int, min: u32, max: u32)
    requires
        0 <= value <= 100,
        min + 100 <= max,
    ensures
        percent(
            LevelRange { min, current: scaled(value, min as int, max as int) as u32, max },
        ) == value,
{
    let span = max - min;
    scaled_within_range(value, min as int, max as int);
    let raw = scaled(value, min as int, max as int) - min;
    let product = value * span;
    assert(raw == (product + 50) / 100);
    let numerator = raw * 100 + span / 2;
    assert(product + span == (value + 1) * span) by (nonlinear_arith)
        requires
            product == value * span,
    ;
    if span == 100 {
        assert(product == value * 100);
    }
    assert(product <= numerator < product + span);
    vstd::arithmetic::div_mod::lemma_fundamental_div_mod_converse(
        numerator,
        span,
        value,
        numerator - product,
    );
    if raw == 0 {
        assert(value == 0) by (nonlinear_arith)
            requires
                value * span <= span / 2,
                span >= 100,
                value >= 0,
        ;
    } else if raw == span {
        assert(value == 100) by (nonlinear_arith)
            requires
                100 * span + span / 2 < value * span + span,
                span >= 100,
                value <= 100,
        ;
    }
}

/// Scaling takes the raw value that is nearest to the exact share of the range: it is off by less
/// than half a raw step, or by exactly half a step upwards. There is no other such value.
pub proof fn scaled_is_nearest(value: int, min: int, max: int, raw: int)
    requires
        min < max,
    ensures
        value * (max - min) - 50 < 100 * (scaled(value, min, max) - min) <= value * (max - min) + 50,
        value * (max - min) - 50 < 100 * (raw - min) <= value * (max - min) + 50 ==> raw == scaled(
            value,
            min,
            max,
        ),
{
}

/// A range without room has only its lower end.
pub proof fn scaled_without_room(value: int, min: int, max: int)
    requires
        max <= min,
    ensures
        scaled(value, min, max) == min,
{
}

/// A level is reported as the percentage that is nearest to its share of the range, which is off by
/// at most half a percent; a level at or below the range is at 0, one at or above it at 100.
pub proof fn percent_is_nearest(range: LevelRange)
    requires
        range.min < range.max,
    ensures
        0 <= percent(range) <= 100,
        range.current <= range.min ==> percent(range) == 0,
        range.current >= range.max ==> percent(range) == 100,
        range.min <= range.current <= range.max ==> -(range.max - range.min) <= 2 * (100 * (
        range.current - range.min) - percent(range) * (range.max - range.min)) < range.max
            - range.min,
{
    let span = range.max - range.min;
    let above = range.current - range.min;
    if range.min < range.current && range.current < range.max {
        let numerator = above * 100 + span / 2;
        let quotient = numerator / span;
        assert(percent(range) == quotient);
        vstd::arithmetic::div_mod::lemma_fundamental_div_mod(numerator, span);
        vstd::arithmetic::div_mod::lemma_mod_bound(numerator, span);
        assert(quotient * span == span * quotient) by (nonlinear_arith);
        assert(0 <= quotient <= 100) by (nonlinear_arith)
            requires
                0 <= quotient * span <= 100 * (span - 1) + span / 2,
                span >= 1,
        ;
    } else if range.current == range.max {
        assert(100 * above - 100 * span == 0);
    }
}

/// A range without room is always at 0.
pub proof fn percent_without_room(range: LevelRange)
    requires
        range.max <= range.min,
    ensures
        percent(range) == 0,
{
}

/// The functions that the program needs, in the order in which they are looked for.
pub proof fn needed_functions_are_listed()
    ensures
        needed_functions().len() == 7,
        needed_functions()[0] == "GetNumberOfPhysicalMonitorsFromHMONITOR"@,
        needed_functions()[1] == "GetPhysicalMonitorsFromHMONITOR"@,
        needed_functions()[2] == "GetMonitorBrightness"@,
        needed_functions()[3] == "SetMonitorBrightness"@,
        needed_functions()[4] == "GetMonitorContrast"@,
        needed_functions()[5] == "SetMonitorContrast"@,
        needed_functions()[6] == "DestroyPhysicalMonitor"@,
{
}

/// The function that is reported as missing is one that was not found, while all before it were;
/// none is reported exactly where every function was found.
pub proof fn first_missing_is_the_first(found: Seq<bool>, i: int)
    requires
        0 <= i < 7,
    ensures
        i <= found.len() && (forall|j: int| 0 <= j < i ==> #[trigger] found[j]) && !(i < found.len()
            && found[i]) ==> first_missing(found, 0) == Some(needed_functions()[i]),
        first_missing(found, 0) is None <==> found.len() >= 7 && forall|j: int|
            0 <= j < 7 ==> #[trigger] found[j],
{
    lemma_first_missing(found, 0, i);
    if first_missing(found, 0) is None {
        lemma_nothing_missing(found, 0);
    } else if found.len() >= 7 && forall|j: int| 0 <= j < 7 ==> #[trigger] found[j] {
        lemma_all_found(found, 0);
    }
}

proof fn lemma_first_missing(found: Seq<bool>, from: int, i: int)
    requires
        0 <= from <= i < 7,
    ensures
        i <= found.len() && (forall|j: int| from <= j < i ==> #[trigger] found[j]) && !(i
            < found.len() && found[i]) ==> first_missing(found, from) == Some(
            needed_functions()[i],
        ),
    decreases i - from,
{
    if from < i {
        lemma_first_missing(found, from + 1, i);
        if forall|j: int| from <= j < i ==> #[trigger] found[j] {
            assert(found[from]);
        }
    }
}

proof fn lemma_nothing_missing(found: Seq<bool>, from: int)
    requires
        0 <= from <= 7,
        first_missing(found, from) is None,
    ensures
        from < 7 ==> found.len() >= 7,
        forall|j: int| from <= j < 7 ==> #[trigger] found[j],
    decreases 7 - from,
{
    if from < 7 {
        lemma_nothing_missing(found, from + 1);
    }
}

proof fn lemma_all_found(found: Seq<bool>, from: int)
    requires
        0 <= from <= 7,
        found.len() >= 7,
        forall|j: int| 0 <= j < 7 ==> #[trigger] found[j],
    ensures
        first_missing(found, from) is None,
    decreases 7 - from,
{
    if from < 7 {
        assert(found[from]);
        lemma_all_found(found, from + 1);
    }
}

} // verus!
