//! One run over the physical monitors of a display.
//!
//! [`ApplySession`] says which monitor to read, write or release next, takes what the monitor
//! answered, and sums the run up.

use crate::ddc::{
    scale_to_range, ApplyRequest, ApplyResult, DdcAction, DdcReply, Done, LevelKind, LevelRange,
    Outcome,
};
use vstd::prelude::*;
use vstd::string::*;

verus! {

/// What an [`ApplySession`] stands for.
#[verifier::ext_equal]
pub struct SessionState {
    pub request: ApplyRequest,
    /// The number of physical monitors.
    pub count: usize,
    /// The levels dealt with so far, in order.
    pub log: Seq<Done>,
    pub next: DdcAction,
}

/// The percentage that a request asks of a level.
pub open spec fn wanted(request: ApplyRequest, kind: LevelKind) -> u32 {
    match kind {
        LevelKind::Brightness => request.brightness,
        LevelKind::Contrast => request.contrast,
    }
}

/// The request is about this level.
pub open spec fn asked(request: ApplyRequest, kind: LevelKind) -> bool {
    match kind {
        LevelKind::Brightness => request.apply_brightness,
        LevelKind::Contrast => request.apply_contrast,
    }
}

/// The levels of a request that are to be written are percentages.
pub open spec fn in_percent(request: ApplyRequest) -> bool {
    &&& request.apply_brightness ==> request.brightness <= 100
    &&& request.apply_contrast ==> request.contrast <= 100
}

/// The number of levels that a run over `count` monitors deals with.
pub open spec fn job_count(request: ApplyRequest, count: usize) -> nat {
    if request.apply_brightness && request.apply_contrast {
        2 * count as nat
    } else if request.apply_brightness || request.apply_contrast {
        count as nat
    } else {
        0
    }
}

/// The monitor of the `j`-th level: every monitor is done with before the next one begins.
pub open spec fn job_monitor(request: ApplyRequest, j: int) -> int {
    if request.apply_brightness && request.apply_contrast {
        j / 2
    } else {
        j
    }
}

/// The kind of the `j`-th level: of one monitor, brightness comes before contrast.
pub open spec fn job_kind(request: ApplyRequest, j: int) -> LevelKind {
    if request.apply_brightness && (!request.apply_contrast || j % 2 == 0) {
        LevelKind::Brightness
    } else {
        LevelKind::Contrast
    }
}

/// What to do once `done` levels have been dealt with: read the next one, or release.
pub open spec fn read_or_release(request: ApplyRequest, count: usize, done: int) -> DdcAction {
    if done < job_count(request, count) {
        DdcAction::Read {
            monitor: job_monitor(request, done) as usize,
            kind: job_kind(request, done),
        }
    } else {
        release_from(count, 0)
    }
}

/// Release the monitor at `position`, or finish where there is none.
pub open spec fn release_from(count: usize, position: int) -> DdcAction {
    if position < count {
        DdcAction::Release { monitor: position as usize }
    } else {
        DdcAction::Finished
    }
}

impl SessionState {
    /// A run at its start.
    pub open spec fn start(request: ApplyRequest, count: usize) -> SessionState {
        SessionState {
            request,
            count,
            log: Seq::empty(),
            next: read_or_release(request, count, 0),
        }
    }

    /// The state of a run that began with `start` and took nothing but `reply`.
    pub open spec fn wf(self) -> bool {
        let jobs = job_count(self.request, self.count);
        &&& in_percent(self.request)
        &&& forall|j: int|
            0 <= j < self.log.len() ==> {
                &&& (#[trigger] self.log[j]).monitor == job_monitor(self.request, j)
                &&& self.log[j].kind == job_kind(self.request, j)
            }
        &&& match self.next {
            DdcAction::Read { monitor, kind } => {
                &&& self.log.len() < jobs
                &&& monitor == job_monitor(self.request, self.log.len() as int)
                &&& kind == job_kind(self.request, self.log.len() as int)
            },
            DdcAction::Write { monitor, kind, value } => {
                &&& self.log.len() < jobs
                &&& monitor == job_monitor(self.request, self.log.len() as int)
                &&& kind == job_kind(self.request, self.log.len() as int)
            },
            DdcAction::Release { monitor } => self.log.len() == jobs && monitor < self.count,
            DdcAction::Finished => self.log.len() == jobs,
        }
    }

    /// The state once a level has fared so.
    pub open spec fn record(self, monitor: usize, kind: LevelKind, outcome: Outcome) -> SessionState {
        SessionState {
            log: self.log.push(Done { monitor, kind, outcome }),
            next: read_or_release(self.request, self.count, self.log.len() as int + 1),
            ..self
        }
    }

    /// The state once the next action has been answered. A reply that does not answer it
    /// changes nothing.
    pub open spec fn after(self, reply: DdcReply) -> SessionState {
        match (self.next, reply) {
            (DdcAction::Read { monitor, kind }, DdcReply::Range(None)) => self.record(
                monitor,
                kind,
                Outcome::Unsupported,
            ),
            (DdcAction::Read { monitor, kind }, DdcReply::Range(Some(range))) => {
                let value = crate::ddc::scaled(
                    wanted(self.request, kind) as int,
                    range.min as int,
                    range.max as int,
                );
                if value == range.current {
                    self.record(monitor, kind, Outcome::Unchanged)
                } else {
                    SessionState {
                        next: DdcAction::Write { monitor, kind, value: value as u32 },
                        ..self
                    }
                }
            },
            (DdcAction::Write { monitor, kind, value }, DdcReply::Written(true)) => self.record(
                monitor,
                kind,
                Outcome::Written,
            ),
            (DdcAction::Write { monitor, kind, value }, DdcReply::Written(false)) => self.record(
                monitor,
                kind,
                Outcome::Refused,
            ),
            (DdcAction::Release { monitor }, DdcReply::Released) => SessionState {
                next: release_from(self.count, monitor + 1),
                ..self
            },
            _ => self,
        }
    }
}

/// The monitor has the level that was asked for.
pub open spec fn fared_well(outcome: Outcome) -> bool {
    outcome == Outcome::Unchanged || outcome == Outcome::Written
}

/// Some monitor has the level of this kind that was asked for.
pub open spec fn succeeded(log: Seq<Done>, kind: LevelKind) -> bool {
    exists|j: int|
        0 <= j < log.len() && (#[trigger] log[j]).kind == kind && fared_well(log[j].outcome)
}

/// Some monitor took a write of this kind.
pub open spec fn wrote(log: Seq<Done>, kind: LevelKind) -> bool {
    exists|j: int|
        0 <= j < log.len() && (#[trigger] log[j]).kind == kind && log[j].outcome == Outcome::Written
}

/// What is said of a level that did not fare well.
pub open spec fn failure_text(kind: LevelKind, outcome: Outcome) -> Seq<char> {
    match (kind, outcome) {
        (LevelKind::Brightness, Outcome::Unsupported) => "Brightness not supported"@,
        (LevelKind::Brightness, _) => "Failed to set brightness"@,
        (LevelKind::Contrast, Outcome::Unsupported) => "Contrast not supported"@,
        (LevelKind::Contrast, _) => "Failed to set contrast"@,
    }
}

/// What is said of the last level that did not fare well.
pub open spec fn last_failure(log: Seq<Done>) -> Option<Seq<char>>
    decreases log.len(),
{
    if log.len() == 0 {
        None
    } else if !fared_well(log.last().outcome) {
        Some(failure_text(log.last().kind, log.last().outcome))
    } else {
        last_failure(log.drop_last())
    }
}

/// What a run comes to: it succeeds where some monitor has a level that was asked for, or
/// where none was asked for. Otherwise the last failure is reported.
pub open spec fn summary(request: ApplyRequest, log: Seq<Done>) -> Result<ApplyResult, Seq<char>> {
    if succeeded(log, LevelKind::Brightness) || succeeded(log, LevelKind::Contrast) || (
    !request.apply_brightness && !request.apply_contrast) {
        Ok(
            ApplyResult {
                brightness_succeeded: succeeded(log, LevelKind::Brightness),
                contrast_succeeded: succeeded(log, LevelKind::Contrast),
                brightness_wrote: wrote(log, LevelKind::Brightness),
                contrast_wrote: wrote(log, LevelKind::Contrast),
            },
        )
    } else {
        match last_failure(log) {
            Some(text) => Err(text),
            None => Err("DDC/CI operation failed"@),
        }
    }
}

/// A run over the physical monitors of a display.
pub struct ApplySession {
    request: ApplyRequest,
    count: usize,
    log: Vec<Done>,
    next: DdcAction,
}

impl View for ApplySession {
    type V = SessionState;

    closed spec fn view(&self) -> SessionState {
        SessionState {
            request: self.request,
            count: self.count,
            log: self.log@,
            next: self.next,
        }
    }
}

impl ApplySession {
    /// Begins a run over `count` physical monitors.
    pub fn new(request: ApplyRequest, count: usize) -> (session: ApplySession)
        requires
            in_percent(request),
        ensures
            session@ == SessionState::start(request, count),
            session@.wf(),
    {
        let next = Self::first_read(request, count, 0);
        ApplySession { request, count, log: Vec::new(), next }
    }

    /// Begins a run over the physical monitors that were found. `support` tells whether monitors
    /// can be reached at all, `found` how many there are behind the display.
    pub fn begin(
        request: ApplyRequest,
        support: Result<(), String>,
        found: Result<usize, String>,
    ) -> (session: Result<ApplySession, String>)
        requires
            in_percent(request),
        ensures
            match (support, found) {
                (Err(error), _) => session matches Err(said) && said@ == "DDC/CI error: "@
                    + error@,
                (Ok(_), Err(error)) => session matches Err(said) && said@
                    == "Failed to get physical monitor(s): "@ + error@,
                (Ok(_), Ok(count)) => session matches Ok(begun) && begun@ == SessionState::start(
                    request,
                    count,
                ) && begun@.wf(),
            },
    {
        match support {
            Err(error) => Err("DDC/CI error: ".to_owned().concat(error.as_str())),
            Ok(_) => match found {
                Err(error) => Err(
                    "Failed to get physical monitor(s): ".to_owned().concat(error.as_str()),
                ),
                Ok(count) => Ok(ApplySession::new(request, count)),
            },
        }
    }

    /// The first read of the monitor at `monitor`, or the first release.
    fn first_read(request: ApplyRequest, count: usize, monitor: usize) -> (next: DdcAction)
        requires
            monitor <= count,
        ensures
            next == read_or_release(
                request,
                count,
                if request.apply_brightness && request.apply_contrast {
                    2 * monitor as int
                } else {
                    monitor as int
                },
            ),
    {
        if monitor < count && request.apply_brightness {
            DdcAction::Read { monitor, kind: LevelKind::Brightness }
        } else if monitor < count && request.apply_contrast {
            DdcAction::Read { monitor, kind: LevelKind::Contrast }
        } else if count > 0 {
            DdcAction::Release { monitor: 0 }
        } else {
            DdcAction::Finished
        }
    }

    /// What to do next.
    pub fn next_action(&self) -> (action: DdcAction)
        ensures
            action == self@.next,
    {
        self.next
    }

    /// Notes how a level fared and turns to the next one.
    fn note(&mut self, monitor: usize, kind: LevelKind, outcome: Outcome)
        requires
            old(self)@.wf(),
            old(self)@.log.len() < job_count(old(self)@.request, old(self)@.count),
            monitor == job_monitor(old(self)@.request, old(self)@.log.len() as int),
            kind == job_kind(old(self)@.request, old(self)@.log.len() as int),
        ensures
            final(self)@ == old(self)@.record(monitor, kind, outcome),
            final(self)@.wf(),
    {
        self.log.push(Done { monitor, kind, outcome });
        if kind == LevelKind::Brightness && self.request.apply_contrast {
            self.next = DdcAction::Read { monitor, kind: LevelKind::Contrast };
        } else {
            self.next = Self::first_read(self.request, self.count, monitor + 1);
        }
    }

    /// Takes what came of the next action. A reply that does not answer it is refused.
    pub fn reply(&mut self, reply: DdcReply) -> (taken: bool)
        requires
            old(self)@.wf(),
        ensures
            final(self)@ == old(self)@.after(reply),
            final(self)@.wf(),
            taken == match (old(self)@.next, reply) {
                (DdcAction::Read { .. }, DdcReply::Range(_)) => true,
                (DdcAction::Write { .. }, DdcReply::Written(_)) => true,
                (DdcAction::Release { .. }, DdcReply::Released) => true,
                _ => false,
            },
    {
        match (self.next, reply) {
            (DdcAction::Read { monitor, kind }, DdcReply::Range(answer)) => {
                match answer {
                    None => {
                        self.note(monitor, kind, Outcome::Unsupported);
                    },
                    Some(range) => {
                        let level: u32 = match kind {
                            LevelKind::Brightness => self.request.brightness,
                            LevelKind::Contrast => self.request.contrast,
                        };
                        proof {
                            lemma_target(self.request, kind, range);
                        }
                        let value: u32 = scale_to_range(level, range.min, range.max);
                        if value == range.current {
                            self.note(monitor, kind, Outcome::Unchanged);
                        } else {
                            self.next = DdcAction::Write { monitor, kind, value };
                        }
                    },
                }
                true
            },
            (DdcAction::Write { monitor, kind, .. }, DdcReply::Written(done)) => {
                if done {
                    self.note(monitor, kind, Outcome::Written);
                } else {
                    self.note(monitor, kind, Outcome::Refused);
                }
                true
            },
            (DdcAction::Release { monitor }, DdcReply::Released) => {
                if monitor + 1 < self.count {
                    self.next = DdcAction::Release { monitor: monitor + 1 };
                } else {
                    self.next = DdcAction::Finished;
                }
                true
            },
            _ => false,
        }
    }

    /// Whether some monitor has the level of this kind that was asked for.
    fn has_succeeded(&self, kind: LevelKind) -> (r: bool)
        ensures
            r == succeeded(self@.log, kind),
    {
        let mut i: usize = 0;
        while i < self.log.len()
            invariant
                i <= self.log@.len(),
                forall|j: int|
                    0 <= j < i ==> !((#[trigger] self.log@[j]).kind == kind && fared_well(
                        self.log@[j].outcome,
                    )),
            decreases self.log@.len() - i,
        {
            let done = self.log[i];
            if done.kind == kind && (done.outcome == Outcome::Unchanged || done.outcome
                == Outcome::Written) {
                assert(self.log@[i as int].kind == kind);
                return true;
            }
            i += 1;
        }
        false
    }

    /// Whether some monitor took a write of this kind.
    fn has_written(&self, kind: LevelKind) -> (r: bool)
        ensures
            r == wrote(self@.log, kind),
    {
        let mut i: usize = 0;
        while i < self.log.len()
            invariant
                i <= self.log@.len(),
                forall|j: int|
                    0 <= j < i ==> !((#[trigger] self.log@[j]).kind == kind && self.log@[j].outcome
                        == Outcome::Written),
            decreases self.log@.len() - i,
        {
            let done = self.log[i];
            if done.kind == kind && done.outcome == Outcome::Written {
                assert(self.log@[i as int].kind == kind);
                return true;
            }
            i += 1;
        }
        false
    }

    /// What is said of the last level that did not fare well.
    fn failure(&self) -> (text: Option<String>)
        ensures
            match (text, last_failure(self@.log)) {
                (Some(said), Some(meant)) => said@ == meant,
                (None, None) => true,
                _ => false,
            },
    {
        let mut i: usize = self.log.len();
        assert(self.log@.take(i as int) =~= self.log@);
        while i > 0
            invariant
                i <= self.log@.len(),
                last_failure(self.log@) == last_failure(self.log@.take(i as int)),
            decreases i,
        {
            let done = self.log[i - 1];
            assert(self.log@.take(i as int).drop_last() =~= self.log@.take(i - 1));
            assert(self.log@.take(i as int).last() == done);
            match done.outcome {
                Outcome::Unsupported => {
                    return match done.kind {
                        LevelKind::Brightness => Some("Brightness not supported".to_owned()),
                        LevelKind::Contrast => Some("Contrast not supported".to_owned()),
                    };
                },
                Outcome::Refused => {
                    return match done.kind {
                        LevelKind::Brightness => Some("Failed to set brightness".to_owned()),
                        LevelKind::Contrast => Some("Failed to set contrast".to_owned()),
                    };
                },
                _ => {},
            }
            i -= 1;
        }
        None
    }

    /// What the run came to.
    pub fn result(&self) -> (result: Result<ApplyResult, String>)
        ensures
            crate::text::result_view(result) == summary(self@.request, self@.log),
    {
        let brightness_succeeded = self.has_succeeded(LevelKind::Brightness);
        let contrast_succeeded = self.has_succeeded(LevelKind::Contrast);
        if brightness_succeeded || contrast_succeeded || (!self.request.apply_brightness
            && !self.request.apply_contrast) {
            Ok(
                ApplyResult {
                    brightness_succeeded,
                    contrast_succeeded,
                    brightness_wrote: self.has_written(LevelKind::Brightness),
                    contrast_wrote: self.has_written(LevelKind::Contrast),
                },
            )
        } else {
            match self.failure() {
                Some(text) => Err(text),
                None => Err("DDC/CI operation failed".to_owned()),
            }
        }
    }
}

/// Monitors as a run meets them: what a read of a level gives, and whether a write is taken.
pub type Device = spec_fn(usize, LevelKind) -> (Option<LevelRange>, bool);

/// What the monitors answer to an action.
pub open spec fn answer(device: Device, action: DdcAction) -> DdcReply {
    match action {
        DdcAction::Read { monitor, kind } => DdcReply::Range(device(monitor, kind).0),
        DdcAction::Write { monitor, kind, value } => DdcReply::Written(device(monitor, kind).1),
        _ => DdcReply::Released,
    }
}

/// The state that the monitors' answers lead to within `steps` actions.
pub open spec fn run(state: SessionState, device: Device, steps: nat) -> SessionState
    decreases steps,
{
    if steps == 0 || state.next == DdcAction::Finished {
        state
    } else {
        run(state.after(answer(device, state.next)), device, (steps - 1) as nat)
    }
}

/// The actions taken on the way there.
pub open spec fn actions(state: SessionState, device: Device, steps: nat) -> Seq<DdcAction>
    decreases steps,
{
    if steps == 0 || state.next == DdcAction::Finished {
        Seq::empty()
    } else {
        seq![state.next] + actions(
            state.after(answer(device, state.next)),
            device,
            (steps - 1) as nat,
        )
    }
}

/// The raw value that a request means for a level of this range.
pub open spec fn target(request: ApplyRequest, kind: LevelKind, range: LevelRange) -> int {
    crate::ddc::scaled(wanted(request, kind) as int, range.min as int, range.max as int)
}

/// How a level of these monitors fares.
pub open spec fn outcome(
    request: ApplyRequest,
    device: Device,
    monitor: usize,
    kind: LevelKind,
) -> Outcome {
    match device(monitor, kind) {
        (None, _) => Outcome::Unsupported,
        (Some(range), taken) => if target(request, kind, range) == range.current {
            Outcome::Unchanged
        } else if taken {
            Outcome::Written
        } else {
            Outcome::Refused
        },
    }
}

/// The log of a complete run over these monitors.
pub open spec fn full_log(request: ApplyRequest, count: usize, device: Device) -> Seq<Done> {
    Seq::new(
        job_count(request, count),
        |j: int| full_log_entry(request, device, j),
    )
}

/// The `j`-th entry of that log.
pub open spec fn full_log_entry(request: ApplyRequest, device: Device, j: int) -> Done {
    let monitor = job_monitor(request, j) as usize;
    let kind = job_kind(request, j);
    Done { monitor, kind, outcome: outcome(request, device, monitor, kind) }
}

/// The write that a level needs, if it needs one.
pub open spec fn write_of(
    request: ApplyRequest,
    device: Device,
    monitor: usize,
    kind: LevelKind,
) -> Seq<DdcAction> {
    match device(monitor, kind).0 {
        Some(range) => if target(request, kind, range) == range.current {
            Seq::empty()
        } else {
            seq![DdcAction::Write { monitor, kind, value: target(request, kind, range) as u32 }]
        },
        None => Seq::empty(),
    }
}

/// The reads and writes of a run from its `j`-th level on.
pub open spec fn accesses(
    request: ApplyRequest,
    count: usize,
    device: Device,
    j: int,
) -> Seq<DdcAction>
    decreases job_count(request, count) - j,
{
    if j >= job_count(request, count) {
        Seq::empty()
    } else {
        let monitor = job_monitor(request, j) as usize;
        let kind = job_kind(request, j);
        seq![DdcAction::Read { monitor, kind }] + write_of(request, device, monitor, kind)
            + accesses(request, count, device, j + 1)
    }
}

/// The release of every monitor from `position` on, in order.
pub open spec fn releases(count: usize, position: int) -> Seq<DdcAction> {
    Seq::new(
        (count - position) as nat,
        |i: int| DdcAction::Release { monitor: (position + i) as usize },
    )
}

/// The actions that are left in a state.
spec fn actions_left(state: SessionState, device: Device) -> Seq<DdcAction> {
    let done = state.log.len() as int;
    match state.next {
        DdcAction::Read { .. } => accesses(state.request, state.count, device, done) + releases(
            state.count,
            0,
        ),
        DdcAction::Write { .. } => seq![state.next] + accesses(
            state.request,
            state.count,
            device,
            done + 1,
        ) + releases(state.count, 0),
        DdcAction::Release { monitor } => releases(state.count, monitor as int),
        DdcAction::Finished => Seq::empty(),
    }
}

/// The number of actions that are left in a state, at most.
spec fn steps_left(state: SessionState) -> int {
    let jobs_left = job_count(state.request, state.count) - state.log.len();
    match state.next {
        DdcAction::Read { .. } => 2 * jobs_left + state.count,
        DdcAction::Write { .. } => 2 * jobs_left - 1 + state.count,
        DdcAction::Release { monitor } => state.count - monitor,
        DdcAction::Finished => 0,
    }
}

/// The state is one that these monitors' answers lead to.
spec fn on_the_way(state: SessionState, device: Device) -> bool {
    let done = state.log.len() as int;
    let log = full_log(state.request, state.count, device);
    &&& state.wf()
    &&& done <= log.len()
    &&& state.log == log.take(done)
    &&& match state.next {
        DdcAction::Write { monitor, kind, value } => {
            &&& device(monitor, kind).0 is Some
            &&& value == target(state.request, kind, device(monitor, kind).0->0)
            &&& value != device(monitor, kind).0->0.current
        },
        _ => true,
    }
}

proof fn lemma_target(request: ApplyRequest, kind: LevelKind, range: LevelRange)
    requires
        wanted(request, kind) <= 100,
    ensures
        0 <= target(request, kind, range) <= u32::MAX,
        range.min <= range.max ==> range.min <= target(request, kind, range) <= range.max,
{
    if range.min <= range.max {
        crate::ddc::scaled_within_range(
            wanted(request, kind) as int,
            range.min as int,
            range.max as int,
        );
    }
}

/// One answer keeps a state on the way, with its action taken off the actions that are left.
proof fn lemma_step(state: SessionState, device: Device)
    requires
        on_the_way(state, device),
        state.next != DdcAction::Finished,
    ensures
        on_the_way(state.after(answer(device, state.next)), device),
        steps_left(state.after(answer(device, state.next))) < steps_left(state),
        steps_left(state) > 0,
        actions_left(state, device) == seq![state.next] + actions_left(
            state.after(answer(device, state.next)),
            device,
        ),
{
    let log = full_log(state.request, state.count, device);
    let done = state.log.len() as int;
    let next = state.after(answer(device, state.next));
    let ended = releases(state.count, 0);
    match state.next {
        DdcAction::Read { monitor, kind } => {
            let rest = accesses(state.request, state.count, device, done + 1);
            let write = write_of(state.request, device, monitor, kind);
            assert(log[done] == full_log_entry(state.request, device, done));
            assert(accesses(state.request, state.count, device, done) == seq![state.next] + write
                + rest);
            if device(monitor, kind).0 is Some {
                lemma_target(state.request, kind, device(monitor, kind).0->0);
            }
            if next.next is Write {
                assert(write == seq![next.next]);
                assert(actions_left(state, device) =~= seq![state.next] + actions_left(
                    next,
                    device,
                ));
            } else {
                assert(next.log =~= log.take(done + 1));
                assert(write == Seq::<DdcAction>::empty());
                assert(actions_left(next, device) =~= rest + ended);
                assert(actions_left(state, device) =~= seq![state.next] + actions_left(
                    next,
                    device,
                ));
            }
        },
        DdcAction::Write { monitor, kind, value } => {
            let rest = accesses(state.request, state.count, device, done + 1);
            assert(log[done] == full_log_entry(state.request, device, done));
            assert(next.log =~= log.take(done + 1));
            assert(actions_left(next, device) =~= rest + ended);
            assert(actions_left(state, device) =~= seq![state.next] + actions_left(next, device));
        },
        _ => {
            assert(actions_left(state, device) =~= seq![state.next] + actions_left(next, device));
        },
    }
}

proof fn lemma_run(state: SessionState, device: Device, steps: nat)
    requires
        on_the_way(state, device),
        steps >= steps_left(state),
    ensures
        run(state, device, steps).next == DdcAction::Finished,
        run(state, device, steps).log == full_log(state.request, state.count, device),
        run(state, device, steps).request == state.request,
        run(state, device, steps).count == state.count,
        actions(state, device, steps) == actions_left(state, device),
    decreases steps,
{
    let log = full_log(state.request, state.count, device);
    if state.next == DdcAction::Finished {
        assert(log.take(state.log.len() as int) =~= log);
    } else {
        lemma_step(state, device);
        lemma_run(state.after(answer(device, state.next)), device, (steps - 1) as nat);
    }
}

/// Whatever the monitors answer, a run ends. Its log then tells how every level of every
/// monitor fared. It reads each level once, writes a level at most once and only after reading
/// it, and in the end releases every monitor once.
pub proof fn run_completes(request: ApplyRequest, count: usize, device: Device, steps: nat)
    requires
        in_percent(request),
        steps >= 2 * job_count(request, count) + count,
    ensures
        run(SessionState::start(request, count), device, steps) == (SessionState {
            request,
            count,
            log: full_log(request, count, device),
            next: DdcAction::Finished,
        }),
        actions(SessionState::start(request, count), device, steps) == accesses(
            request,
            count,
            device,
            0,
        ) + releases(count, 0),
{
    let start = SessionState::start(request, count);
    let log = full_log(request, count, device);
    assert(start.log =~= log.take(0));
    lemma_run(start, device, steps);
    assert(actions_left(start, device) =~= accesses(request, count, device, 0) + releases(
        count,
        0,
    ));
}

/// A run does nothing but read and write before it releases the monitors. It writes a level
/// only where the monitor reported another value, and what it writes lies within the range that
/// the monitor reported. A level that was not asked for is left alone.
pub proof fn writes_are_needed(
    request: ApplyRequest,
    count: usize,
    device: Device,
    j: int,
    i: int,
)
    requires
        in_percent(request),
        0 <= j,
        0 <= i < accesses(request, count, device, j).len(),
    ensures
        match accesses(request, count, device, j)[i] {
            DdcAction::Read { monitor, kind } => monitor < count && asked(request, kind),
            DdcAction::Write { monitor, kind, value } => {
                &&& monitor < count
                &&& asked(request, kind)
                &&& device(monitor, kind).0 matches Some(range)
                &&& value != range.current
                &&& value == target(request, kind, range)
                &&& range.min <= range.max ==> range.min <= value <= range.max
            },
            _ => false,
        },
    decreases job_count(request, count) - j,
{
    let monitor = job_monitor(request, j) as usize;
    let kind = job_kind(request, j);
    let head = seq![DdcAction::Read { monitor, kind }] + write_of(request, device, monitor, kind);
    if device(monitor, kind).0 is Some {
        lemma_target(request, kind, device(monitor, kind).0->0);
    }
    if i >= head.len() {
        writes_are_needed(request, count, device, j + 1, i - head.len());
    }
}

/// The monitors once a run over them has ended: each level that was written is reported from then
/// on, and everything else is as it was.
pub open spec fn after_run(request: ApplyRequest, device: Device) -> Device {
    |monitor: usize, kind: LevelKind|
        match device(monitor, kind) {
            (Some(range), taken) => if asked(request, kind) && outcome(
                request,
                device,
                monitor,
                kind,
            ) == Outcome::Written {
                (
                    Some(LevelRange { current: target(request, kind, range) as u32, ..range }),
                    taken,
                )
            } else {
                (Some(range), taken)
            },
            (None, taken) => (None, taken),
        }
}

/// How a level fares the second time, where the first time it fared so.
pub open spec fn fares_again(outcome: Outcome) -> Outcome {
    if outcome == Outcome::Written {
        Outcome::Unchanged
    } else {
        outcome
    }
}

/// A level of monitors that report what was written fares as it did, but is not written again.
proof fn lemma_fares_again(
    request: ApplyRequest,
    device: Device,
    monitor: usize,
    kind: LevelKind,
)
    requires
        in_percent(request),
        asked(request, kind),
    ensures
        outcome(request, after_run(request, device), monitor, kind) == fares_again(
            outcome(request, device, monitor, kind),
        ),
{
    if device(monitor, kind).0 is Some {
        lemma_target(request, kind, device(monitor, kind).0->0);
    }
}

/// The last failure of a log is the same where the levels fare again.
proof fn lemma_last_failure_again(log: Seq<Done>, again: Seq<Done>)
    requires
        again.len() == log.len(),
        forall|j: int|
            0 <= j < log.len() ==> (#[trigger] again[j]) == (Done {
                outcome: fares_again(log[j].outcome),
                ..log[j]
            }),
    ensures
        last_failure(again) == last_failure(log),
    decreases log.len(),
{
    if log.len() > 0 {
        let last = log.len() - 1;
        assert(again[last] == (Done { outcome: fares_again(log[last].outcome), ..log[last] }));
        lemma_last_failure_again(log.drop_last(), again.drop_last());
    }
}

/// A second run with the same request, over monitors that report what the first one wrote, writes
/// nothing but what was refused the first time, so nothing at all where nothing was refused. No
/// write is taken, and the same levels succeed: the second run comes to what the first one came to,
/// except that it wrote nothing.
pub proof fn second_run_writes_nothing(
    request: ApplyRequest,
    count: usize,
    device: Device,
    steps: nat,
)
    requires
        in_percent(request),
        steps >= 2 * job_count(request, count) + count,
    ensures
        ({
            let start = SessionState::start(request, count);
            let first = run(start, device, steps).log;
            let second = run(start, after_run(request, device), steps).log;
            let again = actions(start, after_run(request, device), steps);
            &&& forall|i: int|
                0 <= i < again.len() ==> ((#[trigger] again[i]) matches DdcAction::Write {
                    monitor,
                    kind,
                    value,
                } ==> outcome(request, device, monitor, kind) == Outcome::Refused)
            &&& forall|kind: LevelKind| succeeded(second, kind) == succeeded(first, kind)
            &&& forall|kind: LevelKind| !wrote(second, kind)
            &&& summary(request, second) == match summary(request, first) {
                Ok(result) => Ok(
                    ApplyResult { brightness_wrote: false, contrast_wrote: false, ..result },
                ),
                Err(error) => Err(error),
            }
        }),
{
    let start = SessionState::start(request, count);
    let later = after_run(request, device);
    run_completes(request, count, device, steps);
    run_completes(request, count, later, steps);
    let first = full_log(request, count, device);
    let second = full_log(request, count, later);
    assert forall|j: int| 0 <= j < first.len() implies (#[trigger] second[j]) == (Done {
        outcome: fares_again(first[j].outcome),
        ..first[j]
    }) by {
        lemma_fares_again(
            request,
            device,
            job_monitor(request, j) as usize,
            job_kind(request, j),
        );
    }
    assert forall|kind: LevelKind| succeeded(second, kind) == succeeded(first, kind) by {
        if succeeded(first, kind) {
            let j = choose|j: int|
                0 <= j < first.len() && (#[trigger] first[j]).kind == kind && fared_well(
                    first[j].outcome,
                );
            assert(second[j].kind == kind && fared_well(second[j].outcome));
        }
        if succeeded(second, kind) {
            let j = choose|j: int|
                0 <= j < second.len() && (#[trigger] second[j]).kind == kind && fared_well(
                    second[j].outcome,
                );
            assert(first[j].kind == kind && fared_well(first[j].outcome));
        }
    }
    assert forall|kind: LevelKind| !wrote(second, kind) by {
        if wrote(second, kind) {
            let j = choose|j: int|
                0 <= j < second.len() && (#[trigger] second[j]).kind == kind && second[j].outcome
                    == Outcome::Written;
            assert(second[j].outcome == fares_again(first[j].outcome));
        }
    }
    lemma_last_failure_again(first, second);
    let reads_and_writes = accesses(request, count, later, 0);
    let again = actions(start, later, steps);
    assert forall|i: int| 0 <= i < again.len() implies ((
    #[trigger] again[i]) matches DdcAction::Write { monitor, kind, value } ==> outcome(
        request,
        device,
        monitor,
        kind,
    ) == Outcome::Refused) by {
        if i < reads_and_writes.len() {
            writes_are_needed(request, count, later, 0, i);
            if let DdcAction::Write { monitor, kind, value } = again[i] {
                lemma_fares_again(request, device, monitor, kind);
            }
        }
    }
}

/// The percentage that a request asks for a level, if it asks for one.
pub open spec fn goal(request: ApplyRequest, kind: LevelKind) -> Option<u32> {
    match kind {
        LevelKind::Brightness => if request.apply_brightness {
            Some(request.brightness)
        } else {
            None
        },
        LevelKind::Contrast => if request.apply_contrast {
            Some(request.contrast)
        } else {
            None
        },
    }
}

/// `raw` is the value of a range that is nearest to a percentage, half a step counting upwards; a
/// range without room has only its lower end.
pub open spec fn nearest(raw: int, percentage: int, range: LevelRange) -> bool {
    if range.max <= range.min {
        raw == range.min
    } else {
        let exact = percentage * (range.max - range.min);
        exact - 50 < 100 * (raw - range.min) <= exact + 50
    }
}

/// A level stands where the request wants it, or a write of it is taken.
pub open spec fn reached(
    request: ApplyRequest,
    device: Device,
    monitor: usize,
    kind: LevelKind,
) -> bool {
    match (goal(request, kind), device(monitor, kind)) {
        (Some(percentage), (Some(range), taken)) => nearest(
            range.current as int,
            percentage as int,
            range,
        ) || taken,
        _ => false,
    }
}

/// A level does not stand where the request wants it, and a write of it is taken.
pub open spec fn moved(
    request: ApplyRequest,
    device: Device,
    monitor: usize,
    kind: LevelKind,
) -> bool {
    match (goal(request, kind), device(monitor, kind)) {
        (Some(percentage), (Some(range), taken)) => !nearest(
            range.current as int,
            percentage as int,
            range,
        ) && taken,
        _ => false,
    }
}

/// The turn of an action in a run over `count` monitors: monitor by monitor, brightness before
/// contrast, of each level the read before the write, and in the end the releases.
pub open spec fn turn(count: usize, action: DdcAction) -> int {
    match action {
        DdcAction::Read { monitor, kind: LevelKind::Brightness } => 4 * monitor,
        DdcAction::Write { monitor, kind: LevelKind::Brightness, .. } => 4 * monitor + 1,
        DdcAction::Read { monitor, kind: LevelKind::Contrast } => 4 * monitor + 2,
        DdcAction::Write { monitor, kind: LevelKind::Contrast, .. } => 4 * monitor + 3,
        DdcAction::Release { monitor } => 4 * count + monitor,
        DdcAction::Finished => 5 * count,
    }
}

proof fn lemma_nearest(request: ApplyRequest, kind: LevelKind, range: LevelRange, raw: int)
    requires
        asked(request, kind),
    ensures
        goal(request, kind) == Some(wanted(request, kind)),
        nearest(raw, wanted(request, kind) as int, range) <==> raw == target(request, kind, range),
{
    if range.min < range.max {
        crate::ddc::scaled_is_nearest(
            wanted(request, kind) as int,
            range.min as int,
            range.max as int,
            raw,
        );
    }
}

/// The level of a monitor that a request asks for has its turn.
proof fn lemma_job_of(request: ApplyRequest, count: usize, monitor: usize, kind: LevelKind) -> (j:
    int)
    requires
        monitor < count,
        asked(request, kind),
    ensures
        0 <= j < job_count(request, count),
        job_monitor(request, j) == monitor,
        job_kind(request, j) == kind,
{
    if request.apply_brightness && request.apply_contrast {
        if kind == LevelKind::Brightness {
            2 * monitor as int
        } else {
            2 * monitor as int + 1
        }
    } else {
        monitor as int
    }
}

/// Every level from `from` on is read, and written where it needs it.
proof fn lemma_accessed(request: ApplyRequest, count: usize, device: Device, from: int, j: int)
    requires
        0 <= from <= j < job_count(request, count),
    ensures
        ({
            let monitor = job_monitor(request, j) as usize;
            let kind = job_kind(request, j);
            let all = accesses(request, count, device, from);
            &&& all.contains(DdcAction::Read { monitor, kind })
            &&& forall|i: int|
                0 <= i < write_of(request, device, monitor, kind).len() ==> all.contains(
                    #[trigger] write_of(request, device, monitor, kind)[i],
                )
        }),
    decreases j - from,
{
    let here = job_monitor(request, from) as usize;
    let this = job_kind(request, from);
    let head = seq![DdcAction::Read { monitor: here, kind: this }] + write_of(
        request,
        device,
        here,
        this,
    );
    let rest = accesses(request, count, device, from + 1);
    let all = accesses(request, count, device, from);
    assert(all =~= head + rest);
    let monitor = job_monitor(request, j) as usize;
    let kind = job_kind(request, j);
    let write = write_of(request, device, monitor, kind);
    if from < j {
        lemma_accessed(request, count, device, from + 1, j);
        assert forall|action: DdcAction| rest.contains(action) implies #[trigger] all.contains(
            action,
        ) by {
            let k = choose|k: int| 0 <= k < rest.len() && rest[k] == action;
            assert(all[head.len() + k] == action);
        }
        assert forall|i: int| 0 <= i < write.len() implies all.contains(#[trigger] write[i]) by {
            assert(rest.contains(write[i]));
        }
        assert(rest.contains(DdcAction::Read { monitor, kind }));
    } else {
        assert(all[0] == DdcAction::Read { monitor, kind });
        assert forall|i: int| 0 <= i < write.len() implies all.contains(#[trigger] write[i]) by {
            assert(all[1 + i] == write[i]);
        }
    }
}

/// The turn of the `j`-th level.
spec fn job_turn(request: ApplyRequest, j: int) -> int {
    4 * job_monitor(request, j) + if job_kind(request, j) == LevelKind::Brightness {
        0int
    } else {
        2int
    }
}

/// The reads and writes from `from` on come in turn.
proof fn lemma_accesses_in_turn(request: ApplyRequest, count: usize, device: Device, from: int)
    requires
        0 <= from,
    ensures
        ({
            let all = accesses(request, count, device, from);
            &&& forall|i: int|
                0 <= i < all.len() ==> job_turn(request, from) <= #[trigger] turn(count, all[i]) < 4
                    * count
            &&& forall|i: int, k: int|
                0 <= i < k < all.len() ==> #[trigger] turn(count, all[i]) < #[trigger] turn(
                    count,
                    all[k],
                )
        }),
    decreases job_count(request, count) - from,
{
    let all = accesses(request, count, device, from);
    if from < job_count(request, count) {
        lemma_accesses_in_turn(request, count, device, from + 1);
        let monitor = job_monitor(request, from) as usize;
        let kind = job_kind(request, from);
        let head = seq![DdcAction::Read { monitor, kind }] + write_of(
            request,
            device,
            monitor,
            kind,
        );
        let rest = accesses(request, count, device, from + 1);
        assert(all =~= head + rest);
        assert(job_monitor(request, from) < count);
        assert(job_turn(request, from) + 2 <= job_turn(request, from + 1));
        assert(head.len() <= 2);
        assert forall|i: int| 0 <= i < all.len() implies job_turn(request, from) <= #[trigger] turn(
            count,
            all[i],
        ) < 4 * count by {
            if i >= head.len() {
                assert(all[i] == rest[i - head.len()]);
                assert(turn(count, rest[i - head.len()]) < 4 * count);
            }
        }
        assert forall|i: int, k: int| 0 <= i < k < all.len() implies #[trigger] turn(count, all[i])
            < #[trigger] turn(count, all[k]) by {
            if i >= head.len() {
                assert(all[i] == rest[i - head.len()]);
                assert(all[k] == rest[k - head.len()]);
                assert(turn(count, rest[i - head.len()]) < turn(count, rest[k - head.len()]));
            } else if k >= head.len() {
                assert(all[k] == rest[k - head.len()]);
                assert(job_turn(request, from + 1) <= turn(count, rest[k - head.len()]));
            }
        }
    }
}

proof fn lemma_whole_run(request: ApplyRequest, count: usize, device: Device, steps: nat)
    requires
        in_percent(request),
        steps >= 5 * count,
    ensures
        run(SessionState::start(request, count), device, steps) == (SessionState {
            request,
            count,
            log: full_log(request, count, device),
            next: DdcAction::Finished,
        }),
        actions(SessionState::start(request, count), device, steps) == accesses(
            request,
            count,
            device,
            0,
        ) + releases(count, 0),
{
    run_completes(request, count, device, steps);
}

/// A level that a request asks for and that a monitor supports is written exactly where it does not
/// stand at the nearest raw value already, whether above or below it, and that value is what is
/// written. So once a run has ended whose writes are taken, every such level stands there.
pub proof fn levels_reach_their_goal(
    request: ApplyRequest,
    count: usize,
    device: Device,
    steps: nat,
    monitor: usize,
    kind: LevelKind,
    raw: u32,
)
    requires
        request.apply_brightness ==> request.brightness <= 100,
        request.apply_contrast ==> request.contrast <= 100,
        steps >= 5 * count,
        monitor < count,
        goal(request, kind) matches Some(percentage) && device(monitor, kind).0 matches Some(range)
            && nearest(raw as int, percentage as int, range),
    ensures
        ({
            let taken = actions(SessionState::start(request, count), device, steps);
            let current = device(monitor, kind).0->0.current;
            &&& current != raw ==> taken.contains(DdcAction::Write { monitor, kind, value: raw })
            &&& forall|i: int|
                0 <= i < taken.len() ==> ((#[trigger] taken[i]) matches DdcAction::Write {
                    monitor: m,
                    kind: k,
                    value,
                } ==> (m == monitor && k == kind ==> value == raw && current != raw))
        }),
{
    lemma_whole_run(request, count, device, steps);
    let range = device(monitor, kind).0->0;
    lemma_nearest(request, kind, range, raw as int);
    let j = lemma_job_of(request, count, monitor, kind);
    lemma_accessed(request, count, device, 0, j);
    let all = accesses(request, count, device, 0);
    let ended = releases(count, 0);
    let taken = all + ended;
    let write = write_of(request, device, monitor, kind);
    if range.current != raw {
        assert(write[0] == DdcAction::Write { monitor, kind, value: raw });
        let k = choose|k: int| 0 <= k < all.len() && all[k] == write[0];
        assert(taken[k] == write[0]);
    }
    assert forall|i: int| 0 <= i < taken.len() implies ((
    #[trigger] taken[i]) matches DdcAction::Write { monitor: m, kind: k, value } ==> (m == monitor
        && k == kind ==> value == raw && range.current != raw)) by {
        if i < all.len() {
            writes_are_needed(request, count, device, 0, i);
        }
    }
}

/// Nothing is done to a monitor that the request does not call for. Every read and every write is
/// of a level of one of the monitors that the request asks for; what is written differs from what
/// the monitor reports and is the nearest raw value.
pub proof fn actions_are_called_for(
    request: ApplyRequest,
    count: usize,
    device: Device,
    steps: nat,
    i: int,
)
    requires
        request.apply_brightness ==> request.brightness <= 100,
        request.apply_contrast ==> request.contrast <= 100,
        steps >= 5 * count,
        0 <= i < actions(SessionState::start(request, count), device, steps).len(),
    ensures
        match actions(SessionState::start(request, count), device, steps)[i] {
            DdcAction::Read { monitor, kind } => monitor < count && goal(request, kind) is Some,
            DdcAction::Write { monitor, kind, value } => {
                &&& monitor < count
                &&& goal(request, kind) matches Some(percentage)
                &&& device(monitor, kind).0 matches Some(range)
                &&& value != range.current
                &&& nearest(value as int, percentage as int, range)
            },
            DdcAction::Release { monitor } => monitor < count,
            DdcAction::Finished => false,
        },
{
    lemma_whole_run(request, count, device, steps);
    let all = accesses(request, count, device, 0);
    if i < all.len() {
        writes_are_needed(request, count, device, 0, i);
        if let DdcAction::Write { monitor, kind, value } = all[i] {
            lemma_nearest(request, kind, device(monitor, kind).0->0, value as int);
        }
    }
}

/// A run reads every level that the request asks for, of every monitor, and releases every monitor.
/// It does so in turn: monitor by monitor, brightness before contrast, a write only after the read
/// of its level, nothing twice, and the releases last.
pub proof fn every_monitor_has_its_turn(
    request: ApplyRequest,
    count: usize,
    device: Device,
    steps: nat,
)
    requires
        request.apply_brightness ==> request.brightness <= 100,
        request.apply_contrast ==> request.contrast <= 100,
        steps >= 5 * count,
    ensures
        ({
            let taken = actions(SessionState::start(request, count), device, steps);
            &&& run(SessionState::start(request, count), device, steps).next == DdcAction::Finished
            &&& forall|monitor: usize, kind: LevelKind|
                monitor < count && goal(request, kind) is Some ==> #[trigger] taken.contains(
                    DdcAction::Read { monitor, kind },
                )
            &&& forall|monitor: usize|
                monitor < count ==> #[trigger] taken.contains(DdcAction::Release { monitor })
            &&& forall|i: int, k: int|
                0 <= i < k < taken.len() ==> #[trigger] turn(count, taken[i]) < #[trigger] turn(
                    count,
                    taken[k],
                )
        }),
{
    lemma_whole_run(request, count, device, steps);
    let all = accesses(request, count, device, 0);
    let ended = releases(count, 0);
    let taken = all + ended;
    assert(actions(SessionState::start(request, count), device, steps) == taken);
    assert forall|monitor: usize, kind: LevelKind|
        monitor < count && goal(request, kind) is Some implies #[trigger] taken.contains(
        DdcAction::Read { monitor, kind },
    ) by {
        let j = lemma_job_of(request, count, monitor, kind);
        lemma_accessed(request, count, device, 0, j);
        let k = choose|k: int|
            0 <= k < all.len() && all[k] == (DdcAction::Read { monitor, kind });
        assert(taken[k] == (DdcAction::Read { monitor, kind }));
    }
    assert forall|monitor: usize| monitor < count implies #[trigger] taken.contains(
        DdcAction::Release { monitor },
    ) by {
        assert(ended[monitor as int] == DdcAction::Release { monitor });
        assert(taken[all.len() + monitor] == DdcAction::Release { monitor });
    }
    lemma_accesses_in_turn(request, count, device, 0);
    assert forall|i: int, k: int| 0 <= i < k < taken.len() implies #[trigger] turn(count, taken[i])
        < #[trigger] turn(count, taken[k]) by {
        if k < all.len() {
            assert(turn(count, all[i]) < turn(count, all[k]));
        } else if i < all.len() {
            assert(turn(count, all[i]) < 4 * count);
            assert(taken[k] == ended[k - all.len()]);
        } else {
            assert(taken[i] == ended[i - all.len()]);
            assert(taken[k] == ended[k - all.len()]);
        }
    }
}

/// What a run reports is what became of the monitors. It fails only where something was asked for
/// and no level was reached; the failure that is reported is then that of the last level of the last
/// monitor. Otherwise a kind of level is reported as a success where it was reached on some monitor,
/// and as written where some monitor took a write of it.
pub proof fn results_tell_what_happened(
    request: ApplyRequest,
    count: usize,
    device: Device,
    steps: nat,
)
    requires
        request.apply_brightness ==> request.brightness <= 100,
        request.apply_contrast ==> request.contrast <= 100,
        steps >= 5 * count,
    ensures
        match summary(request, run(SessionState::start(request, count), device, steps).log) {
            Ok(result) => {
                &&& result.brightness_succeeded || result.contrast_succeeded || (
                !request.apply_brightness && !request.apply_contrast)
                &&& result.brightness_succeeded <==> exists|monitor: usize|
                    monitor < count && reached(request, device, monitor, LevelKind::Brightness)
                &&& result.contrast_succeeded <==> exists|monitor: usize|
                    monitor < count && reached(request, device, monitor, LevelKind::Contrast)
                &&& result.brightness_wrote <==> exists|monitor: usize|
                    monitor < count && moved(request, device, monitor, LevelKind::Brightness)
                &&& result.contrast_wrote <==> exists|monitor: usize|
                    monitor < count && moved(request, device, monitor, LevelKind::Contrast)
            },
            Err(error) => {
                &&& request.apply_brightness || request.apply_contrast
                &&& forall|monitor: usize, kind: LevelKind|
                    monitor < count ==> !reached(request, device, monitor, kind)
                &&& error == if count == 0 {
                    "DDC/CI operation failed"@
                } else if request.apply_contrast {
                    if device((count - 1) as usize, LevelKind::Contrast).0 is None {
                        "Contrast not supported"@
                    } else {
                        "Failed to set contrast"@
                    }
                } else {
                    if device((count - 1) as usize, LevelKind::Brightness).0 is None {
                        "Brightness not supported"@
                    } else {
                        "Failed to set brightness"@
                    }
                }
            },
        },
{
    lemma_whole_run(request, count, device, steps);
    let log = full_log(request, count, device);
    assert forall|j: int| 0 <= j < log.len() implies ({
        let monitor = job_monitor(request, j) as usize;
        let kind = job_kind(request, j);
        &&& monitor < count
        &&& (#[trigger] log[j]).kind == kind
        &&& fared_well(log[j].outcome) == reached(request, device, monitor, kind)
        &&& (log[j].outcome == Outcome::Written) == moved(request, device, monitor, kind)
    }) by {
        let monitor = job_monitor(request, j) as usize;
        let kind = job_kind(request, j);
        assert(log[j] == full_log_entry(request, device, j));
        if device(monitor, kind).0 is Some {
            let range = device(monitor, kind).0->0;
            lemma_nearest(request, kind, range, range.current as int);
        }
    }
    assert forall|kind: LevelKind| #[trigger] succeeded(log, kind) == exists|monitor: usize|
        monitor < count && reached(request, device, monitor, kind) by {
        if succeeded(log, kind) {
            let j = choose|j: int|
                0 <= j < log.len() && (#[trigger] log[j]).kind == kind && fared_well(
                    log[j].outcome,
                );
            assert(reached(request, device, job_monitor(request, j) as usize, kind));
        }
        if exists|monitor: usize| monitor < count && reached(request, device, monitor, kind) {
            let monitor = choose|monitor: usize|
                monitor < count && reached(request, device, monitor, kind);
            let j = lemma_job_of(request, count, monitor, kind);
            assert(log[j].kind == kind && fared_well(log[j].outcome));
        }
    }
    assert forall|kind: LevelKind| #[trigger] wrote(log, kind) == exists|monitor: usize|
        monitor < count && moved(request, device, monitor, kind) by {
        if wrote(log, kind) {
            let j = choose|j: int|
                0 <= j < log.len() && (#[trigger] log[j]).kind == kind && log[j].outcome
                    == Outcome::Written;
            assert(moved(request, device, job_monitor(request, j) as usize, kind));
        }
        if exists|monitor: usize| monitor < count && moved(request, device, monitor, kind) {
            let monitor = choose|monitor: usize|
                monitor < count && moved(request, device, monitor, kind);
            let j = lemma_job_of(request, count, monitor, kind);
            assert(log[j].kind == kind && log[j].outcome == Outcome::Written);
        }
    }
    if summary(request, log) is Err {
        assert forall|monitor: usize, kind: LevelKind| monitor < count implies !reached(
            request,
            device,
            monitor,
            kind,
        ) by {
            assert(!succeeded(log, kind)) by {
                match kind {
                    LevelKind::Brightness => {},
                    LevelKind::Contrast => {},
                }
            }
        }
        if count > 0 {
            let last = log.len() - 1;
            assert(log.last() == log[last]);
            assert(log[last] == full_log_entry(request, device, last));
            assert(job_monitor(request, last) == count - 1);
            assert(!fared_well(log.last().outcome));
        }
    }
}

/// What a monitor reports decides what comes next: a level that stands at the nearest raw value is
/// left alone, any other is to be written at it. A level that the monitor does not support is left
/// alone too. The answer to a write is noted as it is.
pub proof fn replies_lead_on(
    state: SessionState,
    monitor: usize,
    kind: LevelKind,
    percentage: u32,
    range: LevelRange,
    raw: u32,
    value: u32,
    written: bool,
)
    requires
        goal(state.request, kind) == Some(percentage),
        nearest(raw as int, percentage as int, range),
    ensures
        state.next == (DdcAction::Read { monitor, kind }) ==> ({
            let after = state.after(DdcReply::Range(Some(range)));
            let noted = Done { monitor, kind, outcome: Outcome::Unchanged };
            let unsupported = Done { monitor, kind, outcome: Outcome::Unsupported };
            &&& range.current == raw ==> after.log == state.log.push(noted)
            &&& range.current != raw ==> after == (SessionState {
                next: DdcAction::Write { monitor, kind, value: raw },
                ..state
            })
            &&& state.after(DdcReply::Range(None)).log == state.log.push(unsupported)
        }),
        state.next == (DdcAction::Write { monitor, kind, value }) ==> state.after(
            DdcReply::Written(written),
        ).log == state.log.push(
            Done {
                monitor,
                kind,
                outcome: if written {
                    Outcome::Written
                } else {
                    Outcome::Refused
                },
            },
        ),
{
    lemma_nearest(state.request, kind, range, raw as int);
}

/// A reply to something else than what is to be done next changes nothing, and a run that has ended
/// takes none at all.
pub proof fn stray_replies_change_nothing(state: SessionState, reply: DdcReply)
    ensures
        state.next is Read && !(reply is Range) ==> state.after(reply) == state,
        state.next is Write && !(reply is Written) ==> state.after(reply) == state,
        state.next is Release && !(reply is Released) ==> state.after(reply) == state,
        state.next is Finished ==> state.after(reply) == state,
{
}

/// Whatever is replied, the request and the number of monitors stay, and what has been noted of a
/// level is never changed afterwards.
pub proof fn notes_are_kept(state: SessionState, reply: DdcReply, j: int)
    ensures
        state.after(reply).request == state.request,
        state.after(reply).count == state.count,
        state.log.len() <= state.after(reply).log.len() <= state.log.len() + 1,
        0 <= j < state.log.len() ==> state.after(reply).log[j] == state.log[j],
{
}

} // verus!
