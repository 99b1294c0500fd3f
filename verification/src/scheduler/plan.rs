//! Agent plans: when a plan is due, and the course of one run through its
//! steps.
//!
//! A run goes through the steps in order. Fetching quotes, checking
//! conditions on them, capturing a screen and emitting an event are done by
//! the caller: [`PlanRun::next_action`] says what to do next, and
//! [`PlanRun::complete`] takes what came of it. A condition that is not met
//! ends the run; so does a request for vision analysis, which hands the
//! rest of the plan over to the front end.

use crate::clock::{
    Timestamp,
    beijing_day,
    beijing_minute,
    clock_text,
    current_minute,
    day_of,
    interval_elapsed,
    is_interval_elapsed,
    parse_rfc3339,
    rfc3339_instant,
};
use crate::scheduler::scheduled::copy_strings;
use crate::text::{
    chars_of,
    contains,
    contains_text,
    opt_text,
    same_chars,
    same_text,
    strings_seq,
};
use vstd::prelude::*;

verus! {

/// How a plan is scheduled.
#[derive(Debug, Clone, Copy, PartialEq, Eq, Structural)]
pub enum ScheduleKind {
    Interval,
    Daily,
    Once,
    /// A type that is never due.
    Other,
}

/// The kind that a schedule's `type` names.
pub open spec fn schedule_kind_named(name: Seq<char>) -> ScheduleKind {
    if name == "interval"@ {
        ScheduleKind::Interval
    } else if name == "daily"@ {
        ScheduleKind::Daily
    } else if name == "once"@ {
        ScheduleKind::Once
    } else {
        ScheduleKind::Other
    }
}

/// The kind that a schedule's `type` names.
pub fn parse_schedule_kind(name: &str) -> (kind: ScheduleKind)
    ensures
        kind == schedule_kind_named(name@),
{
    let n = chars_of(name);
    if same_chars(&n, &chars_of("interval")) {
        ScheduleKind::Interval
    } else if same_chars(&n, &chars_of("daily")) {
        ScheduleKind::Daily
    } else if same_chars(&n, &chars_of("once")) {
        ScheduleKind::Once
    } else {
        ScheduleKind::Other
    }
}

/// What a step does.
#[derive(Debug, Clone, Copy, PartialEq, Eq, Structural)]
pub enum StepKind {
    FetchData,
    ConditionCheck,
    CaptureScreen,
    VisionAnalyze,
    Action,
    /// A type that the core passes over.
    Other,
}

/// The kind that a step's `type` names.
pub open spec fn step_kind_named(name: Seq<char>) -> StepKind {
    if name == "fetch_data"@ {
        StepKind::FetchData
    } else if name == "condition_check"@ {
        StepKind::ConditionCheck
    } else if name == "capture_screen"@ {
        StepKind::CaptureScreen
    } else if name == "vision_analyze"@ {
        StepKind::VisionAnalyze
    } else if name == "action"@ {
        StepKind::Action
    } else {
        StepKind::Other
    }
}

/// The kind that a step's `type` names.
pub fn parse_step_kind(name: &str) -> (kind: StepKind)
    ensures
        kind == step_kind_named(name@),
{
    let n = chars_of(name);
    if same_chars(&n, &chars_of("fetch_data")) {
        StepKind::FetchData
    } else if same_chars(&n, &chars_of("condition_check")) {
        StepKind::ConditionCheck
    } else if same_chars(&n, &chars_of("capture_screen")) {
        StepKind::CaptureScreen
    } else if same_chars(&n, &chars_of("vision_analyze")) {
        StepKind::VisionAnalyze
    } else if same_chars(&n, &chars_of("action")) {
        StepKind::Action
    } else {
        StepKind::Other
    }
}

/// When a plan runs.
#[derive(Debug)]
pub struct PlanSchedule {
    pub schedule_type: String,
    /// The interval of an interval schedule, in seconds.
    pub interval_secs: Option<i64>,
    /// The minute of a daily schedule, `HH:MM` in Beijing local time.
    pub trigger_time: Option<String>,
    pub market_hours_only: Option<bool>,
}

/// What a plan remembers of its runs.
#[derive(Debug)]
pub struct ExecutionState {
    /// When the plan last ran, as RFC 3339 text.
    pub last_executed_at: Option<String>,
    pub total_executions: u64,
    pub total_triggers: u64,
    pub consecutive_failures: u64,
}

/// One step of a plan, with what the core reads of its configuration.
#[derive(Debug)]
pub struct PlanStep {
    pub id: String,
    pub step_type: String,
    /// The `symbols` of a step that fetches data.
    pub symbols: Option<Vec<String>>,
    /// The `window_title` of a step that captures a screen.
    pub window_title: Option<String>,
}

/// A plan attached to a task.
#[derive(Debug)]
pub struct AgentPlan {
    pub version: u32,
    pub description: String,
    pub stock_symbols: Vec<String>,
    pub enabled: bool,
    pub steps: Vec<PlanStep>,
    pub schedule: PlanSchedule,
    pub execution_state: ExecutionState,
}

/// The interval of an interval schedule that names none, in seconds.
pub const DEFAULT_INTERVAL_SECS: i64 = 300;

/// The minute of a daily schedule that names none.
pub open spec fn default_trigger_time() -> Seq<char> {
    "09:30"@
}

/// One more, unless the counter is at its largest value.
pub open spec fn bumped(n: u64) -> u64 {
    if n < u64::MAX {
        (n + 1) as u64
    } else {
        n
    }
}

fn bump(n: u64) -> (r: u64)
    ensures
        r == bumped(n),
        r >= n,
{
    if n < u64::MAX {
        n + 1
    } else {
        n
    }
}

/// Whether the schedule calls for a run at `now`.
///
/// - interval: the plan never ran, or the time of its last run cannot be
///   read, or the interval has passed since;
/// - daily: the Beijing time of day is the trigger time, and the plan did
///   not run on this Beijing day;
/// - once: the plan has never triggered.
pub open spec fn should_execute_at(
    schedule: PlanSchedule,
    state: ExecutionState,
    now: Timestamp,
) -> bool {
    match schedule_kind_named(schedule.schedule_type@) {
        ScheduleKind::Interval => interval_elapsed(
            opt_text(state.last_executed_at),
            match schedule.interval_secs {
                Some(secs) => secs as int,
                None => 300,
            },
            now,
        ),
        ScheduleKind::Daily => clock_text(beijing_minute(now.secs as int)) == (match opt_text(
            schedule.trigger_time,
        ) {
            Some(t) => t,
            None => default_trigger_time(),
        }) && match opt_text(state.last_executed_at) {
            None => true,
            Some(text) => match rfc3339_instant(text) {
                None => true,
                Some(last) => beijing_day(last.secs as int) != beijing_day(now.secs as int),
            },
        },
        ScheduleKind::Once => state.total_triggers == 0,
        ScheduleKind::Other => false,
    }
}

impl AgentPlan {
    /// Whether the plan runs in the tick at `now`: it is enabled, the market
    /// trades unless the plan does not ask for that, and its schedule calls
    /// for a run.
    pub open spec fn due_at(&self, now: Timestamp, market_open: bool) -> bool {
        &&& self.enabled
        &&& market_open || self.schedule.market_hours_only == Some(false)
        &&& should_execute_at(self.schedule, self.execution_state, now)
    }

    /// Whether the schedule calls for a run at `now`.
    pub fn should_execute(&self, now: &Timestamp) -> (r: bool)
        ensures
            r == should_execute_at(self.schedule, self.execution_state, *now),
    {
        match parse_schedule_kind(self.schedule.schedule_type.as_str()) {
            ScheduleKind::Interval => {
                let interval = match self.schedule.interval_secs {
                    Some(secs) => secs,
                    None => DEFAULT_INTERVAL_SECS,
                };
                is_interval_elapsed(&self.execution_state.last_executed_at, interval, now)
            },
            ScheduleKind::Daily => {
                let current = current_minute(now);
                let at_time = match &self.schedule.trigger_time {
                    Some(t) => same_text(t.as_str(), current.as_str()),
                    None => same_text("09:30", current.as_str()),
                };
                if !at_time {
                    return false;
                }
                match &self.execution_state.last_executed_at {
                    None => true,
                    Some(text) => match parse_rfc3339(text.as_str()) {
                        None => true,
                        Some(last) => day_of(&last) != day_of(now),
                    },
                }
            },
            ScheduleKind::Once => self.execution_state.total_triggers == 0,
            ScheduleKind::Other => false,
        }
    }

    /// Whether the plan runs in the tick at `now`.
    pub fn is_due(&self, now: &Timestamp, market_open: bool) -> (r: bool)
        ensures
            r == self.due_at(*now, market_open),
            !self.enabled ==> !r,
    {
        if !self.enabled {
            return false;
        }
        let market_only = match self.schedule.market_hours_only {
            Some(flag) => flag,
            None => true,
        };
        if market_only && !market_open {
            return false;
        }
        self.should_execute(now)
    }

    /// The plan after a run that ended at the time written in `stamp`: one
    /// more execution, the run stamped, and the failures in a row counted
    /// up after a failure and cleared after a success.
    pub open spec fn after_run(self, failed: bool, stamp: String) -> AgentPlan {
        AgentPlan {
            execution_state: ExecutionState {
                last_executed_at: Some(stamp),
                total_executions: bumped(self.execution_state.total_executions),
                total_triggers: self.execution_state.total_triggers,
                consecutive_failures: if failed {
                    bumped(self.execution_state.consecutive_failures)
                } else {
                    0
                },
            },
            ..self
        }
    }

    /// Records a run, whatever its outcome.
    pub fn record_run(&mut self, failed: bool, stamp: String)
        ensures
            *final(self) == old(self).after_run(failed, stamp),
            final(self).execution_state.total_executions >= old(
                self,
            ).execution_state.total_executions,
            final(self).execution_state.total_triggers == old(self).execution_state.total_triggers,
    {
        self.execution_state.total_executions = bump(self.execution_state.total_executions);
        self.execution_state.last_executed_at = Some(stamp);
        if failed {
            self.execution_state.consecutive_failures = bump(
                self.execution_state.consecutive_failures,
            );
        } else {
            self.execution_state.consecutive_failures = 0;
        }
    }

    /// The plan after it has triggered: one more trigger, and a plan that
    /// runs once is disabled.
    pub open spec fn after_trigger(self) -> AgentPlan {
        AgentPlan {
            enabled: self.enabled && schedule_kind_named(self.schedule.schedule_type@)
                != ScheduleKind::Once,
            execution_state: ExecutionState {
                last_executed_at: self.execution_state.last_executed_at,
                total_executions: self.execution_state.total_executions,
                total_triggers: bumped(self.execution_state.total_triggers),
                consecutive_failures: self.execution_state.consecutive_failures,
            },
            ..self
        }
    }

    fn trigger(&mut self)
        ensures
            *final(self) == old(self).after_trigger(),
    {
        self.execution_state.total_triggers = bump(self.execution_state.total_triggers);
        match parse_schedule_kind(self.schedule.schedule_type.as_str()) {
            ScheduleKind::Once => {
                self.enabled = false;
            },
            _ => {},
        }
    }

    /// The kind of step `i`.
    pub open spec fn kind_at(&self, i: int) -> StepKind {
        step_kind_named(self.steps@[i].step_type@)
    }

    /// The first step at or behind `from` that is an action, if any.
    pub open spec fn action_from(&self, from: int) -> Option<usize>
        decreases self.steps.len() - from,
    {
        if !(0 <= from < self.steps.len()) {
            None
        } else if self.kind_at(from) == StepKind::Action {
            Some(from as usize)
        } else {
            self.action_from(from + 1)
        }
    }

    /// The first step at or behind `from` that is an action, if any.
    pub fn find_action(&self, from: usize) -> (r: Option<usize>)
        ensures
            r == self.action_from(from as int),
    {
        let mut i: usize = from;
        while i < self.steps.len()
            invariant
                from <= i,
                self.action_from(i as int) == self.action_from(from as int),
            decreases self.steps.len() - i,
        {
            match parse_step_kind(self.steps[i].step_type.as_str()) {
                StepKind::Action => {
                    return Some(i);
                },
                _ => {},
            }
            i += 1;
        }
        None
    }
}

/// Why a run failed.
#[derive(Debug, Clone, Copy, PartialEq, Eq, Structural)]
pub enum PlanError {
    /// A step that captures a screen names no window.
    MissingWindowTitle,
    /// The capture did not succeed.
    CaptureFailed,
    /// Vision analysis was asked for before any screen was captured.
    MissingImagePath,
}

/// What a run is waiting for.
#[derive(Debug, Clone, Copy, PartialEq, Eq, Structural)]
pub enum Pending {
    Nothing,
    Fetch,
    Check,
    Capture,
    Vision,
    Trigger,
}

/// Where a run stands.
#[derive(Debug, Clone, Copy, PartialEq, Eq, Structural)]
pub enum RunStatus {
    Running,
    Done,
    Failed(PlanError),
}

/// One run through the steps of a plan.
#[derive(Debug)]
pub struct PlanRun {
    /// The index of the next step to look at.
    pub next: usize,
    /// Whether no condition check of this run has failed.
    pub condition_met: bool,
    /// The image of the latest capture of this run.
    pub image_path: Option<String>,
    pub pending: Pending,
    pub status: RunStatus,
}

/// What the caller is to do next.
#[derive(Debug)]
pub enum PlanAction {
    /// Fetch quotes for the symbols and keep them as the result of the step.
    FetchQuotes { step: usize, symbols: Vec<String> },
    /// Check the conditions of the step on the quotes fetched so far.
    CheckConditions { step: usize },
    /// Capture the window with the title.
    CaptureScreen { step: usize, window_title: String },
    /// Ask the front end for vision analysis of the image; `action_step` is
    /// the action step whose configuration goes with the request.
    EmitVision { step: usize, image_path: String, action_step: Option<usize> },
    /// Tell the front end that the plan has triggered.
    EmitTrigger { step: usize },
    /// The run is over. Record it, and write the log row.
    Finish { error: Option<PlanError>, condition_met: bool },
}

/// The mathematical value of a [`PlanAction`].
pub enum SpecPlanAction {
    FetchQuotes { step: usize, symbols: Seq<Seq<char>> },
    CheckConditions { step: usize },
    CaptureScreen { step: usize, window_title: Seq<char> },
    EmitVision { step: usize, image_path: Seq<char>, action_step: Option<usize> },
    EmitTrigger { step: usize },
    Finish { error: Option<PlanError>, condition_met: bool },
}

impl View for PlanAction {
    type V = SpecPlanAction;

    open spec fn view(&self) -> SpecPlanAction {
        match self {
            PlanAction::FetchQuotes { step, symbols } => SpecPlanAction::FetchQuotes {
                step: *step,
                symbols: strings_seq(symbols@),
            },
            PlanAction::CheckConditions { step } => SpecPlanAction::CheckConditions { step: *step },
            PlanAction::CaptureScreen { step, window_title } => SpecPlanAction::CaptureScreen {
                step: *step,
                window_title: window_title@,
            },
            PlanAction::EmitVision { step, image_path, action_step } => SpecPlanAction::EmitVision {
                step: *step,
                image_path: image_path@,
                action_step: *action_step,
            },
            PlanAction::EmitTrigger { step } => SpecPlanAction::EmitTrigger { step: *step },
            PlanAction::Finish { error, condition_met } => SpecPlanAction::Finish {
                error: *error,
                condition_met: *condition_met,
            },
        }
    }
}

/// What came of an action.
#[derive(Debug)]
pub enum StepOutcome {
    Fetched,
    Checked { met: bool },
    Captured { image_path: String },
    CaptureFailed,
    Emitted,
}

/// What a run decides: the action, and the run and the plan after it.
pub struct Decision {
    pub action: SpecPlanAction,
    pub run: PlanRun,
    pub plan: AgentPlan,
}

/// The status written to the log for a run: `executed` if no condition
/// check failed, `checked` otherwise.
pub open spec fn log_status_text(condition_met: bool) -> Seq<char> {
    if condition_met {
        "executed"@
    } else {
        "checked"@
    }
}

/// The status written to the log for a run.
pub fn log_status(condition_met: bool) -> (status: &'static str)
    ensures
        status@ == log_status_text(condition_met),
{
    if condition_met {
        "executed"
    } else {
        "checked"
    }
}

/// The text of an optional string, empty if there is none.
pub open spec fn text_or_empty(s: Option<String>) -> Seq<char> {
    match s {
        Some(t) => t@,
        None => Seq::empty(),
    }
}

impl PlanRun {
    /// A run before its first step.
    pub open spec fn initial() -> PlanRun {
        PlanRun {
            next: 0,
            condition_met: true,
            image_path: None,
            pending: Pending::Nothing,
            status: RunStatus::Running,
        }
    }

    /// A run before its first step.
    pub fn start() -> (run: PlanRun)
        ensures
            run == PlanRun::initial(),
    {
        PlanRun {
            next: 0,
            condition_met: true,
            image_path: None,
            pending: Pending::Nothing,
            status: RunStatus::Running,
        }
    }

    /// The error of a run that failed.
    pub open spec fn error(self) -> Option<PlanError> {
        match self.status {
            RunStatus::Failed(e) => Some(e),
            _ => None,
        }
    }

    /// The first step at or behind `from` that asks for something: steps
    /// of other types are passed over.
    pub open spec fn step_from(plan: AgentPlan, from: int) -> int
        decreases plan.steps.len() - from,
    {
        if 0 <= from < plan.steps.len() && plan.kind_at(from) == StepKind::Other {
            PlanRun::step_from(plan, from + 1)
        } else {
            from
        }
    }

    /// The run with something pending for step `i`.
    pub open spec fn waiting(self, i: int, pending: Pending) -> PlanRun {
        PlanRun { next: (i + 1) as usize, pending, ..self }
    }

    /// The run ended at step `i`.
    pub open spec fn ended(self, i: int, status: RunStatus) -> PlanRun {
        PlanRun { next: i as usize, pending: Pending::Nothing, status, ..self }
    }

    /// What the run decides next for the plan.
    pub open spec fn decide(self, plan: AgentPlan) -> Decision {
        let i = PlanRun::step_from(plan, self.next as int);
        let finish = SpecPlanAction::Finish { error: self.error(), condition_met: self.condition_met };
        if self.status != RunStatus::Running {
            Decision { action: finish, run: self, plan }
        } else if i >= plan.steps.len() {
            Decision { action: finish, run: self.ended(i, RunStatus::Done), plan }
        } else {
            let step = plan.steps@[i];
            match plan.kind_at(i) {
                StepKind::FetchData => Decision {
                    action: SpecPlanAction::FetchQuotes {
                        step: i as usize,
                        symbols: match step.symbols {
                            Some(symbols) => strings_seq(symbols@),
                            None => strings_seq(plan.stock_symbols@),
                        },
                    },
                    run: self.waiting(i, Pending::Fetch),
                    plan,
                },
                StepKind::ConditionCheck => Decision {
                    action: SpecPlanAction::CheckConditions { step: i as usize },
                    run: self.waiting(i, Pending::Check),
                    plan,
                },
                StepKind::CaptureScreen => if text_or_empty(step.window_title).len() == 0 {
                    Decision {
                        action: SpecPlanAction::Finish {
                            error: Some(PlanError::MissingWindowTitle),
                            condition_met: self.condition_met,
                        },
                        run: self.ended(i, RunStatus::Failed(PlanError::MissingWindowTitle)),
                        plan,
                    }
                } else {
                    Decision {
                        action: SpecPlanAction::CaptureScreen {
                            step: i as usize,
                            window_title: text_or_empty(step.window_title),
                        },
                        run: self.waiting(i, Pending::Capture),
                        plan,
                    }
                },
                StepKind::VisionAnalyze => if text_or_empty(self.image_path).len() == 0 {
                    Decision {
                        action: SpecPlanAction::Finish {
                            error: Some(PlanError::MissingImagePath),
                            condition_met: self.condition_met,
                        },
                        run: self.ended(i, RunStatus::Failed(PlanError::MissingImagePath)),
                        plan,
                    }
                } else {
                    Decision {
                        action: SpecPlanAction::EmitVision {
                            step: i as usize,
                            image_path: text_or_empty(self.image_path),
                            action_step: plan.action_from(i + 1),
                        },
                        run: self.waiting(i, Pending::Vision),
                        plan: plan.after_trigger(),
                    }
                },
                _ => Decision {
                    action: SpecPlanAction::EmitTrigger { step: i as usize },
                    run: self.waiting(i, Pending::Trigger),
                    plan: plan.after_trigger(),
                },
            }
        }
    }

    /// Decides what to do next. A step that triggers counts the trigger in
    /// the plan, and disables a plan that runs once, before the event is
    /// emitted.
    pub fn next_action(&mut self, plan: &mut AgentPlan) -> (action: PlanAction)
        ensures
            old(self).decide(*old(plan)) == (Decision {
                action: action@,
                run: *final(self),
                plan: *final(plan),
            }),
    {
        let finish = PlanAction::Finish {
            error: match self.status {
                RunStatus::Failed(e) => Some(e),
                _ => None,
            },
            condition_met: self.condition_met,
        };
        match self.status {
            RunStatus::Running => {},
            _ => {
                return finish;
            },
        }
        let mut i: usize = self.next;
        let mut kind = StepKind::Other;
        while i < plan.steps.len()
            invariant
                self.next <= i,
                PlanRun::step_from(*plan, i as int) == PlanRun::step_from(*plan, self.next as int),
            ensures
                i == PlanRun::step_from(*plan, self.next as int),
                i < plan.steps.len() ==> kind == plan.kind_at(i as int) && kind != StepKind::Other,
            decreases plan.steps.len() - i,
        {
            kind = parse_step_kind(plan.steps[i].step_type.as_str());
            match kind {
                StepKind::Other => {},
                _ => {
                    break ;
                },
            }
            i += 1;
        }
        if i >= plan.steps.len() {
            self.next = i;
            self.pending = Pending::Nothing;
            self.status = RunStatus::Done;
            return finish;
        }
        match kind {
            StepKind::FetchData => {
                let symbols = match &plan.steps[i].symbols {
                    Some(symbols) => copy_strings(symbols),
                    None => copy_strings(&plan.stock_symbols),
                };
                self.next = i + 1;
                self.pending = Pending::Fetch;
                PlanAction::FetchQuotes { step: i, symbols }
            },
            StepKind::ConditionCheck => {
                self.next = i + 1;
                self.pending = Pending::Check;
                PlanAction::CheckConditions { step: i }
            },
            StepKind::CaptureScreen => {
                let title = match &plan.steps[i].window_title {
                    Some(t) => t.clone(),
                    None => String::new(),
                };
                if title.as_str().unicode_len() == 0 {
                    self.next = i;
                    self.pending = Pending::Nothing;
                    self.status = RunStatus::Failed(PlanError::MissingWindowTitle);
                    PlanAction::Finish {
                        error: Some(PlanError::MissingWindowTitle),
                        condition_met: self.condition_met,
                    }
                } else {
                    self.next = i + 1;
                    self.pending = Pending::Capture;
                    PlanAction::CaptureScreen { step: i, window_title: title }
                }
            },
            StepKind::VisionAnalyze => {
                let image_path = match &self.image_path {
                    Some(p) => p.clone(),
                    None => String::new(),
                };
                if image_path.as_str().unicode_len() == 0 {
                    self.next = i;
                    self.pending = Pending::Nothing;
                    self.status = RunStatus::Failed(PlanError::MissingImagePath);
                    PlanAction::Finish {
                        error: Some(PlanError::MissingImagePath),
                        condition_met: self.condition_met,
                    }
                } else {
                    let action_step = plan.find_action(i + 1);
                    plan.trigger();
                    self.next = i + 1;
                    self.pending = Pending::Vision;
                    PlanAction::EmitVision { step: i, image_path, action_step }
                }
            },
            _ => {
                plan.trigger();
                self.next = i + 1;
                self.pending = Pending::Trigger;
                PlanAction::EmitTrigger { step: i }
            },
        }
    }

    /// The run after the outcome of its pending action. A failed check and
    /// a vision request end the run; a failed capture fails it. An outcome
    /// that does not answer the pending action changes nothing.
    pub open spec fn completed(self, outcome: StepOutcome) -> PlanRun {
        match (self.pending, outcome) {
            (Pending::Fetch, StepOutcome::Fetched) => PlanRun { pending: Pending::Nothing, ..self },
            (Pending::Check, StepOutcome::Checked { met }) => PlanRun {
                pending: Pending::Nothing,
                condition_met: met,
                status: if met {
                    self.status
                } else {
                    RunStatus::Done
                },
                ..self
            },
            (Pending::Capture, StepOutcome::Captured { image_path }) => PlanRun {
                pending: Pending::Nothing,
                image_path: Some(image_path),
                ..self
            },
            (Pending::Capture, StepOutcome::CaptureFailed) => PlanRun {
                pending: Pending::Nothing,
                status: RunStatus::Failed(PlanError::CaptureFailed),
                ..self
            },
            (Pending::Vision, StepOutcome::Emitted) => PlanRun {
                pending: Pending::Nothing,
                status: RunStatus::Done,
                ..self
            },
            (Pending::Trigger, StepOutcome::Emitted) => PlanRun {
                pending: Pending::Nothing,
                ..self
            },
            _ => self,
        }
    }

    /// Takes the outcome of the pending action.
    pub fn complete(&mut self, outcome: StepOutcome)
        ensures
            *final(self) == old(self).completed(outcome),
    {
        match (self.pending, outcome) {
            (Pending::Fetch, StepOutcome::Fetched) => {
                self.pending = Pending::Nothing;
            },
            (Pending::Check, StepOutcome::Checked { met }) => {
                self.pending = Pending::Nothing;
                self.condition_met = met;
                if !met {
                    self.status = RunStatus::Done;
                }
            },
            (Pending::Capture, StepOutcome::Captured { image_path }) => {
                self.pending = Pending::Nothing;
                self.image_path = Some(image_path);
            },
            (Pending::Capture, StepOutcome::CaptureFailed) => {
                self.pending = Pending::Nothing;
                self.status = RunStatus::Failed(PlanError::CaptureFailed);
            },
            (Pending::Vision, StepOutcome::Emitted) => {
                self.pending = Pending::Nothing;
                self.status = RunStatus::Done;
            },
            (Pending::Trigger, StepOutcome::Emitted) => {
                self.pending = Pending::Nothing;
            },
            _ => {},
        }
    }
}

/// The counters of a plan only grow in a run: deciding the next action
/// never lowers the number of triggers and leaves the other counters alone.
pub proof fn lemma_decide_counters_grow(run: PlanRun, plan: AgentPlan)
    ensures
        run.decide(plan).plan.execution_state.total_triggers >= plan.execution_state.total_triggers,
        run.decide(plan).plan.execution_state.total_executions
            == plan.execution_state.total_executions,
        run.decide(plan).plan.execution_state.consecutive_failures
            == plan.execution_state.consecutive_failures,
        run.decide(plan).plan.steps == plan.steps,
{
}

/// A failed condition check cuts the run short: the run is over, nothing
/// further is asked of the caller, and the plan is left as it is.
pub proof fn lemma_failed_check_ends_run(run: PlanRun, plan: AgentPlan)
    requires
        run.status == RunStatus::Running,
        run.pending == Pending::Check,
    ensures
        ({
            let after = run.completed(StepOutcome::Checked { met: false });
            &&& after.status == RunStatus::Done
            &&& !after.condition_met
            &&& after.decide(plan).action == (SpecPlanAction::Finish {
                error: None,
                condition_met: false,
            })
            &&& after.decide(plan).plan == plan
        }),
{
}

/// A disabled plan is never due.
pub proof fn lemma_disabled_plan_not_due(plan: AgentPlan, now: Timestamp, market_open: bool)
    requires
        !plan.enabled,
    ensures
        !plan.due_at(now, market_open),
{
}

/// Whether a window is the one a capture step asks for: its title holds
/// the title asked for, or is part of it.
pub open spec fn title_matches(title: Seq<char>, wanted: Seq<char>) -> bool {
    contains_text(title, wanted) || contains_text(wanted, title)
}

/// Whether a window is the one a capture step asks for.
pub fn window_matches(title: &str, wanted: &str) -> (r: bool)
    ensures
        r == title_matches(title@, wanted@),
{
    contains(title, wanted) || contains(wanted, title)
}

} // verus!
