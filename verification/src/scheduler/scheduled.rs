//! Tasks that run once a day at a set minute.
//!
//! A scheduled task is triggered in the minute that its configuration
//! names, in Beijing local time, unless the log already holds a run of it
//! for the day. Triggering writes the log row, so a second tick in the
//! same minute does nothing.

use crate::clock::{Timestamp, beijing_day, beijing_minute, clock_text, current_minute};
use crate::text::{opt_text, same_text, strings_seq};
use vstd::prelude::*;

verus! {

/// A scheduled task as the dispatcher handles it.
#[derive(Debug)]
pub struct ScheduledTask {
    pub id: String,
    pub stock_symbols: Vec<String>,
    /// The `trigger_time` of the task's schedule, `HH:MM`.
    pub trigger_time: Option<String>,
    /// The `analysis_prompt` of the task's schedule.
    pub analysis_prompt: Option<String>,
}

/// What is sent when a scheduled task is triggered.
#[derive(Debug, Clone)]
pub struct ScheduledTaskPayload {
    pub task_id: String,
    pub prompt: String,
    pub stock_symbols: Vec<String>,
}

/// The mathematical value of a [`ScheduledTaskPayload`].
pub struct SpecScheduledTaskPayload {
    pub task_id: Seq<char>,
    pub prompt: Seq<char>,
    pub stock_symbols: Seq<Seq<char>>,
}

impl View for ScheduledTaskPayload {
    type V = SpecScheduledTaskPayload;

    open spec fn view(&self) -> SpecScheduledTaskPayload {
        SpecScheduledTaskPayload {
            task_id: self.task_id@,
            prompt: self.prompt@,
            stock_symbols: strings_seq(self.stock_symbols@),
        }
    }
}

/// The prompt of a task that has none of its own.
pub open spec fn default_prompt() -> Seq<char> {
    "分析这些股票的当日表现"@
}

/// Whether a task is triggered: the current minute is its trigger time and
/// it has not run today.
pub open spec fn scheduled_fires(
    trigger_time: Option<Seq<char>>,
    current: Seq<char>,
    already_run: bool,
) -> bool {
    trigger_time == Some(current) && !already_run
}

/// A copy of a vector of strings.
pub fn copy_strings(v: &Vec<String>) -> (r: Vec<String>)
    ensures
        strings_seq(r@) == strings_seq(v@),
{
    let mut r: Vec<String> = Vec::new();
    let mut i: usize = 0;
    while i < v.len()
        invariant
            i <= v.len(),
            r.len() == i,
            forall|k: int| 0 <= k < i ==> r@[k]@ == v@[k]@,
        decreases v.len() - i,
    {
        r.push(v[i].clone());
        i += 1;
    }
    assert(strings_seq(r@) =~= strings_seq(v@));
    r
}

impl ScheduledTask {
    /// The payload of the task.
    pub open spec fn payload(&self) -> SpecScheduledTaskPayload {
        SpecScheduledTaskPayload {
            task_id: self.id@,
            prompt: match self.analysis_prompt {
                Some(p) => p@,
                None => default_prompt(),
            },
            stock_symbols: strings_seq(self.stock_symbols@),
        }
    }

    /// Decides whether the task is triggered at `now`. `already_run` says
    /// whether the log holds a run of the task for the Beijing day of `now`.
    /// With the payload that comes back the caller emits the event and
    /// writes the log row.
    pub fn check(&self, now: &Timestamp, already_run: bool) -> (r: Option<ScheduledTaskPayload>)
        ensures
            r is Some == scheduled_fires(
                opt_text(self.trigger_time),
                clock_text(beijing_minute(now.secs as int)),
                already_run,
            ),
            r matches Some(p) ==> p@ == self.payload(),
    {
        let current = current_minute(now);
        let at_time = match &self.trigger_time {
            Some(t) => same_text(t.as_str(), current.as_str()),
            None => false,
        };
        if !at_time || already_run {
            return None;
        }
        let prompt = match &self.analysis_prompt {
            Some(p) => p.clone(),
            None => String::from_str("分析这些股票的当日表现"),
        };
        Some(
            ScheduledTaskPayload {
                task_id: self.id.clone(),
                prompt,
                stock_symbols: copy_strings(&self.stock_symbols),
            },
        )
    }
}

/// A row of the schedule log: which task ran on which Beijing day.
pub struct LogRow {
    pub task_id: Seq<char>,
    pub day: int,
}

/// How many of the first `n` rows of the log are runs of `task_id` on
/// `day`.
pub open spec fn runs_logged(log: Seq<LogRow>, task_id: Seq<char>, day: int, n: int) -> nat
    decreases n,
{
    if n <= 0 || n > log.len() {
        0
    } else {
        runs_logged(log, task_id, day, n - 1) + if log[n - 1].task_id == task_id && log[n - 1].day
            == day {
            1nat
        } else {
            0nat
        }
    }
}

/// Whether the log holds a run of `task_id` on `day`.
pub open spec fn has_run(log: Seq<LogRow>, task_id: Seq<char>, day: int) -> bool {
    runs_logged(log, task_id, day, log.len() as int) > 0
}

/// The log after the dispatcher has looked at a task at instant `secs`: a
/// row more if the task was triggered.
pub open spec fn log_after_tick(
    log: Seq<LogRow>,
    task_id: Seq<char>,
    trigger_time: Option<Seq<char>>,
    secs: int,
) -> Seq<LogRow> {
    if scheduled_fires(
        trigger_time,
        clock_text(beijing_minute(secs)),
        has_run(log, task_id, beijing_day(secs)),
    ) {
        log.push(LogRow { task_id, day: beijing_day(secs) })
    } else {
        log
    }
}

/// The log after the dispatcher has looked at a task at each of the first
/// `m` of a run of instants.
pub open spec fn log_after_ticks(
    log: Seq<LogRow>,
    task_id: Seq<char>,
    trigger_time: Option<Seq<char>>,
    instants: Seq<int>,
    m: int,
) -> Seq<LogRow>
    decreases m,
{
    if m <= 0 || m > instants.len() {
        log
    } else {
        log_after_tick(
            log_after_ticks(log, task_id, trigger_time, instants, m - 1),
            task_id,
            trigger_time,
            instants[m - 1],
        )
    }
}

proof fn lemma_runs_logged_push(log: Seq<LogRow>, row: LogRow, task_id: Seq<char>, day: int)
    ensures
        runs_logged(log.push(row), task_id, day, log.len() as int + 1) == runs_logged(
            log,
            task_id,
            day,
            log.len() as int,
        ) + if row.task_id == task_id && row.day == day {
            1nat
        } else {
            0nat
        },
{
    lemma_runs_logged_prefix(log, log.push(row), task_id, day, log.len() as int);
}

proof fn lemma_runs_logged_prefix(
    a: Seq<LogRow>,
    b: Seq<LogRow>,
    task_id: Seq<char>,
    day: int,
    n: int,
)
    requires
        0 <= n <= a.len() <= b.len(),
        forall|i: int| 0 <= i < n ==> a[i] == b[i],
    ensures
        runs_logged(a, task_id, day, n) == runs_logged(b, task_id, day, n),
    decreases n,
{
    if n > 0 {
        lemma_runs_logged_prefix(a, b, task_id, day, n - 1);
    }
}

/// At most one run a day: over any run of ticks within one Beijing day,
/// the dispatcher adds at most one row for a task to the log, and none if
/// the log already holds one for the day.
pub proof fn lemma_one_run_per_day(
    log: Seq<LogRow>,
    task_id: Seq<char>,
    trigger_time: Option<Seq<char>>,
    instants: Seq<int>,
    day: int,
    m: int,
)
    requires
        0 <= m <= instants.len(),
        forall|t: int| 0 <= t < instants.len() ==> beijing_day(#[trigger] instants[t]) == day,
    ensures
        ({
            let after = log_after_ticks(log, task_id, trigger_time, instants, m);
            let before_count = runs_logged(log, task_id, day, log.len() as int);
            let after_count = runs_logged(after, task_id, day, after.len() as int);
            &&& before_count <= after_count <= before_count + 1
            &&& before_count >= 1 ==> after_count == before_count
        }),
    decreases m,
{
    if m > 0 {
        lemma_one_run_per_day(log, task_id, trigger_time, instants, day, m - 1);
        let middle = log_after_ticks(log, task_id, trigger_time, instants, m - 1);
        let row = LogRow { task_id, day };
        lemma_runs_logged_push(middle, row, task_id, day);
    }
}

} // verus!
