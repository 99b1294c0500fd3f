//! The decisions of the periodic watchers.
//!
//! A tick runs four dispatchers in order: alerts and indicators while the
//! market trades, then scheduled tasks and agent plans. Each dispatcher
//! reads its entities from the store, asks the functions here what to do
//! for each, and carries it out. The functions decide from plain values and
//! never wait: fetching quotes, capturing a screen, emitting an event and
//! writing to the store are the caller's part.

pub mod alert;
pub mod conditions;
pub mod indicator;
pub mod plan;
pub mod scheduled;

use crate::clock::{Timestamp, is_market_hours, market_open_at};
use vstd::prelude::*;

verus! {

/// The seconds between two ticks.
pub const TICK_INTERVAL_SECS: u64 = 10;

/// The four dispatchers of a tick, in the order in which they run.
#[derive(Debug, Clone, Copy, PartialEq, Eq, Structural)]
pub enum Dispatcher {
    Alerts,
    Indicators,
    ScheduledTasks,
    AgentPlans,
}

/// Which dispatchers run in a tick: alerts and indicators only while the
/// market trades, scheduled tasks and agent plans always.
pub open spec fn dispatchers_at(market_open: bool) -> Seq<Dispatcher> {
    if market_open {
        seq![
            Dispatcher::Alerts,
            Dispatcher::Indicators,
            Dispatcher::ScheduledTasks,
            Dispatcher::AgentPlans,
        ]
    } else {
        seq![Dispatcher::ScheduledTasks, Dispatcher::AgentPlans]
    }
}

/// The dispatchers to run in the tick at `now`, in order. A failure of one
/// does not stop the next.
pub fn tick_plan(now: &Timestamp) -> (plan: Vec<Dispatcher>)
    ensures
        plan@ == dispatchers_at(market_open_at(now.secs as int)),
{
    let mut plan: Vec<Dispatcher> = Vec::new();
    if is_market_hours(now) {
        plan.push(Dispatcher::Alerts);
        plan.push(Dispatcher::Indicators);
    }
    plan.push(Dispatcher::ScheduledTasks);
    plan.push(Dispatcher::AgentPlans);
    assert(plan@ =~= dispatchers_at(market_open_at(now.secs as int)));
    plan
}

} // verus!
