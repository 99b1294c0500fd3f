use chrono::DateTime;
use jinchan_core::clock::Timestamp;
use jinchan_core::scheduler::alert::{
    alert_symbols, find_quote, parse_alert_kind, AlertKind, AlertRule, QuoteField, Reference,
};
use jinchan_core::market::Relation;
use jinchan_core::market::Relation::{Above, Below, Equal, Unordered};
use jinchan_core::scheduler::conditions::{
    check_condition, conditions_met, field_of, parse_compare_op, CompareOp, Comparison,
};
use jinchan_core::scheduler::indicator::{
    check_formula, make_signal_key, Indicator, IndicatorError, TriggeredSignal, INDICATOR_WINDOW,
};
use jinchan_core::scheduler::plan::{
    log_status, parse_schedule_kind, parse_step_kind, window_matches, AgentPlan, ExecutionState, Pending,
    PlanAction, PlanError, PlanRun, PlanSchedule, PlanStep, RunStatus, ScheduleKind, StepKind,
    StepOutcome,
};
use jinchan_core::scheduler::scheduled::{copy_strings, ScheduledTask};

fn at(text: &str) -> Timestamp {
    let t = DateTime::parse_from_rfc3339(text).unwrap();
    Timestamp { secs: t.timestamp(), nanos: t.timestamp_subsec_nanos() }
}

fn beijing(text: &str) -> Timestamp {
    at(&format!("{}+08:00", text))
}

fn rule(condition_type: &str) -> AlertRule {
    AlertRule {
        id: "a1".into(),
        task_id: None,
        stock_symbol: "600519".into(),
        condition_type: condition_type.into(),
        message: None,
        is_active: true,
        last_triggered: None,
    }
}

#[test]
fn alert_one_shot() {
    // threshold 100, live price 101: the price stands above the threshold.
    let mut r = rule("price_above");
    let first = r.observe("贵州茅台", Relation::Above, "2025-01-02T02:00:00+00:00".into());
    let event = first.expect("the first tick fires");
    assert_eq!(event.alert_id, "a1");
    assert_eq!(event.symbol, "600519");
    assert_eq!(event.name, "贵州茅台");
    assert_eq!(event.title, "贵州茅台 600519");
    assert_eq!(event.message, "价格提醒触发");
    assert!(!r.is_active);
    assert_eq!(r.last_triggered.as_deref(), Some("2025-01-02T02:00:00+00:00"));
    let second = r.observe("贵州茅台", Relation::Above, "2025-01-02T02:00:10+00:00".into());
    assert!(second.is_none());
    assert!(!r.is_active);
    assert_eq!(r.last_triggered.as_deref(), Some("2025-01-02T02:00:00+00:00"));
}

#[test]
fn alert_not_triggered_leaves_rule_alone() {
    let mut r = rule("price_above");
    r.message = Some("到价了".into());
    assert!(r.observe("x", Relation::Below, "t".into()).is_none());
    assert!(r.observe("x", Relation::Unordered, "t".into()).is_none());
    assert!(r.is_active);
    assert_eq!(r.last_triggered, None);
    let e = r.observe("x", Relation::Equal, "t".into()).unwrap();
    assert_eq!(e.message, "到价了");
    let mut unknown = rule("price_near");
    assert!(unknown.observe("x", Relation::Equal, "t".into()).is_none());
    assert!(unknown.is_active);
}

#[test]
fn alert_kinds() {
    let table = [
        ("price_above", AlertKind::PriceAbove, QuoteField::Price, Reference::Threshold, [false, true, true]),
        ("price_below", AlertKind::PriceBelow, QuoteField::Price, Reference::Threshold, [true, true, false]),
        ("change_above", AlertKind::ChangeAbove, QuoteField::ChangePercent, Reference::Threshold, [false, true, true]),
        ("change_below", AlertKind::ChangeBelow, QuoteField::ChangePercent, Reference::NegatedMagnitude, [true, true, false]),
        ("volume_ratio", AlertKind::VolumeRatio, QuoteField::VolumeRatio, Reference::Threshold, [false, true, true]),
    ];
    for (name, kind, field, reference, expected) in table {
        assert_eq!(parse_alert_kind(name), Some(kind));
        assert_eq!(kind.field(), field);
        assert_eq!(kind.reference(), reference);
        assert_eq!([kind.triggered(Below), kind.triggered(Equal), kind.triggered(Above)], expected);
        assert!(!kind.triggered(Unordered));
    }
    assert_eq!(parse_alert_kind("PRICE_ABOVE"), None);
    assert_eq!(parse_alert_kind(""), None);
}

#[test]
fn alert_symbols_are_distinct() {
    let mut rules = Vec::new();
    for s in ["600519", "000001", "600519", "300750", "000001"] {
        let mut r = rule("price_above");
        r.stock_symbol = s.into();
        rules.push(r);
    }
    assert_eq!(alert_symbols(&rules), vec!["600519", "000001", "300750"]);
    assert!(alert_symbols(&Vec::new()).is_empty());
}

#[test]
fn find_quote_takes_the_last_match() {
    let symbols: Vec<String> = ["a", "b", "a", "c"].iter().map(|s| s.to_string()).collect();
    assert_eq!(find_quote(&symbols, "a"), Some(2));
    assert_eq!(find_quote(&symbols, "b"), Some(1));
    assert_eq!(find_quote(&symbols, "d"), None);
    assert_eq!(find_quote(&Vec::new(), "a"), None);
}

fn indicator() -> Indicator {
    Indicator {
        id: "i1".into(),
        name: "金叉".into(),
        formula_source: "DRAWTEXT(C > 1, L, '买')".into(),
        stock_symbols: vec!["600519".into()],
        task_id: Some("t1".into()),
        is_active: true,
        check_interval_secs: 60,
        market_hours_only: true,
        last_checked: None,
        last_signal: None,
    }
}

fn triggered(symbol: &str, text: &str) -> TriggeredSignal {
    TriggeredSignal { symbol: symbol.into(), text: text.into() }
}

#[test]
fn indicator_due_by_interval() {
    let now = at("2025-01-02T02:00:00+00:00");
    let mut i = indicator();
    assert!(i.is_due(&now));
    i.last_checked = Some("2025-01-02T01:59:30+00:00".into());
    assert!(!i.is_due(&now));
    i.last_checked = Some("2025-01-02T01:59:00+00:00".into());
    assert!(i.is_due(&now));
    i.last_checked = Some("not a time".into());
    assert!(i.is_due(&now));
    i.is_active = false;
    assert!(!i.is_due(&now));
}

#[test]
fn indicator_signal_key() {
    assert_eq!(make_signal_key("600519", "买入", "2025-01-02"), "600519:买入:2025-01-02");
}

#[test]
fn indicator_reports_a_signal_once_a_day() {
    let mut i = indicator();
    let events = i.record_check(&vec![triggered("600519", "买")], "2025-01-02", "s1".into());
    assert_eq!(events.len(), 1);
    assert_eq!(events[0].indicator_id, "i1");
    assert_eq!(events[0].indicator_name, "金叉");
    assert_eq!(events[0].symbol, "600519");
    assert_eq!(events[0].signal_text, "买");
    assert_eq!(events[0].task_id.as_deref(), Some("t1"));
    assert_eq!(events[0].date, "2025-01-02");
    assert_eq!(events[0].source, 0);
    assert_eq!(i.last_signal.as_deref(), Some("600519:买:2025-01-02"));
    assert_eq!(i.last_checked.as_deref(), Some("s1"));
    for n in 0..5 {
        let events = i.record_check(&vec![triggered("600519", "买")], "2025-01-02", format!("s{}", n + 2));
        assert!(events.is_empty());
    }
    assert_eq!(i.last_signal.as_deref(), Some("600519:买:2025-01-02"));
    assert_eq!(i.last_checked.as_deref(), Some("s6"));
    let events = i.record_check(&vec![triggered("600519", "买")], "2025-01-03", "s7".into());
    assert_eq!(events.len(), 1);
}

#[test]
fn indicator_check_without_signals_is_stamped() {
    let mut i = indicator();
    i.last_signal = Some("k".into());
    let events = i.record_check(&Vec::new(), "2025-01-02", "s".into());
    assert!(events.is_empty());
    assert_eq!(i.last_signal.as_deref(), Some("k"));
    assert_eq!(i.last_checked.as_deref(), Some("s"));
}

#[test]
fn indicator_reports_a_signal_once_within_a_check() {
    let mut i = indicator();
    let signals = vec![triggered("a", "x"), triggered("a", "x"), triggered("a", "x")];
    let events = i.record_check(&signals, "d", "s".into());
    let sources: Vec<usize> = events.iter().map(|e| e.source).collect();
    assert_eq!(sources, vec![0]);
    assert_eq!(i.last_signal.as_deref(), Some("a:x:d"));
    let events = i.record_check(&signals, "d", "s".into());
    assert!(events.is_empty());
}

#[test]
fn indicator_compares_with_the_signal_reported_last() {
    let mut i = indicator();
    i.last_signal = Some("b:y:d".into());
    let signals = vec![triggered("b", "y"), triggered("a", "x"), triggered("a", "x"), triggered("b", "y")];
    let events = i.record_check(&signals, "d", "s".into());
    let sources: Vec<usize> = events.iter().map(|e| e.source).collect();
    assert_eq!(sources, vec![1, 3]);
    assert_eq!(i.last_signal.as_deref(), Some("b:y:d"));
}

#[test]
fn indicator_remembers_one_signal_only() {
    // Two signals that take turns are each reported again after the other.
    let mut i = indicator();
    let signals = vec![triggered("a", "x"), triggered("b", "y")];
    assert_eq!(i.record_check(&signals, "d", "s".into()).len(), 2);
    assert_eq!(i.record_check(&signals, "d", "s".into()).len(), 2);
    assert_eq!(i.last_signal.as_deref(), Some("b:y:d"));
}

fn task(trigger: Option<&str>) -> ScheduledTask {
    ScheduledTask {
        id: "t1".into(),
        stock_symbols: vec!["600519".into(), "000001".into()],
        trigger_time: trigger.map(|s| s.to_string()),
        analysis_prompt: None,
    }
}

#[test]
fn scheduled_task_fires_in_its_minute_once() {
    let t = task(Some("15:05"));
    let now = beijing("2025-01-02T15:05:20");
    let payload = t.check(&now, false).expect("fires");
    assert_eq!(payload.task_id, "t1");
    assert_eq!(payload.prompt, "分析这些股票的当日表现");
    assert_eq!(payload.stock_symbols, vec!["600519", "000001"]);
    assert!(t.check(&now, true).is_none());
    assert!(t.check(&beijing("2025-01-02T15:06:00"), false).is_none());
    assert!(t.check(&beijing("2025-01-02T15:04:59"), false).is_none());
    assert!(t.check(&beijing("2025-01-04T15:05:00"), false).is_some());
}

#[test]
fn scheduled_task_without_time_never_fires() {
    let now = beijing("2025-01-02T00:00:00");
    assert!(task(None).check(&now, false).is_none());
    assert!(task(Some("")).check(&now, false).is_none());
    assert!(task(Some("0:00")).check(&now, false).is_none());
    let mut t = task(Some("00:00"));
    t.analysis_prompt = Some("看看".into());
    assert_eq!(t.check(&now, false).unwrap().prompt, "看看");
    assert_eq!(copy_strings(&t.stock_symbols), t.stock_symbols);
}

fn step(id: &str, step_type: &str) -> PlanStep {
    PlanStep { id: id.into(), step_type: step_type.into(), symbols: None, window_title: None }
}

fn plan(schedule_type: &str, steps: Vec<PlanStep>) -> AgentPlan {
    AgentPlan {
        version: 1,
        description: "盯盘".into(),
        stock_symbols: vec!["600519".into()],
        enabled: true,
        steps,
        schedule: PlanSchedule {
            schedule_type: schedule_type.into(),
            interval_secs: None,
            trigger_time: None,
            market_hours_only: None,
        },
        execution_state: ExecutionState {
            last_executed_at: None,
            total_executions: 0,
            total_triggers: 0,
            consecutive_failures: 0,
        },
    }
}

#[test]
fn plan_daily() {
    let mut p = plan("daily", Vec::new());
    p.schedule.trigger_time = Some("09:30".into());
    p.execution_state.last_executed_at = Some("2025-01-01T01:30:00+00:00".into());
    let today = beijing("2025-01-02T09:30:00");
    assert!(p.should_execute(&today));
    assert!(p.is_due(&today, true));
    p.record_run(false, "2025-01-02T01:30:00+00:00".into());
    assert_eq!(p.execution_state.total_executions, 1);
    assert!(!p.should_execute(&beijing("2025-01-02T09:31:00")));
    assert!(!p.should_execute(&beijing("2025-01-02T09:30:10")));
    assert!(p.should_execute(&beijing("2025-01-03T09:30:00")));
}

#[test]
fn plan_daily_defaults_and_unreadable_times() {
    let mut p = plan("daily", Vec::new());
    assert!(p.should_execute(&beijing("2025-01-02T09:30:59")));
    assert!(!p.should_execute(&beijing("2025-01-02T09:29:59")));
    p.execution_state.last_executed_at = Some("yesterday".into());
    assert!(p.should_execute(&beijing("2025-01-02T09:30:00")));
    // Late on the first in UTC is already the second in Beijing.
    p.execution_state.last_executed_at = Some("2025-01-01T16:00:00+00:00".into());
    assert!(!p.should_execute(&beijing("2025-01-02T09:30:00")));
    p.execution_state.last_executed_at = Some("2025-01-01T15:59:59+00:00".into());
    assert!(p.should_execute(&beijing("2025-01-02T09:30:00")));
}

#[test]
fn plan_interval() {
    let mut p = plan("interval", Vec::new());
    let now = at("2025-01-02T02:00:00+00:00");
    assert!(p.should_execute(&now));
    p.execution_state.last_executed_at = Some("2025-01-02T01:55:00+00:00".into());
    assert!(p.should_execute(&now));
    p.execution_state.last_executed_at = Some("2025-01-02T01:55:01+00:00".into());
    assert!(!p.should_execute(&now));
    p.schedule.interval_secs = Some(30);
    assert!(p.should_execute(&now));
    p.execution_state.last_executed_at = Some("2025-01-02T01:59:31+00:00".into());
    assert!(!p.should_execute(&now));
    p.execution_state.last_executed_at = Some("?".into());
    assert!(p.should_execute(&now));
}

#[test]
fn plan_once_and_other() {
    let now = at("2025-01-02T02:00:00+00:00");
    let mut p = plan("once", Vec::new());
    assert!(p.should_execute(&now));
    p.execution_state.total_triggers = 1;
    assert!(!p.should_execute(&now));
    assert!(!plan("weekly", Vec::new()).should_execute(&now));
    assert_eq!(parse_schedule_kind("interval"), ScheduleKind::Interval);
    assert_eq!(parse_schedule_kind("daily"), ScheduleKind::Daily);
    assert_eq!(parse_schedule_kind("once"), ScheduleKind::Once);
    assert_eq!(parse_schedule_kind("Once"), ScheduleKind::Other);
}

#[test]
fn plan_gates() {
    let now = at("2025-01-02T02:00:00+00:00");
    let mut p = plan("interval", Vec::new());
    assert!(p.is_due(&now, true));
    assert!(!p.is_due(&now, false));
    p.schedule.market_hours_only = Some(true);
    assert!(!p.is_due(&now, false));
    p.schedule.market_hours_only = Some(false);
    assert!(p.is_due(&now, false));
    p.enabled = false;
    assert!(!p.is_due(&now, false));
    assert!(!p.is_due(&now, true));
}

#[test]
fn record_run_counts() {
    let mut p = plan("interval", Vec::new());
    p.record_run(true, "a".into());
    p.record_run(true, "b".into());
    assert_eq!(p.execution_state.total_executions, 2);
    assert_eq!(p.execution_state.consecutive_failures, 2);
    assert_eq!(p.execution_state.last_executed_at.as_deref(), Some("b"));
    p.record_run(false, "c".into());
    assert_eq!(p.execution_state.total_executions, 3);
    assert_eq!(p.execution_state.consecutive_failures, 0);
    assert_eq!(p.execution_state.total_triggers, 0);
    p.execution_state.total_executions = u64::MAX;
    p.record_run(true, "d".into());
    assert_eq!(p.execution_state.total_executions, u64::MAX);
    assert_eq!(p.execution_state.consecutive_failures, 1);
}

#[test]
fn run_fetch_check_action() {
    let mut fetch = step("s1", "fetch_data");
    fetch.symbols = Some(vec!["000001".into()]);
    let mut p = plan("interval", vec![fetch, step("s2", "condition_check"), step("s3", "action")]);
    let mut run = PlanRun::start();
    match run.next_action(&mut p) {
        PlanAction::FetchQuotes { step, symbols } => {
            assert_eq!(step, 0);
            assert_eq!(symbols, vec!["000001"]);
        }
        other => panic!("{:?}", other),
    }
    assert_eq!(run.pending, Pending::Fetch);
    run.complete(StepOutcome::Fetched);
    assert!(matches!(run.next_action(&mut p), PlanAction::CheckConditions { step: 1 }));
    run.complete(StepOutcome::Checked { met: true });
    assert!(matches!(run.next_action(&mut p), PlanAction::EmitTrigger { step: 2 }));
    assert_eq!(p.execution_state.total_triggers, 1);
    assert!(p.enabled);
    run.complete(StepOutcome::Emitted);
    assert!(matches!(
        run.next_action(&mut p),
        PlanAction::Finish { error: None, condition_met: true }
    ));
    assert_eq!(run.status, RunStatus::Done);
    assert!(matches!(
        run.next_action(&mut p),
        PlanAction::Finish { error: None, condition_met: true }
    ));
    assert_eq!(p.execution_state.total_triggers, 1);
    assert_eq!(log_status(true), "executed");
}

#[test]
fn run_fetch_falls_back_to_plan_symbols() {
    let mut p = plan("interval", vec![step("s1", "fetch_data")]);
    let mut run = PlanRun::start();
    match run.next_action(&mut p) {
        PlanAction::FetchQuotes { symbols, .. } => assert_eq!(symbols, vec!["600519"]),
        other => panic!("{:?}", other),
    }
}

#[test]
fn run_failed_check_short_circuits() {
    let mut p = plan("once", vec![step("s1", "condition_check"), step("s2", "action")]);
    let mut run = PlanRun::start();
    assert!(matches!(run.next_action(&mut p), PlanAction::CheckConditions { step: 0 }));
    run.complete(StepOutcome::Checked { met: false });
    assert!(matches!(
        run.next_action(&mut p),
        PlanAction::Finish { error: None, condition_met: false }
    ));
    assert_eq!(p.execution_state.total_triggers, 0);
    assert!(p.enabled);
    assert_eq!(log_status(false), "checked");
}

#[test]
fn run_once_plan_is_disabled_by_its_trigger() {
    let mut p = plan("once", vec![step("s1", "action"), step("s2", "action")]);
    let mut run = PlanRun::start();
    assert!(matches!(run.next_action(&mut p), PlanAction::EmitTrigger { step: 0 }));
    assert!(!p.enabled);
    assert_eq!(p.execution_state.total_triggers, 1);
    run.complete(StepOutcome::Emitted);
    assert!(matches!(run.next_action(&mut p), PlanAction::EmitTrigger { step: 1 }));
    assert_eq!(p.execution_state.total_triggers, 2);
    p.execution_state.total_triggers = u64::MAX;
    let mut again = PlanRun::start();
    again.next_action(&mut p);
    assert_eq!(p.execution_state.total_triggers, u64::MAX);
}

#[test]
fn run_capture_and_vision() {
    let mut capture = step("s1", "capture_screen");
    capture.window_title = Some("同花顺".into());
    let steps = vec![capture, step("s2", "unknown"), step("s3", "vision_analyze"), step("s4", "fetch_data"), step("s5", "action")];
    let mut p = plan("once", steps);
    let mut run = PlanRun::start();
    match run.next_action(&mut p) {
        PlanAction::CaptureScreen { step, window_title } => {
            assert_eq!(step, 0);
            assert_eq!(window_title, "同花顺");
        }
        other => panic!("{:?}", other),
    }
    run.complete(StepOutcome::Captured { image_path: "/tmp/a.png".into() });
    match run.next_action(&mut p) {
        PlanAction::EmitVision { step, image_path, action_step } => {
            assert_eq!(step, 2);
            assert_eq!(image_path, "/tmp/a.png");
            assert_eq!(action_step, Some(4));
        }
        other => panic!("{:?}", other),
    }
    assert_eq!(p.execution_state.total_triggers, 1);
    assert!(!p.enabled);
    run.complete(StepOutcome::Emitted);
    assert!(matches!(
        run.next_action(&mut p),
        PlanAction::Finish { error: None, condition_met: true }
    ));
    assert_eq!(p.execution_state.total_triggers, 1);
    assert_eq!(p.find_action(0), Some(4));
    assert_eq!(p.find_action(5), None);
}

#[test]
fn run_errors() {
    let mut p = plan("interval", vec![step("s1", "capture_screen")]);
    let mut run = PlanRun::start();
    assert!(matches!(
        run.next_action(&mut p),
        PlanAction::Finish { error: Some(PlanError::MissingWindowTitle), condition_met: true }
    ));
    assert_eq!(run.status, RunStatus::Failed(PlanError::MissingWindowTitle));

    let mut capture = step("s1", "capture_screen");
    capture.window_title = Some("w".into());
    let mut p = plan("interval", vec![capture, step("s2", "action")]);
    let mut run = PlanRun::start();
    run.next_action(&mut p);
    run.complete(StepOutcome::CaptureFailed);
    assert!(matches!(
        run.next_action(&mut p),
        PlanAction::Finish { error: Some(PlanError::CaptureFailed), condition_met: true }
    ));
    assert_eq!(p.execution_state.total_triggers, 0);

    let mut p = plan("interval", vec![step("s1", "vision_analyze")]);
    let mut run = PlanRun::start();
    assert!(matches!(
        run.next_action(&mut p),
        PlanAction::Finish { error: Some(PlanError::MissingImagePath), condition_met: true }
    ));
    assert_eq!(p.execution_state.total_triggers, 0);
}

#[test]
fn run_ignores_outcomes_that_answer_nothing() {
    let mut p = plan("interval", vec![step("s1", "fetch_data")]);
    let mut run = PlanRun::start();
    run.complete(StepOutcome::Checked { met: false });
    assert_eq!(run.status, RunStatus::Running);
    assert!(run.condition_met);
    run.next_action(&mut p);
    run.complete(StepOutcome::Emitted);
    assert_eq!(run.pending, Pending::Fetch);
}

#[test]
fn step_kinds() {
    assert_eq!(parse_step_kind("fetch_data"), StepKind::FetchData);
    assert_eq!(parse_step_kind("condition_check"), StepKind::ConditionCheck);
    assert_eq!(parse_step_kind("capture_screen"), StepKind::CaptureScreen);
    assert_eq!(parse_step_kind("vision_analyze"), StepKind::VisionAnalyze);
    assert_eq!(parse_step_kind("action"), StepKind::Action);
    assert_eq!(parse_step_kind("notify"), StepKind::Other);
}

#[test]
fn condition_operators() {
    let c = |relation, nearly_equal| Some(Comparison { relation, nearly_equal });
    assert_eq!(parse_compare_op(None), Some(CompareOp::Gt));
    assert_eq!(parse_compare_op(Some("lte")), Some(CompareOp::Lte));
    assert_eq!(parse_compare_op(Some("ne")), None);
    assert!(check_condition(Some("gt"), c(Above, false)));
    assert!(!check_condition(Some("gt"), c(Equal, true)));
    assert!(check_condition(None, c(Above, false)));
    assert!(check_condition(Some("lt"), c(Below, false)));
    assert!(!check_condition(Some("lt"), c(Above, false)));
    assert!(check_condition(Some("gte"), c(Equal, true)));
    assert!(check_condition(Some("gte"), c(Above, false)));
    assert!(!check_condition(Some("gte"), c(Below, false)));
    assert!(check_condition(Some("lte"), c(Equal, true)));
    assert!(!check_condition(Some("lte"), c(Above, false)));
    assert!(check_condition(Some("eq"), c(Above, true)));
    assert!(!check_condition(Some("eq"), c(Above, false)));
    assert!(!check_condition(Some("ne"), c(Above, true)));
    assert!(!check_condition(Some("gt"), None));
    assert!(!check_condition(Some("gte"), c(Unordered, false)));
    assert_eq!(field_of(None), "price");
    assert_eq!(field_of(Some("volume")), "volume");
}

#[test]
fn condition_logic() {
    let t = true;
    let f = false;
    assert!(conditions_met(false, Some("all"), &vec![f]));
    assert!(conditions_met(true, Some("all"), &vec![t, t]));
    assert!(!conditions_met(true, Some("all"), &vec![t, f]));
    assert!(conditions_met(true, Some("all"), &vec![]));
    assert!(conditions_met(true, Some("any"), &vec![f, t]));
    assert!(!conditions_met(true, Some("any"), &vec![f, f]));
    assert!(!conditions_met(true, Some("any"), &vec![]));
    assert!(conditions_met(true, None, &vec![f, t]));
    assert!(conditions_met(true, Some("ALL"), &vec![f, t]));
}

#[test]
fn indicator_create_checks_formula_then_symbols() {
    assert_eq!(INDICATOR_WINDOW, 300);
    let make = |formula: &str, symbols: Vec<String>| {
        Indicator::create(
            "i9".to_string(),
            "n".to_string(),
            formula.to_string(),
            symbols,
            None,
            None,
            None,
        )
    };
    let ok = make("DRAWTEXT(C > 1, L, 'x');", vec!["600519".to_string()]).unwrap();
    assert_eq!(ok.id, "i9");
    assert!(ok.is_active);
    assert_eq!(ok.check_interval_secs, 60);
    assert!(ok.market_hours_only);
    assert_eq!(ok.last_checked, None);
    assert_eq!(ok.last_signal, None);
    assert_eq!(make("A : C;", Vec::new()).unwrap_err(), IndicatorError::NoSymbols);
    assert_eq!(IndicatorError::NoSymbols.message(), "至少需要一个股票代码");
    let e = make("A := ;", Vec::new()).unwrap_err();
    assert_eq!(
        e,
        IndicatorError::InvalidFormula("公式验证失败: 第 1 行第 6 列: 期望表达式, 发现 Semicolon".to_string())
    );
    assert_eq!(e.message(), "公式验证失败: 第 1 行第 6 列: 期望表达式, 发现 Semicolon");
    let custom = Indicator::create(
        "i".to_string(),
        "n".to_string(),
        "A : C;".to_string(),
        vec!["a".to_string()],
        Some("t".to_string()),
        Some(5),
        Some(false),
    )
    .unwrap();
    assert_eq!(custom.check_interval_secs, 5);
    assert!(!custom.market_hours_only);
    assert_eq!(custom.task_id.as_deref(), Some("t"));
    assert!(check_formula("A : C;").is_ok());
    assert!(check_formula("A : 'open").is_err());
}

#[test]
fn capture_window_by_title() {
    assert!(window_matches("同花顺 - 贵州茅台", "同花顺"));
    assert!(window_matches("同花顺", "同花顺 - 贵州茅台"));
    assert!(window_matches("abc", "abc"));
    assert!(window_matches("", "abc"));
    assert!(window_matches("abc", ""));
    assert!(!window_matches("abc", "abd"));
    assert!(!window_matches("ab", "ba"));
    assert!(window_matches("xxabxx", "ab"));
    assert!(window_matches("xxab", "ab"));
    assert!(!window_matches("xxa", "ab"));
    for (s, part) in [("aaab", "aab"), ("abcabd", "abd"), ("abc", "abcd"), ("", ""), ("股票软件", "软件")] {
        assert_eq!(jinchan_core::text::contains(s, part), s.contains(part), "{:?} {:?}", s, part);
    }
}
