//! Indicator signals on formula outputs.
//!
//! An active indicator is checked when its interval has passed. The caller
//! evaluates the formula for each of its symbols and hands over the signals
//! that are triggered; a signal is reported unless it is the one the
//! indicator reported last, on the same Beijing day.
//!
//! An indicator remembers one key, that of the signal it reported last. So
//! a signal is kept from repeating for as long as no other signal of the
//! indicator comes between: an indicator whose signals differ in symbol or
//! text and take turns reports each of them again after the other.

use crate::clock::{Timestamp, interval_elapsed, is_interval_elapsed};
use crate::tdx::{validate_formula, validation_of};
use crate::text::{joined, opt_text, push_joined, push_text, same_text, strings_seq};
use vstd::prelude::*;

verus! {

/// The number of daily bars that an indicator's formula is evaluated on,
/// at most.
pub const INDICATOR_WINDOW: usize = 300;

/// An indicator as the dispatcher handles it.
#[derive(Debug)]
pub struct Indicator {
    pub id: String,
    pub name: String,
    pub formula_source: String,
    pub stock_symbols: Vec<String>,
    pub task_id: Option<String>,
    pub is_active: bool,
    pub check_interval_secs: i64,
    pub market_hours_only: bool,
    /// When the indicator was last checked, as RFC 3339 text.
    pub last_checked: Option<String>,
    /// The key of the signal reported last.
    pub last_signal: Option<String>,
}

/// A signal that evaluation found triggered, for one symbol.
#[derive(Debug)]
pub struct TriggeredSignal {
    pub symbol: String,
    pub text: String,
}

/// What is sent for a triggered signal. The caller adds the signal's value.
#[derive(Debug)]
pub struct SignalEvent {
    pub indicator_id: String,
    pub indicator_name: String,
    pub symbol: String,
    pub signal_text: String,
    pub task_id: Option<String>,
    /// The Beijing local date, `YYYY-MM-DD`.
    pub date: String,
    /// The index of the signal among those handed over.
    pub source: usize,
}

/// The mathematical value of a [`SignalEvent`].
pub struct SpecSignalEvent {
    pub indicator_id: Seq<char>,
    pub indicator_name: Seq<char>,
    pub symbol: Seq<char>,
    pub signal_text: Seq<char>,
    pub task_id: Option<Seq<char>>,
    pub date: Seq<char>,
    pub source: usize,
}

impl View for SignalEvent {
    type V = SpecSignalEvent;

    open spec fn view(&self) -> SpecSignalEvent {
        SpecSignalEvent {
            indicator_id: self.indicator_id@,
            indicator_name: self.indicator_name@,
            symbol: self.symbol@,
            signal_text: self.signal_text@,
            task_id: opt_text(self.task_id),
            date: self.date@,
            source: self.source,
        }
    }
}

/// The key under which a signal is remembered: symbol, text and date with
/// colons between.
pub open spec fn signal_key(symbol: Seq<char>, text: Seq<char>, date: Seq<char>) -> Seq<char> {
    symbol + ":"@ + text + ":"@ + date
}

/// The key under which a signal is remembered.
pub fn make_signal_key(symbol: &str, text: &str, date: &str) -> (key: String)
    ensures
        key@ == signal_key(symbol@, text@, date@),
{
    let mut key = String::new();
    push_text(&mut key, symbol);
    push_text(&mut key, ":");
    push_text(&mut key, text);
    push_text(&mut key, ":");
    push_text(&mut key, date);
    assert(key@ =~= signal_key(symbol@, text@, date@));
    key
}

/// The keys of the signals handed over in a tick.
pub open spec fn keys_of(triggered: Seq<TriggeredSignal>, date: Seq<char>) -> Seq<Seq<char>> {
    triggered.map_values(|t: TriggeredSignal| signal_key(t.symbol@, t.text@, date))
}

/// Whether a signal with key `key` is reported when `remembered` is the
/// key of the signal reported last: unless it is that one.
pub open spec fn reported(remembered: Option<Seq<char>>, key: Seq<char>) -> bool {
    remembered != Some(key)
}

/// The key remembered after the first `n` keys of a tick that started with
/// `remembered`. Each signal is compared with the key remembered when its
/// turn comes, and a reported signal's key is remembered at once.
pub open spec fn remembered_after(
    remembered: Option<Seq<char>>,
    keys: Seq<Seq<char>>,
    n: int,
) -> Option<Seq<char>>
    decreases n,
{
    if n <= 0 || n > keys.len() {
        remembered
    } else if reported(remembered_after(remembered, keys, n - 1), keys[n - 1]) {
        Some(keys[n - 1])
    } else {
        remembered_after(remembered, keys, n - 1)
    }
}

/// How many of the first `n` keys of a tick are reported.
pub open spec fn reported_count(remembered: Option<Seq<char>>, keys: Seq<Seq<char>>, n: int) -> nat
    decreases n,
{
    if n <= 0 || n > keys.len() {
        0
    } else {
        reported_count(remembered, keys, n - 1) + if reported(
            remembered_after(remembered, keys, n - 1),
            keys[n - 1],
        ) {
            1nat
        } else {
            0nat
        }
    }
}

impl Indicator {
    /// Whether the indicator is to be checked at `now`: it is active and its
    /// interval has passed.
    pub open spec fn due_at(&self, now: Timestamp) -> bool {
        self.is_active && interval_elapsed(
            opt_text(self.last_checked),
            self.check_interval_secs as int,
            now,
        )
    }

    /// Whether the indicator is to be checked at `now`.
    pub fn is_due(&self, now: &Timestamp) -> (due: bool)
        ensures
            due == self.due_at(*now),
    {
        self.is_active && is_interval_elapsed(&self.last_checked, self.check_interval_secs, now)
    }

    /// The event for the signal at index `source`.
    pub open spec fn event(
        &self,
        signal: TriggeredSignal,
        date: Seq<char>,
        source: usize,
    ) -> SpecSignalEvent {
        SpecSignalEvent {
            indicator_id: self.id@,
            indicator_name: self.name@,
            symbol: signal.symbol@,
            signal_text: signal.text@,
            task_id: opt_text(self.task_id),
            date,
            source,
        }
    }

    /// The events for the first `n` signals of a tick, in order.
    pub open spec fn events(
        &self,
        triggered: Seq<TriggeredSignal>,
        date: Seq<char>,
        n: int,
    ) -> Seq<SpecSignalEvent>
        decreases n,
    {
        if n <= 0 || n > triggered.len() {
            Seq::empty()
        } else if reported(
            remembered_after(opt_text(self.last_signal), keys_of(triggered, date), n - 1),
            keys_of(triggered, date)[n - 1],
        ) {
            self.events(triggered, date, n - 1).push(
                self.event(triggered[n - 1], date, (n - 1) as usize),
            )
        } else {
            self.events(triggered, date, n - 1)
        }
    }

    /// Closes a check. `triggered` holds the triggered signals of all
    /// symbols in the order found, `today` the Beijing date. Each signal is
    /// compared with the one reported last, be it in this check or before
    /// it; the events of those that differ come back in order, each is
    /// remembered as soon as it is reported, and the time is stamped whether
    /// anything was reported or not.
    pub fn record_check(
        &mut self,
        triggered: &Vec<TriggeredSignal>,
        today: &str,
        stamp: String,
    ) -> (events: Vec<SignalEvent>)
        ensures
            events@.map_values(|e: SignalEvent| e@) == old(self).events(
                triggered@,
                today@,
                triggered.len() as int,
            ),
            events.len() == reported_count(
                opt_text(old(self).last_signal),
                keys_of(triggered@, today@),
                triggered.len() as int,
            ),
            opt_text(final(self).last_signal) == remembered_after(
                opt_text(old(self).last_signal),
                keys_of(triggered@, today@),
                triggered.len() as int,
            ),
            final(self).last_checked == Some(stamp),
            final(self).id == old(self).id,
            final(self).name == old(self).name,
            final(self).formula_source == old(self).formula_source,
            final(self).stock_symbols == old(self).stock_symbols,
            final(self).task_id == old(self).task_id,
            final(self).is_active == old(self).is_active,
            final(self).check_interval_secs == old(self).check_interval_secs,
            final(self).market_hours_only == old(self).market_hours_only,
    {
        let ghost keys = keys_of(triggered@, today@);
        let ghost remembered = opt_text(self.last_signal);
        let mut events: Vec<SignalEvent> = Vec::new();
        let mut current: Option<String> = match &self.last_signal {
            Some(key) => Some(key.clone()),
            None => None,
        };
        let mut i: usize = 0;
        assert(events@.map_values(|e: SignalEvent| e@) =~= Seq::<SpecSignalEvent>::empty());
        while i < triggered.len()
            invariant
                i <= triggered.len(),
                *self == *old(self),
                keys == keys_of(triggered@, today@),
                remembered == opt_text(self.last_signal),
                events@.map_values(|e: SignalEvent| e@) == self.events(
                    triggered@,
                    today@,
                    i as int,
                ),
                events.len() == reported_count(remembered, keys, i as int),
                events.len() <= i,
                opt_text(current) == remembered_after(remembered, keys, i as int),
            decreases triggered.len() - i,
        {
            let signal = &triggered[i];
            let key = make_signal_key(signal.symbol.as_str(), signal.text.as_str(), today);
            assert(keys[i as int] == key@);
            let suppressed = match &current {
                Some(last) => same_text(last.as_str(), key.as_str()),
                None => false,
            };
            if !suppressed {
                let ghost before = events@.map_values(|e: SignalEvent| e@);
                let event = SignalEvent {
                    indicator_id: self.id.clone(),
                    indicator_name: self.name.clone(),
                    symbol: signal.symbol.clone(),
                    signal_text: signal.text.clone(),
                    task_id: match &self.task_id {
                        Some(t) => Some(t.clone()),
                        None => None,
                    },
                    date: String::from_str(today),
                    source: i,
                };
                let ghost value = event@;
                events.push(event);
                assert(events@.map_values(|e: SignalEvent| e@) =~= before.push(value));
                current = Some(key);
            }
            i += 1;
        }
        self.last_signal = current;
        self.last_checked = Some(stamp);
        events
    }
}

/// The key remembered after the first `m` of a run of ticks, each with the
/// keys of its triggered signals.
pub open spec fn remembered_after_ticks(
    remembered: Option<Seq<char>>,
    ticks: Seq<Seq<Seq<char>>>,
    m: int,
) -> Option<Seq<char>>
    decreases m,
{
    if m <= 0 || m > ticks.len() {
        remembered
    } else {
        remembered_after(
            remembered_after_ticks(remembered, ticks, m - 1),
            ticks[m - 1],
            ticks[m - 1].len() as int,
        )
    }
}

/// How many signals are reported in the first `m` of a run of ticks.
pub open spec fn reported_in_ticks(
    remembered: Option<Seq<char>>,
    ticks: Seq<Seq<Seq<char>>>,
    m: int,
) -> nat
    decreases m,
{
    if m <= 0 || m > ticks.len() {
        0
    } else {
        reported_in_ticks(remembered, ticks, m - 1) + reported_count(
            remembered_after_ticks(remembered, ticks, m - 1),
            ticks[m - 1],
            ticks[m - 1].len() as int,
        )
    }
}

/// Within one tick whose triggered signals all have the key `key`, the
/// signal is reported at most once, and not at all if it is the one
/// remembered; after a tick with any signal, `key` is remembered.
pub proof fn lemma_one_key_in_tick(remembered: Option<Seq<char>>, keys: Seq<Seq<char>>, key: Seq<char>, n: int)
    requires
        0 <= n <= keys.len(),
        forall|j: int| 0 <= j < keys.len() ==> #[trigger] keys[j] == key,
    ensures
        reported_count(remembered, keys, n) <= 1,
        remembered == Some(key) ==> reported_count(remembered, keys, n) == 0,
        n >= 1 || remembered == Some(key) ==> remembered_after(remembered, keys, n) == Some(key),
        n == 0 ==> remembered_after(remembered, keys, n) == remembered,
    decreases n,
{
    if n > 0 {
        lemma_one_key_in_tick(remembered, keys, key, n - 1);
        assert(keys[n - 1] == key);
    }
}

/// Same-day suppression: over a run of ticks in which every triggered
/// signal has the key `key` (one symbol, one text, one Beijing day),
/// however many there are in a tick, the signal is reported at most once,
/// and not at all if it was reported before the run.
pub proof fn lemma_signal_reported_once(
    remembered: Option<Seq<char>>,
    ticks: Seq<Seq<Seq<char>>>,
    key: Seq<char>,
    m: int,
)
    requires
        0 <= m <= ticks.len(),
        forall|t: int, j: int|
            0 <= t < ticks.len() && 0 <= j < ticks[t].len() ==> #[trigger] ticks[t][j] == key,
    ensures
        reported_in_ticks(remembered, ticks, m) <= 1,
        reported_in_ticks(remembered, ticks, m) == 1 ==> remembered_after_ticks(
            remembered,
            ticks,
            m,
        ) == Some(key),
        remembered == Some(key) ==> reported_in_ticks(remembered, ticks, m) == 0
            && remembered_after_ticks(remembered, ticks, m) == Some(key),
    decreases m,
{
    if m > 0 {
        lemma_signal_reported_once(remembered, ticks, key, m - 1);
        let tick = ticks[m - 1];
        let before = remembered_after_ticks(remembered, ticks, m - 1);
        assert forall|j: int| 0 <= j < tick.len() implies #[trigger] tick[j] == key by {
            assert(ticks[m - 1][j] == key);
        }
        lemma_one_key_in_tick(before, tick, key, tick.len() as int);
    }
}

/// Why an indicator cannot be stored.
#[derive(Debug, Clone, PartialEq)]
pub enum IndicatorError {
    /// The formula does not pass validation; the message names its errors.
    InvalidFormula(String),
    /// The indicator names no symbol.
    NoSymbols,
}

/// The message for a formula with the given errors.
pub open spec fn invalid_formula_message(errors: Seq<Seq<char>>) -> Seq<char> {
    "公式验证失败: "@ + joined(errors, "; "@, errors.len() as int)
}

/// The message for an indicator without symbols.
pub open spec fn no_symbols_message() -> Seq<char> {
    "至少需要一个股票代码"@
}

impl IndicatorError {
    /// The error in words.
    pub fn message(&self) -> (m: String)
        ensures
            m@ == match self {
                IndicatorError::InvalidFormula(text) => text@,
                IndicatorError::NoSymbols => no_symbols_message(),
            },
    {
        match self {
            IndicatorError::InvalidFormula(text) => text.clone(),
            IndicatorError::NoSymbols => String::from_str("至少需要一个股票代码"),
        }
    }
}

/// Checks the formula of an indicator that is to be stored or changed: it
/// must pass validation.
pub fn check_formula(source: &str) -> (r: Result<(), IndicatorError>)
    ensures
        r is Ok == validation_of(source@).valid,
        r matches Err(e) ==> e matches IndicatorError::InvalidFormula(text) && text@
            == invalid_formula_message(validation_of(source@).errors),
{
    let validation = validate_formula(source);
    if validation.valid {
        return Ok(());
    }
    let mut text = String::from_str("公式验证失败: ");
    push_joined(&mut text, &validation.errors, "; ");
    assert(strings_seq(validation.errors@).len() == validation.errors.len());
    Err(IndicatorError::InvalidFormula(text))
}

/// The interval between two checks of an indicator that names none, in
/// seconds.
pub const DEFAULT_CHECK_INTERVAL_SECS: i64 = 60;

impl Indicator {
    /// The indicator that a request creates: active, never checked, with
    /// an interval of a minute and market hours only unless the request
    /// says otherwise. The formula must pass validation, and there must be
    /// a symbol; the formula is looked at first.
    pub fn create(
        id: String,
        name: String,
        formula_source: String,
        stock_symbols: Vec<String>,
        task_id: Option<String>,
        check_interval_secs: Option<i64>,
        market_hours_only: Option<bool>,
    ) -> (r: Result<Indicator, IndicatorError>)
        ensures
            match r {
                Ok(indicator) => {
                    &&& validation_of(formula_source@).valid
                    &&& stock_symbols.len() > 0
                    &&& indicator.id == id
                    &&& indicator.name == name
                    &&& indicator.formula_source == formula_source
                    &&& indicator.stock_symbols == stock_symbols
                    &&& indicator.task_id == task_id
                    &&& indicator.is_active
                    &&& indicator.check_interval_secs == match check_interval_secs {
                        Some(secs) => secs,
                        None => 60,
                    }
                    &&& indicator.market_hours_only == match market_hours_only {
                        Some(flag) => flag,
                        None => true,
                    }
                    &&& indicator.last_checked is None
                    &&& indicator.last_signal is None
                },
                Err(IndicatorError::InvalidFormula(text)) => !validation_of(formula_source@).valid
                    && text@ == invalid_formula_message(validation_of(formula_source@).errors),
                Err(IndicatorError::NoSymbols) => validation_of(formula_source@).valid
                    && stock_symbols.len() == 0,
            },
    {
        match check_formula(formula_source.as_str()) {
            Err(e) => {
                return Err(e);
            },
            Ok(()) => {},
        }
        if stock_symbols.len() == 0 {
            return Err(IndicatorError::NoSymbols);
        }
        Ok(
            Indicator {
                id,
                name,
                formula_source,
                stock_symbols,
                task_id,
                is_active: true,
                check_interval_secs: match check_interval_secs {
                    Some(secs) => secs,
                    None => DEFAULT_CHECK_INTERVAL_SECS,
                },
                market_hours_only: match market_hours_only {
                    Some(flag) => flag,
                    None => true,
                },
                last_checked: None,
                last_signal: None,
            },
        )
    }
}

} // verus!
