//! Threshold alerts on live quotes.
//!
//! A rule watches one figure of one symbol's quote. When the figure reaches
//! the threshold the rule fires once and is deactivated. How the figure
//! compares with the threshold is measured by the caller on the quote; the
//! rules here say which figure, against what, and whether the outcome
//! triggers.

use crate::market::Relation;
use crate::text::{chars_of, push_text, same_chars, same_text, strings_seq};
use vstd::prelude::*;

verus! {

/// The kinds of alert condition.
#[derive(Debug, Clone, Copy, PartialEq, Eq, Structural)]
pub enum AlertKind {
    PriceAbove,
    PriceBelow,
    ChangeAbove,
    ChangeBelow,
    VolumeRatio,
}

/// The kind that a condition's `type` names.
pub open spec fn alert_kind_named(name: Seq<char>) -> Option<AlertKind> {
    if name == "price_above"@ {
        Some(AlertKind::PriceAbove)
    } else if name == "price_below"@ {
        Some(AlertKind::PriceBelow)
    } else if name == "change_above"@ {
        Some(AlertKind::ChangeAbove)
    } else if name == "change_below"@ {
        Some(AlertKind::ChangeBelow)
    } else if name == "volume_ratio"@ {
        Some(AlertKind::VolumeRatio)
    } else {
        None
    }
}

/// The kind that a condition's `type` names; `None` for a type that never
/// triggers.
pub fn parse_alert_kind(name: &str) -> (kind: Option<AlertKind>)
    ensures
        kind == alert_kind_named(name@),
{
    let n = chars_of(name);
    if same_chars(&n, &chars_of("price_above")) {
        Some(AlertKind::PriceAbove)
    } else if same_chars(&n, &chars_of("price_below")) {
        Some(AlertKind::PriceBelow)
    } else if same_chars(&n, &chars_of("change_above")) {
        Some(AlertKind::ChangeAbove)
    } else if same_chars(&n, &chars_of("change_below")) {
        Some(AlertKind::ChangeBelow)
    } else if same_chars(&n, &chars_of("volume_ratio")) {
        Some(AlertKind::VolumeRatio)
    } else {
        None
    }
}

/// The figures of a quote that a rule can watch.
#[derive(Debug, Clone, Copy, PartialEq, Eq, Structural)]
pub enum QuoteField {
    Price,
    ChangePercent,
    VolumeRatio,
}

/// What a watched figure is compared with.
#[derive(Debug, Clone, Copy, PartialEq, Eq, Structural)]
pub enum Reference {
    /// The threshold as given.
    Threshold,
    /// The negated magnitude of the threshold: a fall is given as a
    /// positive or a negative number alike.
    NegatedMagnitude,
}

impl AlertKind {
    /// The figure that the kind watches.
    pub open spec fn spec_field(self) -> QuoteField {
        match self {
            AlertKind::PriceAbove | AlertKind::PriceBelow => QuoteField::Price,
            AlertKind::ChangeAbove | AlertKind::ChangeBelow => QuoteField::ChangePercent,
            AlertKind::VolumeRatio => QuoteField::VolumeRatio,
        }
    }

    /// The figure that the kind watches.
    #[verifier::when_used_as_spec(spec_field)]
    pub fn field(self) -> (f: QuoteField)
        ensures
            f == self.spec_field(),
    {
        match self {
            AlertKind::PriceAbove | AlertKind::PriceBelow => QuoteField::Price,
            AlertKind::ChangeAbove | AlertKind::ChangeBelow => QuoteField::ChangePercent,
            AlertKind::VolumeRatio => QuoteField::VolumeRatio,
        }
    }

    /// What the figure is compared with.
    pub open spec fn spec_reference(self) -> Reference {
        match self {
            AlertKind::ChangeBelow => Reference::NegatedMagnitude,
            _ => Reference::Threshold,
        }
    }

    /// What the figure is compared with.
    #[verifier::when_used_as_spec(spec_reference)]
    pub fn reference(self) -> (r: Reference)
        ensures
            r == self.spec_reference(),
    {
        match self {
            AlertKind::ChangeBelow => Reference::NegatedMagnitude,
            _ => Reference::Threshold,
        }
    }

    /// Whether the condition holds when the figure stands in `relation` to
    /// its reference: the rising kinds hold at or above it, the falling
    /// kinds at or below it.
    pub open spec fn spec_triggered(self, relation: Relation) -> bool {
        match self {
            AlertKind::PriceAbove | AlertKind::ChangeAbove | AlertKind::VolumeRatio => relation
                == Relation::Above || relation == Relation::Equal,
            AlertKind::PriceBelow | AlertKind::ChangeBelow => relation == Relation::Below
                || relation == Relation::Equal,
        }
    }

    /// Whether the condition holds when the figure stands in `relation` to
    /// its reference.
    #[verifier::when_used_as_spec(spec_triggered)]
    pub fn triggered(self, relation: Relation) -> (t: bool)
        ensures
            t == self.spec_triggered(relation),
    {
        match self {
            AlertKind::PriceAbove | AlertKind::ChangeAbove | AlertKind::VolumeRatio => {
                match relation {
                    Relation::Above | Relation::Equal => true,
                    _ => false,
                }
            },
            AlertKind::PriceBelow | AlertKind::ChangeBelow => {
                match relation {
                    Relation::Below | Relation::Equal => true,
                    _ => false,
                }
            },
        }
    }
}

/// An alert rule as the dispatcher handles it.
#[derive(Debug)]
pub struct AlertRule {
    pub id: String,
    pub task_id: Option<String>,
    pub stock_symbol: String,
    /// The `type` of the rule's condition.
    pub condition_type: String,
    /// The `message` of the rule's condition, if it has one.
    pub message: Option<String>,
    pub is_active: bool,
    /// When the rule fired, as RFC 3339 text.
    pub last_triggered: Option<String>,
}

/// What is sent when a rule fires. The caller adds the figures of the
/// quote.
#[derive(Debug)]
pub struct AlertEvent {
    pub alert_id: String,
    pub symbol: String,
    pub name: String,
    /// The quote's name and the symbol, with a blank between.
    pub title: String,
    /// The rule's message, or the standard one.
    pub message: String,
}

/// The message of a rule that has none of its own.
pub open spec fn default_alert_message() -> Seq<char> {
    "价格提醒触发"@
}

/// The mathematical value of an [`AlertEvent`].
pub struct SpecAlertEvent {
    pub alert_id: Seq<char>,
    pub symbol: Seq<char>,
    pub name: Seq<char>,
    pub title: Seq<char>,
    pub message: Seq<char>,
}

impl View for AlertEvent {
    type V = SpecAlertEvent;

    open spec fn view(&self) -> SpecAlertEvent {
        SpecAlertEvent {
            alert_id: self.alert_id@,
            symbol: self.symbol@,
            name: self.name@,
            title: self.title@,
            message: self.message@,
        }
    }
}

impl AlertRule {
    /// Whether the rule fires when its figure stands in `relation` to its
    /// reference: it is active, its type is known, and the type's condition
    /// holds.
    pub open spec fn fires(&self, relation: Relation) -> bool {
        self.is_active && condition_holds(self.condition_type@, relation)
    }

    /// The event of the rule firing on a quote with the given name.
    pub open spec fn event(&self, quote_name: Seq<char>) -> SpecAlertEvent {
        SpecAlertEvent {
            alert_id: self.id@,
            symbol: self.stock_symbol@,
            name: quote_name,
            title: quote_name + " "@ + self.stock_symbol@,
            message: match self.message {
                Some(m) => m@,
                None => default_alert_message(),
            },
        }
    }

    /// The kind of the rule's condition.
    pub fn kind(&self) -> (kind: Option<AlertKind>)
        ensures
            kind == alert_kind_named(self.condition_type@),
    {
        parse_alert_kind(self.condition_type.as_str())
    }

    /// Takes one observation of the rule's figure. If the rule fires it is
    /// deactivated and stamped, and the event comes back; otherwise the
    /// rule is unchanged.
    pub fn observe(&mut self, quote_name: &str, relation: Relation, stamp: String) -> (r: Option<
        AlertEvent,
    >)
        ensures
            r is Some == old(self).fires(relation),
            r matches Some(e) ==> e@ == old(self).event(quote_name@),
            final(self).id == old(self).id,
            final(self).task_id == old(self).task_id,
            final(self).stock_symbol == old(self).stock_symbol,
            final(self).condition_type == old(self).condition_type,
            final(self).message == old(self).message,
            final(self).is_active == (old(self).is_active && !old(self).fires(relation)),
            final(self).last_triggered == if old(self).fires(relation) {
                Some(stamp)
            } else {
                old(self).last_triggered
            },
    {
        if !self.is_active {
            return None;
        }
        let holds = match self.kind() {
            Some(kind) => kind.triggered(relation),
            None => false,
        };
        if !holds {
            return None;
        }
        let mut title = String::new();
        push_text(&mut title, quote_name);
        push_text(&mut title, " ");
        push_text(&mut title, self.stock_symbol.as_str());
        let message = match &self.message {
            Some(m) => m.clone(),
            None => String::from_str("价格提醒触发"),
        };
        let event = AlertEvent {
            alert_id: self.id.clone(),
            symbol: self.stock_symbol.clone(),
            name: String::from_str(quote_name),
            title,
            message,
        };
        self.is_active = false;
        self.last_triggered = Some(stamp);
        Some(event)
    }
}

/// Whether `symbol` is among the first `n` of `symbols`.
pub open spec fn listed(symbols: Seq<Seq<char>>, symbol: Seq<char>) -> bool {
    exists|i: int| 0 <= i < symbols.len() && symbols[i] == symbol
}

/// The symbols of the rules.
pub open spec fn rule_symbols(rules: Seq<AlertRule>) -> Seq<Seq<char>> {
    rules.map_values(|r: AlertRule| r.stock_symbol@)
}

/// Whether a text is in a vector of strings.
fn contains_text(symbols: &Vec<String>, symbol: &str) -> (r: bool)
    ensures
        r == listed(strings_seq(symbols@), symbol@),
{
    let mut i: usize = 0;
    while i < symbols.len()
        invariant
            i <= symbols.len(),
            forall|k: int| 0 <= k < i ==> strings_seq(symbols@)[k] != symbol@,
        decreases symbols.len() - i,
    {
        if same_text(symbols[i].as_str(), symbol) {
            assert(strings_seq(symbols@)[i as int] == symbol@);
            return true;
        }
        i += 1;
    }
    false
}

/// The symbols to quote for a set of rules: each rule's symbol, once.
pub fn alert_symbols(rules: &Vec<AlertRule>) -> (symbols: Vec<String>)
    ensures
        strings_seq(symbols@).no_duplicates(),
        forall|s: Seq<char>|
            listed(strings_seq(symbols@), s) <==> listed(rule_symbols(rules@), s),
{
    let mut symbols: Vec<String> = Vec::new();
    let mut i: usize = 0;
    while i < rules.len()
        invariant
            i <= rules.len(),
            strings_seq(symbols@).no_duplicates(),
            forall|s: Seq<char>|
                listed(strings_seq(symbols@), s) <==> listed(
                    rule_symbols(rules@).take(i as int),
                    s,
                ),
        decreases rules.len() - i,
    {
        let ghost before = strings_seq(symbols@);
        let ghost seen = rule_symbols(rules@).take(i as int);
        let ghost symbol = rules@[i as int].stock_symbol@;
        let ghost next_seen = rule_symbols(rules@).take(i + 1);
        assert(next_seen =~= seen.push(symbol));
        if !contains_text(&symbols, rules[i].stock_symbol.as_str()) {
            symbols.push(rules[i].stock_symbol.clone());
            let ghost after = strings_seq(symbols@);
            assert(after =~= before.push(symbol));
            assert forall|s: Seq<char>| listed(after, s) <==> listed(next_seen, s) by {
                lemma_listed_push(before, symbol, s);
                lemma_listed_push(seen, symbol, s);
            }
        } else {
            assert forall|s: Seq<char>| listed(before, s) <==> listed(next_seen, s) by {
                lemma_listed_push(seen, symbol, s);
            }
        }
        i += 1;
    }
    assert(rule_symbols(rules@).take(rules.len() as int) =~= rule_symbols(rules@));
    symbols
}

/// A text is listed after a push if it was listed before or is the one
/// pushed.
pub proof fn lemma_listed_push(symbols: Seq<Seq<char>>, added: Seq<char>, s: Seq<char>)
    ensures
        listed(symbols.push(added), s) <==> (listed(symbols, s) || s == added),
{
    let pushed = symbols.push(added);
    if listed(symbols, s) {
        let i = choose|i: int| 0 <= i < symbols.len() && symbols[i] == s;
        assert(pushed[i] == s);
    }
    if s == added {
        assert(pushed[symbols.len() as int] == s);
    }
    if listed(pushed, s) {
        let i = choose|i: int| 0 <= i < pushed.len() && pushed[i] == s;
        if i < symbols.len() {
            assert(symbols[i] == s);
        }
    }
}

/// The index of the last of the first `n` symbols that equals `symbol`.
pub open spec fn last_index_of(symbols: Seq<Seq<char>>, n: int, symbol: Seq<char>) -> Option<int>
    decreases n,
{
    if n <= 0 || n > symbols.len() {
        None
    } else if symbols[n - 1] == symbol {
        Some(n - 1)
    } else {
        last_index_of(symbols, n - 1, symbol)
    }
}

/// The quote to use for `symbol` among the quotes with the given symbols:
/// the last one for that symbol.
pub fn find_quote(quote_symbols: &Vec<String>, symbol: &str) -> (r: Option<usize>)
    ensures
        match r {
            Some(i) => last_index_of(
                strings_seq(quote_symbols@),
                quote_symbols.len() as int,
                symbol@,
            ) == Some(i as int),
            None => last_index_of(
                strings_seq(quote_symbols@),
                quote_symbols.len() as int,
                symbol@,
            ) is None,
        },
{
    let mut n: usize = quote_symbols.len();
    while n > 0
        invariant
            n <= quote_symbols.len(),
            last_index_of(strings_seq(quote_symbols@), n as int, symbol@)
                == last_index_of(
                strings_seq(quote_symbols@),
                quote_symbols.len() as int,
                symbol@,
            ),
        decreases n,
    {
        if same_text(quote_symbols[n - 1].as_str(), symbol) {
            return Some(n - 1);
        }
        n -= 1;
    }
    None
}

/// Whether the condition of a rule of type `condition_type` holds for an
/// observation.
pub open spec fn condition_holds(condition_type: Seq<char>, relation: Relation) -> bool {
    match alert_kind_named(condition_type) {
        Some(kind) => kind.spec_triggered(relation),
        None => false,
    }
}

/// Whether a rule is active after the first `n` of a run of observations,
/// taken one per tick.
pub open spec fn active_after(rule: AlertRule, observations: Seq<Relation>, n: int) -> bool
    decreases n,
{
    if n <= 0 || n > observations.len() {
        rule.is_active
    } else {
        active_after(rule, observations, n - 1) && !condition_holds(
            rule.condition_type@,
            observations[n - 1],
        )
    }
}

/// How often a rule fires in the first `n` of a run of observations.
pub open spec fn fired_in(rule: AlertRule, observations: Seq<Relation>, n: int) -> nat
    decreases n,
{
    if n <= 0 || n > observations.len() {
        0
    } else {
        fired_in(rule, observations, n - 1) + if active_after(rule, observations, n - 1)
            && condition_holds(rule.condition_type@, observations[n - 1]) {
            1nat
        } else {
            0nat
        }
    }
}

/// A rule is one-shot: over any run of observations it fires at most once,
/// and once it has fired it is inactive. A second tick that sees the same
/// condition emits nothing.
pub proof fn lemma_alert_fires_at_most_once(rule: AlertRule, observations: Seq<Relation>, n: int)
    requires
        0 <= n <= observations.len(),
    ensures
        fired_in(rule, observations, n) <= 1,
        fired_in(rule, observations, n) == 1 ==> !active_after(rule, observations, n),
        !rule.is_active ==> fired_in(rule, observations, n) == 0,
    decreases n,
{
    if n > 0 {
        lemma_alert_fires_at_most_once(rule, observations, n - 1);
        lemma_active_only_if_started_active(rule, observations, n - 1);
    }
}

/// A rule that is active after some observations was active before them.
pub proof fn lemma_active_only_if_started_active(
    rule: AlertRule,
    observations: Seq<Relation>,
    n: int,
)
    requires
        0 <= n <= observations.len(),
    ensures
        active_after(rule, observations, n) ==> rule.is_active,
    decreases n,
{
    if n > 0 {
        lemma_active_only_if_started_active(rule, observations, n - 1);
    }
}

} // verus!
