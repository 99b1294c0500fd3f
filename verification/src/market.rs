//! The fixed rules of the market-data client: which market a symbol trades
//! on, which stocks count as being at their daily limit, and which search
//! hits are kept.

use crate::text::{chars_of, has_prefix, same_chars, starts_with};
use vstd::prelude::*;

verus! {

/// How one figure stands to another. Two numbers of which one is not a
/// number are unordered.
#[derive(Debug, Clone, Copy, PartialEq, Eq, Structural)]
pub enum Relation {
    Below,
    Equal,
    Above,
    Unordered,
}

/// A failure of the market-data client, in words.
#[derive(Debug, Clone, PartialEq)]
pub struct MarketError(pub String);

/// A hit of the stock search.
#[derive(Debug, Clone)]
pub struct StockSearchResult {
    pub symbol: String,
    pub name: String,
    pub market: String,
}

/// The market code of a symbol: `0` (Shenzhen) for a symbol that begins
/// with `0` or `3`, `1` (Shanghai) for every other.
pub open spec fn market_code_of(symbol: Seq<char>) -> Seq<char> {
    if symbol.len() > 0 && (symbol[0] == '0' || symbol[0] == '3') {
        "0"@
    } else {
        "1"@
    }
}

/// The market code of a symbol.
pub fn get_market_code(symbol: &str) -> (code: &'static str)
    ensures
        code@ == market_code_of(symbol@),
{
    if symbol.unicode_len() == 0 {
        return "1";
    }
    let first = symbol.get_char(0);
    if first == '0' || first == '3' {
        "0"
    } else {
        "1"
    }
}

/// The two lists of stocks at their daily limit.
#[derive(Debug, Clone, Copy, PartialEq, Eq, Structural)]
pub enum LimitType {
    Up,
    Down,
}

/// The list that a name asks for.
pub open spec fn limit_type_named(name: Seq<char>) -> Option<LimitType> {
    if name == "up"@ {
        Some(LimitType::Up)
    } else if name == "down"@ {
        Some(LimitType::Down)
    } else {
        None
    }
}

/// The message for a list name that is neither `up` nor `down`.
pub open spec fn invalid_limit_type() -> Seq<char> {
    "无效的类型，请使用 up 或 down"@
}

/// The list that a name asks for, or the error for another name.
pub fn parse_limit_type(name: &str) -> (r: Result<LimitType, MarketError>)
    ensures
        match r {
            Ok(t) => limit_type_named(name@) == Some(t),
            Err(e) => limit_type_named(name@) is None && e.0@ == invalid_limit_type(),
        },
{
    let n = chars_of(name);
    if same_chars(&n, &chars_of("up")) {
        Ok(LimitType::Up)
    } else if same_chars(&n, &chars_of("down")) {
        Ok(LimitType::Down)
    } else {
        Err(MarketError(String::from_str("无效的类型，请使用 up 或 down")))
    }
}

impl LimitType {
    /// The sort order to ask the quote service for: `1`, falling change,
    /// for the stocks at the upper limit; `0`, rising change, for those at
    /// the lower.
    pub fn sort_order(self) -> (order: &'static str)
        ensures
            order@ == match self {
                LimitType::Up => "1"@,
                LimitType::Down => "0"@,
            },
    {
        match self {
            LimitType::Up => "1",
            LimitType::Down => "0",
        }
    }

    /// Whether a stock belongs on the list, given how its change stands to
    /// the limit of its board (to the negated limit, for the lower list).
    pub open spec fn spec_includes(self, relation: Relation) -> bool {
        match self {
            LimitType::Up => relation == Relation::Above || relation == Relation::Equal,
            LimitType::Down => relation == Relation::Below || relation == Relation::Equal,
        }
    }

    /// Whether a stock belongs on the list.
    #[verifier::when_used_as_spec(spec_includes)]
    pub fn includes(self, relation: Relation) -> (r: bool)
        ensures
            r == self.spec_includes(relation),
    {
        match self {
            LimitType::Up => match relation {
                Relation::Above | Relation::Equal => true,
                _ => false,
            },
            LimitType::Down => match relation {
                Relation::Below | Relation::Equal => true,
                _ => false,
            },
        }
    }
}

/// Whether a symbol trades on ChiNext or the STAR market: it begins with
/// `30` or `68`.
pub open spec fn wide_limit_board(symbol: Seq<char>) -> bool {
    starts_with(symbol, "30"@) || starts_with(symbol, "68"@)
}

/// The daily limit of a symbol's board in tenths of a percent: 19.9 % on
/// ChiNext and the STAR market, 9.9 % on the main board.
pub open spec fn limit_tenths_of(symbol: Seq<char>) -> u32 {
    if wide_limit_board(symbol) {
        199
    } else {
        99
    }
}

/// The daily limit of a symbol's board in tenths of a percent.
pub fn limit_tenths(symbol: &str) -> (tenths: u32)
    ensures
        tenths == limit_tenths_of(symbol@),
{
    let s = chars_of(symbol);
    if has_prefix(&s, &chars_of("30")) || has_prefix(&s, &chars_of("68")) {
        199
    } else {
        99
    }
}

/// The market of a search hit by its market number: `沪` for `01`, `深`
/// for `02`; hits of other markets are dropped.
pub open spec fn market_label_of(market_id: Seq<char>) -> Option<Seq<char>> {
    if market_id == "01"@ {
        Some("沪"@)
    } else if market_id == "02"@ {
        Some("深"@)
    } else {
        None
    }
}

/// The market of a search hit by its market number.
pub fn market_label(market_id: &str) -> (label: Option<&'static str>)
    ensures
        match label {
            Some(l) => market_label_of(market_id@) == Some(l@),
            None => market_label_of(market_id@) is None,
        },
{
    let m = chars_of(market_id);
    if same_chars(&m, &chars_of("01")) {
        Some("沪")
    } else if same_chars(&m, &chars_of("02")) {
        Some("深")
    } else {
        None
    }
}

/// The search hit for a code, a name and a market number, if it is kept.
pub fn search_hit(code: &str, name: &str, market_id: &str) -> (hit: Option<StockSearchResult>)
    ensures
        hit is Some == market_label_of(market_id@) is Some,
        hit matches Some(h) ==> h.symbol@ == code@ && h.name@ == name@ && Some(h.market@)
            == market_label_of(market_id@),
{
    match market_label(market_id) {
        None => None,
        Some(label) => Some(
            StockSearchResult {
                symbol: String::from_str(code),
                name: String::from_str(name),
                market: String::from_str(label),
            },
        ),
    }
}

} // verus!
