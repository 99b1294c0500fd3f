//! Condition checks of agent plans.
//!
//! A condition names a symbol, a figure of its quote, an operator and a
//! value. The caller looks the quote up and measures how the figure stands
//! to the value; the rules here say what each operator asks for, and how
//! the conditions of a step combine.

use crate::market::Relation;
use crate::text::{chars_of, same_chars};
use vstd::prelude::*;

verus! {

/// The operators of a condition.
#[derive(Debug, Clone, Copy, PartialEq, Eq, Structural)]
pub enum CompareOp {
    Gt,
    Lt,
    Gte,
    Lte,
    Eq,
}

/// The operator that a condition names; one that names none asks for
/// "greater than".
pub open spec fn compare_op_named(name: Option<Seq<char>>) -> Option<CompareOp> {
    match name {
        None => Some(CompareOp::Gt),
        Some(n) => if n == "gt"@ {
            Some(CompareOp::Gt)
        } else if n == "lt"@ {
            Some(CompareOp::Lt)
        } else if n == "gte"@ {
            Some(CompareOp::Gte)
        } else if n == "lte"@ {
            Some(CompareOp::Lte)
        } else if n == "eq"@ {
            Some(CompareOp::Eq)
        } else {
            None
        },
    }
}

/// The text of an optional string slice.
pub open spec fn opt_str(s: Option<&str>) -> Option<Seq<char>> {
    match s {
        Some(t) => Some(t@),
        None => None,
    }
}

/// The operator that a condition names; `None` for an operator that never
/// holds.
pub fn parse_compare_op(name: Option<&str>) -> (op: Option<CompareOp>)
    ensures
        op == compare_op_named(opt_str(name)),
{
    match name {
        None => Some(CompareOp::Gt),
        Some(name) => {
            let n = chars_of(name);
            if same_chars(&n, &chars_of("gt")) {
                Some(CompareOp::Gt)
            } else if same_chars(&n, &chars_of("lt")) {
                Some(CompareOp::Lt)
            } else if same_chars(&n, &chars_of("gte")) {
                Some(CompareOp::Gte)
            } else if same_chars(&n, &chars_of("lte")) {
                Some(CompareOp::Lte)
            } else if same_chars(&n, &chars_of("eq")) {
                Some(CompareOp::Eq)
            } else {
                None
            }
        },
    }
}

/// How a quote's figure stands to a condition's value.
#[derive(Debug, Clone, Copy, PartialEq, Eq, Structural)]
pub struct Comparison {
    pub relation: Relation,
    /// Whether the two differ by less than the machine epsilon.
    pub nearly_equal: bool,
}

/// Whether an operator holds for a comparison. Equality is asked for up to
/// the machine epsilon.
pub open spec fn op_holds(op: CompareOp, c: Comparison) -> bool {
    match op {
        CompareOp::Gt => c.relation == Relation::Above,
        CompareOp::Lt => c.relation == Relation::Below,
        CompareOp::Gte => c.relation == Relation::Above || c.relation == Relation::Equal,
        CompareOp::Lte => c.relation == Relation::Below || c.relation == Relation::Equal,
        CompareOp::Eq => c.nearly_equal,
    }
}

/// Whether a condition holds: there is a quote for its symbol, its operator
/// is known, and the operator holds for the comparison.
pub open spec fn condition_result(operator: Option<Seq<char>>, found: Option<Comparison>) -> bool {
    match found {
        None => false,
        Some(c) => match compare_op_named(operator) {
            Some(op) => op_holds(op, c),
            None => false,
        },
    }
}

/// Whether a condition holds. `found` is `None` if no quote was fetched
/// for the condition's symbol.
pub fn check_condition(operator: Option<&str>, found: Option<Comparison>) -> (r: bool)
    ensures
        r == condition_result(opt_str(operator), found),
{
    let c = match found {
        Some(c) => c,
        None => {
            return false;
        },
    };
    match parse_compare_op(operator) {
        None => false,
        Some(CompareOp::Gt) => match c.relation {
            Relation::Above => true,
            _ => false,
        },
        Some(CompareOp::Lt) => match c.relation {
            Relation::Below => true,
            _ => false,
        },
        Some(CompareOp::Gte) => match c.relation {
            Relation::Above | Relation::Equal => true,
            _ => false,
        },
        Some(CompareOp::Lte) => match c.relation {
            Relation::Below | Relation::Equal => true,
            _ => false,
        },
        Some(CompareOp::Eq) => c.nearly_equal,
    }
}

/// The figure that a condition reads; one that names none reads the price.
pub open spec fn condition_field(field: Option<Seq<char>>) -> Seq<char> {
    match field {
        Some(f) => f,
        None => "price"@,
    }
}

/// The figure that a condition reads.
pub fn field_of(field: Option<&str>) -> (name: String)
    ensures
        name@ == condition_field(opt_str(field)),
{
    match field {
        Some(f) => String::from_str(f),
        None => String::from_str("price"),
    }
}

/// Whether the conditions of a step are met, from the result of each. A
/// step without a list of conditions is met. Otherwise the `logic` of the
/// step decides: `all` asks for every condition, anything else for at
/// least one.
pub open spec fn step_met(has_conditions: bool, logic: Option<Seq<char>>, results: Seq<bool>) -> bool {
    if !has_conditions {
        true
    } else if logic == Some("all"@) {
        forall|i: int| 0 <= i < results.len() ==> results[i]
    } else {
        exists|i: int| 0 <= i < results.len() && results[i]
    }
}

/// Whether the conditions of a step are met, from the result of each.
pub fn conditions_met(has_conditions: bool, logic: Option<&str>, results: &Vec<bool>) -> (r: bool)
    ensures
        r == step_met(has_conditions, opt_str(logic), results@),
{
    if !has_conditions {
        return true;
    }
    let all = match logic {
        Some(l) => same_chars(&chars_of(l), &chars_of("all")),
        None => false,
    };
    let mut i: usize = 0;
    while i < results.len()
        invariant
            i <= results.len(),
            has_conditions,
            all == (opt_str(logic) == Some("all"@)),
            all ==> forall|k: int| 0 <= k < i ==> results[k],
            !all ==> forall|k: int| 0 <= k < i ==> !results[k],
        decreases results.len() - i,
    {
        if all && !results[i] {
            assert(!results@[i as int]);
            return false;
        }
        if !all && results[i] {
            assert(results@[i as int]);
            return true;
        }
        i += 1;
    }
    all
}

} // verus!
