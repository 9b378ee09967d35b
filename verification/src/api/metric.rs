use vstd::prelude::*;

use crate::config::opt_view;

verus! {

pub open spec fn is_digit(c: char) -> bool {
    '0' <= c && c <= '9'
}

pub open spec fn digit_value(c: char) -> int {
    (c as u32) - ('0' as u32)
}

/// The number written by the decimal digits `s`.
pub open spec fn decimal_value(s: Seq<char>) -> int
    decreases s.len(),
{
    if s.len() == 0 {
        0
    } else {
        decimal_value(s.drop_last()) * 10 + digit_value(s.last())
    }
}

/// What `u64::from_str` reads from `s`: an optional `+` followed by one or more
/// decimal digits whose value fits in a `u64`; anything else is an error.
pub open spec fn parsed_u64(s: Seq<char>) -> Option<u64> {
    let digits = if s.len() > 0 && s[0] == '+' {
        s.drop_first()
    } else {
        s
    };
    if digits.len() > 0 && (forall|i: int| 0 <= i < digits.len() ==> is_digit(#[trigger] digits[i]))
        && decimal_value(digits) <= u64::MAX {
        Some(decimal_value(digits) as u64)
    } else {
        None
    }
}

/// Calls `str::parse::<u64>`, which std documents as accepting an optional `+`
/// followed by decimal digits only, and failing on anything else or on overflow.
#[verifier::external_body]
fn parse_u64(s: &str) -> (r: Option<u64>)
    ensures
        r == parsed_u64(s@),
{
    s.parse::<u64>().ok()
}

/// A query parameter of `GET /metric`.
#[derive(Debug, Clone, Copy, PartialEq, Eq, Structural)]
pub enum QueryAttribute {
    From,
    To,
    Step,
}

/// Why a metric query was refused.
#[derive(Debug, Clone, Copy, PartialEq, Eq, Structural)]
pub enum QueryError {
    /// The parameter is missing.
    MissingAttribute(QueryAttribute),
    /// The parameter is not an unsigned integer.
    BadNumber(QueryAttribute),
}

/// The range `(from, to, step)` of a metric query with the given parameters:
/// all three are required (checked in that order), then each must parse.
pub open spec fn query_range(from: Option<Seq<char>>, to: Option<Seq<char>>, step: Option<Seq<char>>) -> Result<(u64, u64, u64), QueryError> {
    if from is None {
        Err(QueryError::MissingAttribute(QueryAttribute::From))
    } else if to is None {
        Err(QueryError::MissingAttribute(QueryAttribute::To))
    } else if step is None {
        Err(QueryError::MissingAttribute(QueryAttribute::Step))
    } else if parsed_u64(from.unwrap()) is None {
        Err(QueryError::BadNumber(QueryAttribute::From))
    } else if parsed_u64(to.unwrap()) is None {
        Err(QueryError::BadNumber(QueryAttribute::To))
    } else if parsed_u64(step.unwrap()) is None {
        Err(QueryError::BadNumber(QueryAttribute::Step))
    } else {
        Ok((parsed_u64(from.unwrap()).unwrap(), parsed_u64(to.unwrap()).unwrap(), parsed_u64(step.unwrap()).unwrap()))
    }
}

/// Reads the `from`, `to` and `step` parameters of a metric query.
pub fn get_query(from: &Option<String>, to: &Option<String>, step: &Option<String>) -> (r: Result<(u64, u64, u64), QueryError>)
    ensures
        r == query_range(opt_view(*from), opt_view(*to), opt_view(*step)),
{
    let f = match from {
        Some(s) => s,
        None => return Err(QueryError::MissingAttribute(QueryAttribute::From)),
    };
    let t = match to {
        Some(s) => s,
        None => return Err(QueryError::MissingAttribute(QueryAttribute::To)),
    };
    let st = match step {
        Some(s) => s,
        None => return Err(QueryError::MissingAttribute(QueryAttribute::Step)),
    };
    let from_v = match parse_u64(f.as_str()) {
        Some(v) => v,
        None => return Err(QueryError::BadNumber(QueryAttribute::From)),
    };
    let to_v = match parse_u64(t.as_str()) {
        Some(v) => v,
        None => return Err(QueryError::BadNumber(QueryAttribute::To)),
    };
    let step_v = match parse_u64(st.as_str()) {
        Some(v) => v,
        None => return Err(QueryError::BadNumber(QueryAttribute::Step)),
    };
    Ok((from_v, to_v, step_v))
}

} // verus!
