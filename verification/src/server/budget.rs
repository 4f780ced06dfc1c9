//! The budget routes' own rules: reading the user id from the token and
//! describing a budget's period and state in its summary.
use vstd::prelude::*;
use crate::server::api::BudgetApiError;
use crate::server::models::utc_civil_date;
use crate::text::{
    chars_of, decimal, i64_to_decimal, parse_i64, parse_int_spec, signed_decimal, string_from_chars,
    u64_to_decimal, int_error_text,
};

verus! {

/// The numeric user id a token names, refused as an engine error that
/// quotes the parser's complaint where it is not an integer.
pub fn budget_user_id(user_id: &str) -> (r: Result<i64, BudgetApiError>)
    ensures
        match parse_int_spec(user_id@, true, i64::MIN as int, i64::MAX as int) {
            Ok(v) => r matches Ok(x) && x == v,
            Err(e) => r matches Err(BudgetApiError::EngineError(m)) && m@ == "Invalid User ID: "@
                + int_error_text(e),
        },
{
    match parse_i64(&chars_of(user_id)) {
        Ok(v) => Ok(v),
        Err(e) => {
            let mut m = String::new();
            m.append("Invalid User ID: ");
            let reason = e.message();
            m.append(reason.as_str());
            Err(BudgetApiError::EngineError(m))
        },
    }
}

/// The state a budget is reported in, by the warning flag the projection
/// engine gives: 0 healthy, 1 warning, 2 over budget; any other flag is
/// reported as healthy.
pub open spec fn status_label(flag: u64) -> Seq<char> {
    if flag == 1 {
        "warning"@
    } else if flag == 2 {
        "over_budget"@
    } else {
        "healthy"@
    }
}

/// The label of a budget's state.
pub fn budget_status_label(flag: u64) -> (s: &'static str)
    ensures
        s@ == status_label(flag),
{
    if flag == 1 {
        "warning"
    } else if flag == 2 {
        "over_budget"
    } else {
        "healthy"
    }
}

/// Whether `time::OffsetDateTime::from_unix_timestamp` represents the moment:
/// its dates run from -9999-01-01 to 9999-12-31, the range of years the
/// `time` crate has without its `large-dates` feature, which this crate's
/// dependencies leave off.
pub open spec fn time_timestamp_in_range(ts: i64) -> bool {
    -377705116800 <= ts <= 253402300799
}

/// The calendar date (year, month 1 to 12, day 1 to 31) in UTC of a moment
/// given in seconds since the Unix epoch, as the `time` crate computes it;
/// `None` outside the range of dates it represents.
pub open spec fn utc_calendar_date(ts: i64) -> Option<(i32, u8, u8)> {
    if time_timestamp_in_range(ts) {
        let (y, m, d) = utc_civil_date(ts as int);
        Some((y as i32, m as u8, d as u8))
    } else {
        None
    }
}

/// `time::OffsetDateTime::from_unix_timestamp`, then its year, month and
/// day: the proleptic Gregorian calendar in UTC. The crate's month runs from
/// 1 to 12 and its day from 1 to 31.
#[verifier::external_body]
fn calendar_date_of(ts: i64) -> (r: Option<(i32, u8, u8)>)
    ensures
        r is Some <==> time_timestamp_in_range(ts),
        r == utc_calendar_date(ts),
        r matches Some((y, m, d)) ==> 1 <= m <= 12 && 1 <= d <= 31,
{
    time::OffsetDateTime::from_unix_timestamp(ts).ok().map(|dt| (dt.year(), u8::from(dt.month()), dt.day()))
}

/// A number below 100 written with two digits (`{:02}`).
pub open spec fn two_digits(n: nat) -> Seq<char> {
    if n < 10 {
        seq!['0'] + decimal(n)
    } else {
        decimal(n)
    }
}

/// A date written `YYYY-MM-DD`, the year as a plain signed number.
pub open spec fn date_text(d: (i32, u8, u8)) -> Seq<char> {
    signed_decimal(d.0 as int) + seq!['-'] + two_digits(d.1 as nat) + seq!['-'] + two_digits(d.2 as nat)
}

/// How a budget's period is shown: its start date, or `N/A` where it has
/// none that can be shown, then ` - `, then its end date, or `Ongoing`.
pub open spec fn period_text(start: Option<i64>, end: Option<i64>) -> Seq<char> {
    let s = match start {
        Some(ts) => match utc_calendar_date(ts) {
            Some(d) => date_text(d),
            None => "N/A"@,
        },
        None => "N/A"@,
    };
    let e = match end {
        Some(ts) => match utc_calendar_date(ts) {
            Some(d) => date_text(d),
            None => "Ongoing"@,
        },
        None => "Ongoing"@,
    };
    s + seq![' ', '-', ' '] + e
}

fn push_two_digits(out: &mut Vec<char>, n: u8)
    requires
        n < 100,
    ensures
        final(out)@ == old(out)@ + two_digits(n as nat),
{
    let d = u64_to_decimal(n as u64);
    if n < 10 {
        out.push('0');
    }
    let mut i: usize = 0;
    let ghost start = out@;
    while i < d.len()
        invariant
            i <= d@.len(),
            out@ == start + d@.take(i as int),
        decreases d.len() - i,
    {
        out.push(d[i]);
        i = i + 1;
        assert(out@ =~= start + d@.take(i as int));
    }
    assert(d@.take(d@.len() as int) =~= d@);
}

/// Writes a date as `YYYY-MM-DD`.
fn write_date(d: (i32, u8, u8)) -> (r: Vec<char>)
    requires
        d.1 < 100,
        d.2 < 100,
    ensures
        r@ == date_text(d),
{
    let mut out = i64_to_decimal(d.0 as i64);
    out.push('-');
    push_two_digits(&mut out, d.1);
    out.push('-');
    push_two_digits(&mut out, d.2);
    out
}

fn date_or(ts: Option<i64>, fallback: &str) -> (r: Vec<char>)
    ensures
        r@ == match ts {
            Some(t) => match utc_calendar_date(t) {
                Some(d) => date_text(d),
                None => fallback@,
            },
            None => fallback@,
        },
{
    match ts {
        Some(t) => match calendar_date_of(t) {
            Some(d) => write_date(d),
            None => chars_of(fallback),
        },
        None => chars_of(fallback),
    }
}

/// The period of a budget with the given start and end (seconds since the
/// Unix epoch), as its summary shows it.
pub fn budget_period(start: Option<i64>, end: Option<i64>) -> (r: String)
    ensures
        r@ == period_text(start, end),
{
    let mut out = date_or(start, "N/A");
    out.push(' ');
    out.push('-');
    out.push(' ');
    let e = date_or(end, "Ongoing");
    let mut i: usize = 0;
    let ghost head = out@;
    while i < e.len()
        invariant
            i <= e@.len(),
            out@ == head + e@.take(i as int),
        decreases e.len() - i,
    {
        out.push(e[i]);
        i = i + 1;
        assert(out@ =~= head + e@.take(i as int));
    }
    assert(e@.take(e@.len() as int) =~= e@);
    assert(out@ =~= period_text(start, end));
    string_from_chars(out.as_slice())
}

} // verus!
