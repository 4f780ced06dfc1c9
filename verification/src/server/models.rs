//! Records of the database layer and the scheduling of recurring
//! transactions.
use vstd::prelude::*;
use chrono::Datelike;

verus! {

/// How often a recurring transaction repeats.
#[derive(Debug, Clone, Copy, PartialEq, Eq, Structural)]
pub enum RecurringFrequency {
    Daily,
    Weekly,
    Monthly,
}

/// Warning codes of analytics results.
#[derive(Debug, Clone, Copy, PartialEq, Eq, Structural)]
pub enum WarningCode {
    LimitExceeded,
}

impl WarningCode {
    /// The code's wire name.
    pub fn code(&self) -> (s: &'static str)
        ensures
            s@ == "LIMIT_EXCEEDED"@,
    {
        match self {
            WarningCode::LimitExceeded => "LIMIT_EXCEEDED",
        }
    }
}

/// A warning attached to an analytics result.
pub struct Warning {
    pub code: WarningCode,
    pub message: String,
}

/// How an analytics result was limited.
pub struct AnalyticsMeta {
    pub truncated: bool,
    pub limit_applied: bool,
    pub row_count: i32,
}

/// Feedback submitted by a visitor.
pub struct FeedbackCreate {
    pub name: String,
    pub email: String,
    pub message: String,
}

/// A chat message as the model's history needs it.
pub struct SlimMessage {
    pub role: String,
    pub content: String,
}

/// Category of a transaction that names none.
pub fn default_category() -> (s: String)
    ensures
        s@ == "General"@,
{
    "General".to_string()
}

/// Category of a budget that names none.
pub fn default_budget_category() -> (s: String)
    ensures
        s@ == "Overall"@,
{
    "Overall".to_string()
}

/// Category of an EMI that names none.
pub fn default_emi_category() -> (s: String)
    ensures
        s@ == "EMI"@,
{
    "EMI".to_string()
}

/// Name of an EMI that names none.
pub fn default_emi_name() -> (s: String)
    ensures
        s@ == "Loan EMI"@,
{
    "Loan EMI".to_string()
}

/// The session a message belongs to when the request names none.
pub fn session_key(session_id: Option<&str>) -> (s: &str)
    ensures
        s@ == match session_id {
            Some(id) => id@,
            None => "default"@,
        },
{
    match session_id {
        Some(id) => id,
        None => "default",
    }
}

/// A moment in UTC: seconds since the Unix epoch and nanoseconds.
#[derive(Clone, Copy)]
pub struct UtcTime {
    pub secs: i64,
    pub nanos: u32,
}

/// The proleptic Gregorian date (year, month 1 to 12, day 1 to 31) in UTC of
/// a moment given in seconds since the Unix epoch (days counted from
/// 1970-01-01, converted to a civil date by eras of 400 years).
pub open spec fn utc_civil_date(secs: int) -> (int, int, int) {
    let z = secs / 86400 + 719468;
    let era = z / 146097;
    let doe = z - era * 146097;
    let yoe = (doe - doe / 1460 + doe / 36524 - doe / 146096) / 365;
    let doy = doe - (365 * yoe + yoe / 4 - yoe / 100);
    let mp = (5 * doy + 2) / 153;
    let d = doy - (153 * mp + 2) / 5 + 1;
    let m = if mp < 10 { mp + 3 } else { mp - 9 };
    (if m <= 2 { yoe + era * 400 + 1 } else { yoe + era * 400 }, m, d)
}

/// Whether chrono's `DateTime::from_timestamp` represents the moment: its
/// dates run from -262143-01-01 to 262142-12-31 (`NaiveDate`'s year range).
pub open spec fn chrono_timestamp_in_range(secs: i64) -> bool {
    -8334601228800 <= secs <= 8210266876799
}

/// The calendar year and month of a moment given in seconds since the Unix
/// epoch, as chrono computes it; `None` outside chrono's range.
pub open spec fn utc_year_month(secs: i64) -> Option<(i32, u32)> {
    if chrono_timestamp_in_range(secs) {
        let (y, m, d) = utc_civil_date(secs as int);
        Some((y as i32, m as u32))
    } else {
        None
    }
}

/// chrono's `DateTime::from_timestamp` followed by `year` and `month`: the
/// proleptic Gregorian calendar in UTC.
#[verifier::external_body]
fn year_month_of(secs: i64) -> (r: Option<(i32, u32)>)
    ensures
        r is Some <==> chrono_timestamp_in_range(secs),
        r == utc_year_month(secs),
{
    chrono::DateTime::from_timestamp(secs, 0).map(|d| (d.year(), d.month()))
}

/// `now` is at least `period` seconds after `last`.
pub open spec fn at_least_after(last: UtcTime, now: UtcTime, period: int) -> bool {
    now.secs > last.secs + period || (now.secs == last.secs + period && now.nanos >= last.nanos)
}

/// Whether a recurring transaction last generated at `last` is due at
/// `now`: a day later for daily ones, a week later for weekly ones, and for
/// monthly ones 28 days later and in another calendar month.
pub open spec fn due(frequency: RecurringFrequency, last: UtcTime, now: UtcTime) -> bool {
    match frequency {
        RecurringFrequency::Daily => at_least_after(last, now, 86400),
        RecurringFrequency::Weekly => at_least_after(last, now, 604800),
        RecurringFrequency::Monthly => at_least_after(last, now, 2419200) && utc_year_month(last.secs)
            != utc_year_month(now.secs),
    }
}

fn after(last: UtcTime, now: UtcTime, period: i64) -> (b: bool)
    requires
        0 <= period <= 2419200,
    ensures
        b == at_least_after(last, now, period as int),
{
    let target: i128 = last.secs as i128 + period as i128;
    let n: i128 = now.secs as i128;
    n > target || (n == target && now.nanos >= last.nanos)
}

/// Decides whether a recurring transaction is due.
pub fn is_due(frequency: RecurringFrequency, last_generated: UtcTime, now: UtcTime) -> (b: bool)
    ensures
        b == due(frequency, last_generated, now),
{
    match frequency {
        RecurringFrequency::Daily => after(last_generated, now, 86400),
        RecurringFrequency::Weekly => after(last_generated, now, 604800),
        RecurringFrequency::Monthly => {
            if !after(last_generated, now, 2419200) {
                return false;
            }
            let a = year_month_of(last_generated.secs);
            let b = year_month_of(now.secs);
            match (a, b) {
                (Some(x), Some(y)) => x.0 != y.0 || x.1 != y.1,
                (None, None) => false,
                _ => true,
            }
        },
    }
}

/// A daily template falls due once `now` is at least 86400 seconds (one
/// day) after its last generation and a weekly one once it is at least
/// 604800 seconds (one week) after it, comparing seconds first and then
/// nanoseconds; a monthly one once it is at least 2419200 seconds (28
/// days) after it and in another calendar month, and never before. So a
/// weekly template is not due two days later, what is weekly due is daily
/// due, and a daily or weekly template that is due stays due at any later
/// moment.
pub proof fn law_recurrence_periods(last: UtcTime, now: UtcTime, later: UtcTime)
    ensures
        due(RecurringFrequency::Daily, last, now) <==> (now.secs > last.secs + 86400 || (now.secs == last.secs
            + 86400 && now.nanos >= last.nanos)),
        due(RecurringFrequency::Weekly, last, now) <==> (now.secs > last.secs + 604800 || (now.secs == last.secs
            + 604800 && now.nanos >= last.nanos)),
        due(RecurringFrequency::Monthly, last, now) <==> (now.secs > last.secs + 2419200 || (now.secs == last.secs
            + 2419200 && now.nanos >= last.nanos)) && utc_year_month(last.secs) != utc_year_month(now.secs),
        due(RecurringFrequency::Monthly, last, now) ==> now.secs >= last.secs + 2419200,
        now.secs < last.secs + 604800 ==> !due(RecurringFrequency::Weekly, last, now),
        due(RecurringFrequency::Weekly, last, now) ==> due(RecurringFrequency::Daily, last, now),
        (later.secs > now.secs || (later.secs == now.secs && later.nanos >= now.nanos)) ==> {
            &&& due(RecurringFrequency::Daily, last, now) ==> due(RecurringFrequency::Daily, last, later)
            &&& due(RecurringFrequency::Weekly, last, now) ==> due(RecurringFrequency::Weekly, last, later)
        },
{
}

/// For moments with fewer than a billion nanoseconds, a daily template is
/// due exactly when at least 86400 * 10^9 nanoseconds have elapsed since
/// its last generation, and a weekly one exactly when at least
/// 604800 * 10^9 have.
pub proof fn law_recurrence_elapsed_nanoseconds(last: UtcTime, now: UtcTime)
    requires
        last.nanos < 1_000_000_000,
        now.nanos < 1_000_000_000,
    ensures
        due(RecurringFrequency::Daily, last, now) <==> (now.secs * 1_000_000_000 + now.nanos) - (last.secs
            * 1_000_000_000 + last.nanos) >= 86400 * 1_000_000_000,
        due(RecurringFrequency::Weekly, last, now) <==> (now.secs * 1_000_000_000 + now.nanos) - (last.secs
            * 1_000_000_000 + last.nanos) >= 604800 * 1_000_000_000,
{
}

/// The state of a recurring transaction after one occurrence was
/// generated: its remaining tenure, and whether and how it still recurs.
pub struct RecurrenceUpdate {
    pub tenure_months: Option<i32>,
    pub is_recurring: bool,
    pub frequency: Option<RecurringFrequency>,
}

/// One month less of tenure (never below zero); a tenure that reaches zero
/// ends the recurrence.
pub fn next_recurrence(frequency: RecurringFrequency, tenure_months: Option<i32>) -> (u: RecurrenceUpdate)
    requires
        tenure_months matches Some(t) ==> t > i32::MIN,
    ensures
        u.tenure_months == match tenure_months {
            Some(t) => Some(if t - 1 < 0 {
                0i32
            } else {
                (t - 1) as i32
            }),
            None => None::<i32>,
        },
        u.is_recurring == !(u.tenure_months == Some(0i32)),
        u.frequency == if u.tenure_months == Some(0i32) {
            None
        } else {
            Some(frequency)
        },
{
    let next = match tenure_months {
        Some(t) => Some(if t - 1 < 0 {
            0
        } else {
            t - 1
        }),
        None => None,
    };
    match next {
        Some(0) => RecurrenceUpdate { tenure_months: next, is_recurring: false, frequency: None },
        _ => RecurrenceUpdate { tenure_months: next, is_recurring: true, frequency: Some(frequency) },
    }
}


/// What the recurring-transaction job does with one template: nothing when
/// it names no frequency or is not due (measured from its last generation,
/// or from its own date when it never generated one); otherwise it
/// generates an occurrence and the template is updated as
/// `next_recurrence` says.
pub fn plan_occurrence(
    frequency: Option<RecurringFrequency>,
    last_generated: Option<UtcTime>,
    created: UtcTime,
    now: UtcTime,
    tenure_months: Option<i32>,
) -> (r: Option<RecurrenceUpdate>)
    requires
        tenure_months matches Some(t) ==> t > i32::MIN,
    ensures
        match frequency {
            None => r is None,
            Some(f) => {
                let last = match last_generated {
                    Some(l) => l,
                    None => created,
                };
                if due(f, last, now) {
                    r matches Some(u) && u == next_recurrence_spec(f, tenure_months)
                } else {
                    r is None
                }
            },
        },
{
    let f = match frequency {
        Some(f) => f,
        None => return None,
    };
    let last = match last_generated {
        Some(l) => l,
        None => created,
    };
    if !is_due(f, last, now) {
        return None;
    }
    Some(next_recurrence(f, tenure_months))
}

/// The state after one occurrence, as `next_recurrence` gives it.
pub open spec fn next_recurrence_spec(frequency: RecurringFrequency, tenure_months: Option<i32>) -> RecurrenceUpdate {
    let t = match tenure_months {
        Some(t) => Some(if t - 1 < 0 {
            0i32
        } else {
            (t - 1) as i32
        }),
        None => None::<i32>,
    };
    RecurrenceUpdate {
        tenure_months: t,
        is_recurring: !(t == Some(0i32)),
        frequency: if t == Some(0i32) {
            None
        } else {
            Some(frequency)
        },
    }
}

/// Seconds in a day.
pub const DAY_SECS: i64 = 86400;

/// The daily knowledge sync runs at 02:30 UTC.
pub const DAILY_SYNC_OFFSET_SECS: i64 = 9000;

/// When the next daily sync runs (seconds since the Unix epoch): at 02:30
/// of `now`'s UTC day if `now` is before it, else at 02:30 the next day.
pub open spec fn next_sync_at(now: UtcTime) -> int {
    let today = (now.secs as int / DAY_SECS as int) * DAY_SECS as int + DAILY_SYNC_OFFSET_SECS as int;
    if now.secs >= today {
        today + DAY_SECS as int
    } else {
        today
    }
}

proof fn lemma_floor_day(s: int, day: int)
    requires
        s >= 0 ==> day == s / 86400,
        s < 0 ==> day == -((-s + 86399) / 86400),
    ensures
        day == s / 86400,
{
    if s < 0 {
        let q = (-s + 86399) / 86400;
        let r = (-s + 86399) % 86400;
        vstd::arithmetic::div_mod::lemma_fundamental_div_mod(-s + 86399, 86400);
        assert(-s + 86399 == 86400 * q + r);
        assert(0 <= r < 86400);
        assert(s == (-q) * 86400 + (86399 - r));
        vstd::arithmetic::div_mod::lemma_fundamental_div_mod_converse(s, 86400, -q, 86399 - r);
    }
}

/// How long the knowledge scheduler sleeps before the next sync: until the
/// next 02:30 UTC, as whole seconds and nanoseconds.
pub fn daily_sync_delay(now: UtcTime) -> (d: (u64, u32))
    requires
        now.nanos < 1_000_000_000,
        -0x1_0000_0000_0000 <= now.secs <= 0x1_0000_0000_0000,
    ensures
        d.0 as int * 1_000_000_000 + d.1 as int == (next_sync_at(now) - now.secs) * 1_000_000_000
            - now.nanos,
        d.1 < 1_000_000_000,
{
    let day: i64 = if now.secs >= 0 {
        now.secs / DAY_SECS
    } else {
        -((-now.secs + (DAY_SECS - 1)) / DAY_SECS)
    };
    proof {
        lemma_floor_day(now.secs as int, day as int);
    }
    let today = day * DAY_SECS + DAILY_SYNC_OFFSET_SECS;
    let target = if now.secs >= today {
        today + DAY_SECS
    } else {
        today
    };
    let whole = target - now.secs;
    if now.nanos == 0 {
        (whole as u64, 0)
    } else {
        ((whole - 1) as u64, 1_000_000_000 - now.nanos)
    }
}

/// The scheduler wakes after the present moment and at most a day later,
/// at 02:30 UTC.
pub proof fn law_daily_sync_lands_at_half_past_two(now: UtcTime)
    requires
        now.nanos < 1_000_000_000,
    ensures
        now.secs < next_sync_at(now) <= now.secs + DAY_SECS as int,
        next_sync_at(now) % DAY_SECS as int == DAILY_SYNC_OFFSET_SECS as int,
{
    let s = now.secs as int;
    let today = (s / 86400) * 86400 + 9000;
    assert(0 <= s - (s / 86400) * 86400 < 86400);
    assert((today + 86400) % 86400 == 9000) by {
        vstd::arithmetic::div_mod::lemma_fundamental_div_mod_converse(today + 86400, 86400, s / 86400 + 1, 9000);
    }
    assert(today % 86400 == 9000) by {
        vstd::arithmetic::div_mod::lemma_fundamental_div_mod_converse(today, 86400, s / 86400, 9000);
    }
}

} // verus!
