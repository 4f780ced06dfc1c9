//! Query parameters, paging and error responses of the HTTP API.
use vstd::prelude::*;
use chrono::Datelike;
use crate::server::auth::ErrorResponse;
use crate::server::models::UtcTime;
use crate::text::{chars_of, parse_i32, parse_int_spec, slice_chars, trim, trimmed};

verus! {

/// Daily summary query.
pub struct DailyQuery {
    pub interval: u32,
}

/// Period summary query.
pub struct PeriodQuery {
    pub range: String,
    pub bucket_days: Option<u32>,
}

/// Trend summary query.
pub struct TrendQuery {
    pub range: String,
}

/// Cash-flow forecast query: the horizons, in days.
pub struct CashflowQuery {
    pub horizons: Vec<i32>,
}

/// Body of an analytics error.
pub struct ApiErrorResponse {
    pub error: String,
}

/// Failures of the analytics routes.
pub enum ApiError {
    InvalidUserId,
    DatabaseError(String),
}

impl ApiError {
    /// The status code and error message sent for the error.
    pub fn response(&self) -> (r: (u16, ApiErrorResponse))
        ensures
            match self {
                ApiError::InvalidUserId => r.0 == 400 && r.1.error@
                    == "The User ID payload cannot be parsed into a valid UUID format."@,
                ApiError::DatabaseError(m) => r.0 == 500 && r.1.error@ == m@,
            },
    {
        match self {
            ApiError::InvalidUserId => (
                400,
                ApiErrorResponse {
                    error: "The User ID payload cannot be parsed into a valid UUID format.".to_string(),
                },
            ),
            ApiError::DatabaseError(m) => (500, ApiErrorResponse { error: m.clone() }),
        }
    }
}

/// Failures of the budget routes.
pub enum BudgetApiError {
    DatabaseError(String),
    EngineError(String),
    NotFound,
}

impl BudgetApiError {
    /// The status code and error message sent for the error.
    pub fn response(&self) -> (r: (u16, String))
        ensures
            match self {
                BudgetApiError::DatabaseError(m) => r.0 == 500 && r.1@ == m@,
                BudgetApiError::EngineError(m) => r.0 == 400 && r.1@ == m@,
                BudgetApiError::NotFound => r.0 == 404 && r.1@ == "Budget allocation target not found."@,
            },
    {
        match self {
            BudgetApiError::DatabaseError(m) => (500, m.clone()),
            BudgetApiError::EngineError(m) => (400, m.clone()),
            BudgetApiError::NotFound => (404, "Budget allocation target not found.".to_string()),
        }
    }
}

/// Answer of the feedback route.
pub struct FeedbackResponse {
    pub success: bool,
    pub message: String,
}

/// Failures of the feedback route.
pub enum FeedbackRouteError {
    DatabaseError(String),
}

impl FeedbackRouteError {
    /// The response sent for the error: 500 with the database's message.
    pub fn response(&self) -> (r: ErrorResponse)
        ensures
            r.status == 500,
            r.error@ == "FeedbackError"@,
            match self {
                FeedbackRouteError::DatabaseError(m) => r.detail@ == m@,
            },
    {
        match self {
            FeedbackRouteError::DatabaseError(m) => ErrorResponse {
                status: 500,
                error: "FeedbackError".to_string(),
                detail: m.clone(),
            },
        }
    }
}

/// Transaction list paging.
pub struct PaginationQuery {
    pub page: Option<i64>,
}

/// Transactions per page.
pub const PAGE_SIZE: i64 = 10;

/// The page actually served (at least the first) and the number of rows
/// skipped before it.
pub open spec fn page_window(page: Option<i64>) -> (int, int) {
    let p = match page {
        Some(p) => if p < 1 {
            1
        } else {
            p as int
        },
        None => 1,
    };
    (p, (p - 1) * PAGE_SIZE)
}

impl PaginationQuery {
    /// The limit and offset of the requested page.
    pub fn limit_offset(&self) -> (r: (i64, i64))
        requires
            self.page matches Some(p) ==> p <= i64::MAX / PAGE_SIZE,
        ensures
            r.0 == PAGE_SIZE,
            r.1 == page_window(self.page).1,
    {
        let page = match self.page {
            Some(p) => if p < 1 {
                1
            } else {
                p
            },
            None => 1,
        };
        (PAGE_SIZE, (page - 1) * PAGE_SIZE)
    }
}

/// The pieces of a text between occurrences of `sep` (`str::split` with a
/// character): there is always at least one piece.
pub open spec fn split_on(s: Seq<char>, sep: char) -> Seq<Seq<char>>
    decreases s.len(),
{
    if s.len() == 0 {
        seq![Seq::empty()]
    } else {
        let init = split_on(s.drop_last(), sep);
        if s.last() == sep {
            init.push(Seq::empty())
        } else {
            init.update(init.len() - 1, init.last().push(s.last()))
        }
    }
}

pub proof fn lemma_split_nonempty(s: Seq<char>, sep: char)
    ensures
        split_on(s, sep).len() >= 1,
    decreases s.len(),
{
    if s.len() > 0 {
        lemma_split_nonempty(s.drop_last(), sep);
    }
}

/// Splits a text on a separator character.
pub fn split_chars(s: &Vec<char>, sep: char) -> (r: Vec<Vec<char>>)
    ensures
        r@.map_values(|p: Vec<char>| p@) == split_on(s@, sep),
{
    let mut out: Vec<Vec<char>> = Vec::new();
    out.push(Vec::new());
    let mut i: usize = 0;
    assert(out@.map_values(|p: Vec<char>| p@) =~= split_on(s@.take(0), sep));
    while i < s.len()
        invariant
            i <= s.len(),
            out@.len() >= 1,
            out@.map_values(|p: Vec<char>| p@) == split_on(s@.take(i as int), sep),
        decreases s.len() - i,
    {
        let c = s[i];
        let ghost before = out@.map_values(|p: Vec<char>| p@);
        assert(s@.take(i + 1).drop_last() =~= s@.take(i as int));
        assert(s@.take(i + 1).last() == c);
        if c == sep {
            out.push(Vec::new());
            assert(out@.map_values(|p: Vec<char>| p@) =~= before.push(Seq::empty()));
        } else {
            let mut last = out.pop().unwrap();
            last.push(c);
            out.push(last);
            assert(out@.map_values(|p: Vec<char>| p@) =~= before.update(before.len() - 1, before.last().push(c)));
        }
        i = i + 1;
    }
    assert(s@.take(s.len() as int) =~= s@);
    out
}

/// A piece as `str::parse::<i32>` reads it.
pub open spec fn i32_of(s: Seq<char>) -> Option<int> {
    match parse_int_spec(s, true, i32::MIN as int, i32::MAX as int) {
        Ok(v) => Some(v),
        Err(_) => None,
    }
}

/// The horizons of one `key=value` pair of a query string: when the key is
/// `horizons`, its value (up to a further `=`) read as a comma-separated
/// list of `i32`s; nothing for another key, or for a value that is not
/// such a list.
pub open spec fn pair_horizons(pair: Seq<char>) -> Seq<int> {
    let parts = split_on(pair, '=');
    if parts[0] == "horizons"@ && parts.len() >= 2 {
        match horizon_list(parts[1]) {
            Some(h) => h,
            None => seq![],
        }
    } else {
        seq![]
    }
}

/// The horizons named in the pairs, in order.
pub open spec fn horizons_in(pairs: Seq<Seq<char>>) -> Seq<int>
    decreases pairs.len(),
{
    if pairs.len() == 0 {
        seq![]
    } else {
        horizons_in(pairs.drop_last()) + pair_horizons(pairs.last())
    }
}

/// The forecast horizons a raw query string asks for: the values of every
/// `horizons=` pair, each a single horizon or a comma-separated list, in
/// order; 30, 60 and 90 days when there is none.
pub open spec fn requested_horizons(raw_query: Option<Seq<char>>) -> Seq<int> {
    let q = match raw_query {
        Some(q) => q,
        None => Seq::empty(),
    };
    let h = horizons_in(split_on(q, '&'));
    if h.len() == 0 {
        seq![30, 60, 90]
    } else {
        h
    }
}

/// Reads the forecast horizons from the raw query string.
pub fn cashflow_horizons(raw_query: Option<&str>) -> (r: Vec<i32>)
    ensures
        r@.map_values(|x: i32| x as int) == requested_horizons(
            match raw_query {
                Some(q) => Some(q@),
                None => None,
            },
        ),
{
    proof {
        reveal_strlit("horizons");
    }
    let q = match raw_query {
        Some(q) => chars_of(q),
        None => Vec::new(),
    };
    let ghost qv = match raw_query {
        Some(q) => q@,
        None => Seq::<char>::empty(),
    };
    assert(q@ == qv);
    let pairs = split_chars(&q, '&');
    let ghost pv = pairs@.map_values(|p: Vec<char>| p@);
    let key = chars_of("horizons");
    let mut out: Vec<i32> = Vec::new();
    let mut i: usize = 0;
    while i < pairs.len()
        invariant
            i <= pairs@.len(),
            pv == pairs@.map_values(|p: Vec<char>| p@),
            key@ == "horizons"@,
            out@.map_values(|x: i32| x as int) == horizons_in(pv.take(i as int)),
        decreases pairs.len() - i,
    {
        assert(pv.take(i + 1).drop_last() =~= pv.take(i as int));
        assert(pv.take(i + 1).last() == pairs@[i as int]@);
        let parts = split_chars(&pairs[i], '=');
        proof {
            lemma_split_nonempty(pairs@[i as int]@, '=');
        }
        let ghost before = out@;
        if parts.len() >= 2 && crate::llm::tools::text_eq(&parts[0], &key) {
            match horizon_items(&parts[1]) {
                Some(mut v) => {
                    let ghost vv = v@;
                    out.append(&mut v);
                    assert(out@.map_values(|x: i32| x as int) =~= before.map_values(|x: i32| x as int) + vv.map_values(
                        |x: i32| x as int,
                    ));
                },
                None => {
                    assert(out@.map_values(|x: i32| x as int) =~= before.map_values(|x: i32| x as int) + Seq::<int>::empty());
                },
            }
        } else {
            assert(out@.map_values(|x: i32| x as int) =~= before.map_values(|x: i32| x as int) + Seq::<int>::empty());
        }
        i = i + 1;
    }
    assert(pv.take(pairs@.len() as int) =~= pv);
    if out.len() == 0 {
        let mut d: Vec<i32> = Vec::new();
        d.push(30);
        d.push(60);
        d.push(90);
        assert(d@.map_values(|x: i32| x as int) =~= seq![30int, 60, 90]);
        return d;
    }
    out
}

/// A comma-separated list of horizons: every item, trimmed, must read as
/// an `i32`.
pub open spec fn horizon_list(s: Seq<char>) -> Option<Seq<int>> {
    let items = split_on(s, ',');
    if forall|k: int| 0 <= k < items.len() ==> #[trigger] i32_of(trim(items[k])) is Some {
        Some(items.map_values(|it: Seq<char>| i32_of(trim(it))->0))
    } else {
        None
    }
}

/// Reads a comma-separated list of horizons, as the cash-flow query accepts
/// it in string form; `None` when an item is not an integer.
pub fn parse_horizon_list(s: &str) -> (r: Option<Vec<i32>>)
    ensures
        match horizon_list(s@) {
            Some(h) => r matches Some(v) && v@.map_values(|x: i32| x as int) == h,
            None => r is None,
        },
{
    horizon_items(&chars_of(s))
}

/// Reads a comma-separated list of horizons given as characters.
fn horizon_items(cs: &Vec<char>) -> (r: Option<Vec<i32>>)
    ensures
        match horizon_list(cs@) {
            Some(h) => r matches Some(v) && v@.map_values(|x: i32| x as int) == h,
            None => r is None,
        },
{
    let items = split_chars(cs, ',');
    let ghost iv = items@.map_values(|p: Vec<char>| p@);
    let mut out: Vec<i32> = Vec::new();
    let mut i: usize = 0;
    while i < items.len()
        invariant
            i <= items@.len(),
            iv == items@.map_values(|p: Vec<char>| p@),
            iv == split_on(cs@, ','),
            out@.len() == i,
            forall|k: int| 0 <= k < i ==> #[trigger] i32_of(trim(iv[k])) == Some(out@[k] as int),
        decreases items.len() - i,
    {
        let t = trimmed(&items[i]);
        match parse_i32(&t) {
            Ok(v) => {
                out.push(v);
            },
            Err(_) => {
                assert(i32_of(trim(iv[i as int])) is None);
                return None;
            },
        }
        i = i + 1;
    }
    assert(out@.map_values(|x: i32| x as int) =~= iv.map_values(|it: Seq<char>| i32_of(trim(it))->0));
    Some(out)
}


/// Budget breach prediction query: the last day of the period and how many
/// simulations to run.
pub struct BudgetBreachQuery {
    pub end_date: UtcTime,
    pub simulations: Option<usize>,
}

/// The instant (seconds since the Unix epoch, nanoseconds) of an RFC 3339
/// timestamp as chrono's `DateTime::parse_from_rfc3339` reads it; `None`
/// where chrono refuses the text.
pub uninterp spec fn rfc3339_instant(s: Seq<char>) -> Option<(i64, u32)>;

/// `chrono::DateTime::parse_from_rfc3339`, the result taken to UTC.
#[verifier::external_body]
fn parse_rfc3339(s: &str) -> (r: Option<UtcTime>)
    ensures
        match rfc3339_instant(s@) {
            Some((secs, nanos)) => r matches Some(t) && t.secs == secs && t.nanos == nanos,
            None => r is None,
        },
{
    chrono::DateTime::parse_from_rfc3339(s).ok().map(|d| {
        let u = d.with_timezone(&chrono::Utc);
        UtcTime { secs: u.timestamp(), nanos: u.timestamp_subsec_nanos() }
    })
}

/// The day that chrono's `NaiveDate::parse_from_str` reads from the text with
/// the format `%Y-%m-%d`, as chrono numbers days (`num_days_from_ce`:
/// 0001-01-01 is day 1); `None` where chrono refuses the text.
pub uninterp spec fn ymd_day_number(s: Seq<char>) -> Option<i32>;

/// `chrono::NaiveDate::parse_from_str` with `%Y-%m-%d`, the date given by
/// its day number.
#[verifier::external_body]
fn parse_ymd_day(s: &str) -> (r: Option<i32>)
    ensures
        r == ymd_day_number(s@),
{
    chrono::NaiveDate::parse_from_str(s, "%Y-%m-%d").ok().map(|d| d.num_days_from_ce())
}

/// chrono's day number of 1970-01-01, the first day of the Unix epoch.
pub const EPOCH_DAY_NUMBER: i64 = 719163;

pub const DAY_SECONDS: i64 = 86400;

/// The last second (23:59:59 UTC) of the day with the given day number, in
/// seconds since the Unix epoch.
pub open spec fn end_of_day_secs(day: int) -> int {
    (day - EPOCH_DAY_NUMBER) * DAY_SECONDS + (DAY_SECONDS - 1)
}

/// The message with which a date that neither form reads is refused.
pub open spec fn invalid_date_text(s: Seq<char>) -> Seq<char> {
    "Invalid date format for '"@ + s + "'. Expected 'YYYY-MM-DD' or RFC3339 string."@
}

/// Reads a date given either as an RFC 3339 timestamp or as `YYYY-MM-DD`,
/// the latter meaning the last second of that day in UTC.
pub fn parse_flexible_date(s: &str) -> (r: Result<UtcTime, String>)
    ensures
        match rfc3339_instant(s@) {
            Some((secs, nanos)) => r matches Ok(t) && t.secs == secs && t.nanos == nanos,
            None => match ymd_day_number(s@) {
                Some(day) => r matches Ok(t) && t.secs == end_of_day_secs(day as int) && t.nanos == 0,
                None => r matches Err(m) && m@ == invalid_date_text(s@),
            },
        },
{
    if let Some(t) = parse_rfc3339(s) {
        return Ok(t);
    }
    if let Some(day) = parse_ymd_day(s) {
        let secs = (day as i64 - EPOCH_DAY_NUMBER) * DAY_SECONDS + (DAY_SECONDS - 1);
        return Ok(UtcTime { secs, nanos: 0 });
    }
    let mut m = String::new();
    m.append("Invalid date format for '");
    m.append(s);
    m.append("'. Expected 'YYYY-MM-DD' or RFC3339 string.");
    Err(m)
}


/// The UUID that `uuid::Uuid::parse_str` reads from the text, as its 128-bit
/// value (`Uuid::as_u128`); `None` where it refuses the text.
pub uninterp spec fn uuid_u128(s: Seq<char>) -> Option<u128>;

/// `uuid::Uuid::parse_str`, the UUID given by its 128-bit value.
#[verifier::external_body]
fn uuid_of(s: &str) -> (r: Option<u128>)
    ensures
        r == uuid_u128(s@),
{
    uuid::Uuid::parse_str(s).ok().map(|u| u.as_u128())
}

/// The user an analytics request is for: the token's user id read as a
/// UUID (given by its 128-bit value), refused as an invalid user id where
/// it is not one.
pub fn parse_user_id(user_id: &str) -> (r: Result<u128, ApiError>)
    ensures
        r == match uuid_u128(user_id@) {
            Some(v) => Ok::<u128, ApiError>(v),
            None => Err::<u128, ApiError>(ApiError::InvalidUserId),
        },
{
    match uuid_of(user_id) {
        Some(u) => Ok(u),
        None => Err(ApiError::InvalidUserId),
    }
}

} // verus!
