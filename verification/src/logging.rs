//! API request logging: the log record and its status classes, the query
//! filter and its builders, the SQL that a filter selects, the CSV export
//! and the client address of a request.
use vstd::prelude::*;
use crate::fmt::{dec, idec, push_dec, push_idec};
use crate::text::{owned, push_str, str_to_uppercase, uppercase};

verus! {

/// Logging error types.
#[derive(Debug)]
pub enum LogError {
    DatabaseError(String),
    AsyncError(String),
    SerializationError(String),
    InvalidFilter(String),
}

impl LogError {
    /// The HTTP status and the public message of an error: 400 "Invalid
    /// filter" for a bad filter, else 500 with the error's class.
    pub fn status_and_message(&self) -> (r: (u16, &'static str))
        ensures
            match *self {
                LogError::DatabaseError(_) => r.0 == 500 && r.1@ == "Database error"@,
                LogError::AsyncError(_) => r.0 == 500 && r.1@ == "Async error"@,
                LogError::SerializationError(_) => r.0 == 500 && r.1@ == "Serialization error"@,
                LogError::InvalidFilter(_) => r.0 == 400 && r.1@ == "Invalid filter"@,
            },
    {
        match self {
            LogError::DatabaseError(_) => (500, "Database error"),
            LogError::AsyncError(_) => (500, "Async error"),
            LogError::SerializationError(_) => (500, "Serialization error"),
            LogError::InvalidFilter(_) => (400, "Invalid filter"),
        }
    }

    /// The error's text: its class and its detail.
    pub fn describe(&self) -> (r: String)
        ensures
            r@ == match *self {
                LogError::DatabaseError(d) => "Database error: "@ + d@,
                LogError::AsyncError(d) => "Async error: "@ + d@,
                LogError::SerializationError(d) => "Serialization error: "@ + d@,
                LogError::InvalidFilter(d) => "Invalid filter: "@ + d@,
            },
    {
        let (head, detail) = match self {
            LogError::DatabaseError(d) => ("Database error: ", d),
            LogError::AsyncError(d) => ("Async error: ", d),
            LogError::SerializationError(d) => ("Serialization error: ", d),
            LogError::InvalidFilter(d) => ("Invalid filter: ", d),
        };
        let mut s = owned(head);
        push_str(&mut s, detail.as_str());
        s
    }
}

/// An API request log record.
#[derive(Debug, Clone)]
pub struct ApiRequestLog {
    /// Unique identifier (set by the database).
    pub id: i64,
    /// Request time (Unix seconds).
    pub timestamp: i64,
    /// HTTP method.
    pub method: String,
    /// Request path.
    pub endpoint: String,
    /// HTTP status code.
    pub status_code: u16,
    /// Response time in milliseconds.
    pub response_time_ms: u64,
    /// API key id, if authenticated.
    pub api_key_id: Option<i64>,
    /// Client IP address.
    pub ip_address: Option<String>,
    /// User-Agent.
    pub user_agent: Option<String>,
    /// Request body size in bytes.
    pub request_size: Option<u64>,
    /// Response body size in bytes.
    pub response_size: Option<u64>,
}

/// The log level of a status code: INFO for 2xx, WARN for 4xx, ERROR else.
pub open spec fn log_level_spec(status: u16) -> Seq<char> {
    if 200 <= status < 300 {
        "INFO"@
    } else if 400 <= status < 500 {
        "WARN"@
    } else {
        "ERROR"@
    }
}

impl ApiRequestLog {
    /// A new log entry at time `timestamp`, with no id (0) and no optional data.
    pub fn new_at(
        method: String,
        endpoint: String,
        status_code: u16,
        response_time_ms: u64,
        timestamp: i64,
    ) -> (r: Self)
        ensures
            r.id == 0,
            r.timestamp == timestamp,
            r.method == method,
            r.endpoint == endpoint,
            r.status_code == status_code,
            r.response_time_ms == response_time_ms,
            r.api_key_id is None,
            r.ip_address is None,
            r.user_agent is None,
            r.request_size is None,
            r.response_size is None,
    {
        ApiRequestLog {
            id: 0,
            timestamp,
            method,
            endpoint,
            status_code,
            response_time_ms,
            api_key_id: None,
            ip_address: None,
            user_agent: None,
            request_size: None,
            response_size: None,
        }
    }

    /// A new log entry at the current time.
    pub fn new(method: String, endpoint: String, status_code: u16, response_time_ms: u64) -> (r: Self)
        ensures
            r.id == 0,
            r.method == method,
            r.endpoint == endpoint,
            r.status_code == status_code,
            r.response_time_ms == response_time_ms,
            r.api_key_id is None,
            r.ip_address is None,
            r.user_agent is None,
            r.request_size is None,
            r.response_size is None,
    {
        let now = crate::clock::chrono_now_secs();
        Self::new_at(method, endpoint, status_code, response_time_ms, now)
    }

    /// Whether the request succeeded (2xx).
    pub fn is_success(&self) -> (r: bool)
        ensures
            r == (200 <= self.status_code < 300),
    {
        self.status_code >= 200 && self.status_code < 300
    }

    /// Whether the request was a client error (4xx).
    pub fn is_client_error(&self) -> (r: bool)
        ensures
            r == (400 <= self.status_code < 500),
    {
        self.status_code >= 400 && self.status_code < 500
    }

    /// Whether the request was a server error (5xx).
    pub fn is_server_error(&self) -> (r: bool)
        ensures
            r == (500 <= self.status_code < 600),
    {
        self.status_code >= 500 && self.status_code < 600
    }

    /// The log level of the record's status code.
    pub fn log_level(&self) -> (r: &'static str)
        ensures
            r@ == log_level_spec(self.status_code),
    {
        if self.is_success() {
            "INFO"
        } else if self.is_client_error() {
            "WARN"
        } else {
            "ERROR"
        }
    }
}

/// Lemma: every status code falls in exactly one of the success, client
/// error and server error classes, or in none of them (1xx, 3xx and codes
/// from 600 on), and the
/// log level follows the class.
pub proof fn lemma_status_classes(status: u16)
    ensures
        !((200 <= status < 300) && (400 <= status < 500)),
        !((200 <= status < 300) && (500 <= status < 600)),
        !((400 <= status < 500) && (500 <= status < 600)),
        (200 <= status < 300) <==> log_level_spec(status) == "INFO"@,
        (400 <= status < 500) <==> log_level_spec(status) == "WARN"@,
        !(200 <= status < 300) && !(400 <= status < 500) <==> log_level_spec(status) == "ERROR"@,
{
    reveal_strlit("INFO");
    reveal_strlit("WARN");
    reveal_strlit("ERROR");
    assert("INFO"@[0] != "WARN"@[0]);
    assert("INFO"@.len() != "ERROR"@.len());
    assert("WARN"@.len() != "ERROR"@.len());
}

/// A filter for querying API logs.
#[derive(Debug, Clone)]
pub struct RequestLogFilter {
    /// Start time (Unix seconds).
    pub start_time: Option<i64>,
    /// End time (Unix seconds).
    pub end_time: Option<i64>,
    /// Endpoint substring.
    pub endpoint: Option<String>,
    /// HTTP method.
    pub method: Option<String>,
    /// Status code.
    pub status_code: Option<u16>,
    /// API key id.
    pub api_key_id: Option<i64>,
    /// Minimum response time (milliseconds).
    pub min_response_time: Option<u64>,
    /// Maximum response time (milliseconds).
    pub max_response_time: Option<u64>,
}

/// The filter that selects everything.
pub open spec fn empty_filter(f: RequestLogFilter) -> bool {
    &&& f.start_time is None
    &&& f.end_time is None
    &&& f.endpoint is None
    &&& f.method is None
    &&& f.status_code is None
    &&& f.api_key_id is None
    &&& f.min_response_time is None
    &&& f.max_response_time is None
}

impl Default for RequestLogFilter {
    fn default() -> (r: Self)
        ensures
            empty_filter(r),
    {
        RequestLogFilter {
            start_time: None,
            end_time: None,
            endpoint: None,
            method: None,
            status_code: None,
            api_key_id: None,
            min_response_time: None,
            max_response_time: None,
        }
    }
}

/// Seconds in an hour.
pub const SECS_PER_HOUR: i64 = 3600;

impl RequestLogFilter {
    /// A filter for the time range `start..=end` only.
    pub fn time_range(start: i64, end: i64) -> (r: Self)
        ensures
            r.start_time == Some(start),
            r.end_time == Some(end),
            r.endpoint is None,
            r.method is None,
            r.status_code is None,
            r.api_key_id is None,
            r.min_response_time is None,
            r.max_response_time is None,
    {
        let mut f = Self::default();
        f.start_time = Some(start);
        f.end_time = Some(end);
        f
    }

    /// A filter for the `hours` hours before `now`.
    pub fn last_hours_at(hours: i64, now: i64) -> (r: Self)
        requires
            span_fits_spec(hours as int, 3600, now as int),
        ensures
            r.start_time == Some((now - hours * 3600) as i64),
            r.end_time == Some(now),
            r.endpoint is None,
            r.method is None,
            r.status_code is None,
            r.api_key_id is None,
            r.min_response_time is None,
            r.max_response_time is None,
    {
        Self::time_range(now - hours * SECS_PER_HOUR, now)
    }

    /// A filter for the `days` days before `now`.
    pub fn last_days_at(days: i64, now: i64) -> (r: Self)
        requires
            span_fits_spec(days as int, 86400, now as int),
        ensures
            r.start_time == Some((now - days * 24 * 3600) as i64),
            r.end_time == Some(now),
            r.endpoint is None,
            r.method is None,
            r.status_code is None,
            r.api_key_id is None,
            r.min_response_time is None,
            r.max_response_time is None,
    {
        Self::time_range(now - days * 24 * SECS_PER_HOUR, now)
    }

    /// A filter for the last `hours` hours, when the span and the start time
    /// fit in `i64`; `None` otherwise (where the time arithmetic overflows).
    pub fn last_hours(hours: i64) -> (r: Option<Self>)
        ensures
            r matches Some(f) ==> {
                &&& f.end_time is Some
                &&& span_fits_spec(hours as int, 3600, f.end_time->0 as int)
                &&& f.start_time == Some((f.end_time->0 - hours * 3600) as i64)
                &&& f.endpoint is None && f.method is None && f.status_code is None
                &&& f.api_key_id is None && f.min_response_time is None && f.max_response_time is None
            },
            r is None ==> exists|now: i64| !#[trigger] span_fits_spec(hours as int, 3600, now as int),
    {
        let now = crate::clock::chrono_now_secs();
        if span_fits(hours, SECS_PER_HOUR, now) {
            Some(Self::last_hours_at(hours, now))
        } else {
            None
        }
    }

    /// A filter for the last `days` days, when the span and the start time fit
    /// in `i64`; `None` otherwise.
    pub fn last_days(days: i64) -> (r: Option<Self>)
        ensures
            r matches Some(f) ==> {
                &&& f.end_time is Some
                &&& span_fits_spec(days as int, 86400, f.end_time->0 as int)
                &&& f.start_time == Some((f.end_time->0 - days * 24 * 3600) as i64)
                &&& f.endpoint is None && f.method is None && f.status_code is None
                &&& f.api_key_id is None && f.min_response_time is None && f.max_response_time is None
            },
            r is None ==> exists|now: i64| !#[trigger] span_fits_spec(days as int, 86400, now as int),
    {
        let now = crate::clock::chrono_now_secs();
        if span_fits(days, 86400, now) {
            Some(Self::last_days_at(days, now))
        } else {
            None
        }
    }

    /// The filter narrowed to endpoints containing `endpoint`.
    pub fn with_endpoint(self, endpoint: &str) -> (r: Self)
        ensures
            r.endpoint matches Some(e) && e@ == endpoint@,
            r.start_time == self.start_time,
            r.end_time == self.end_time,
            r.method == self.method,
            r.status_code == self.status_code,
            r.api_key_id == self.api_key_id,
            r.min_response_time == self.min_response_time,
            r.max_response_time == self.max_response_time,
    {
        let mut f = self;
        f.endpoint = Some(owned(endpoint));
        f
    }

    /// The filter narrowed to one HTTP method.
    pub fn with_method(self, method: &str) -> (r: Self)
        ensures
            r.method matches Some(m) && m@ == method@,
            r.start_time == self.start_time,
            r.end_time == self.end_time,
            r.endpoint == self.endpoint,
            r.status_code == self.status_code,
            r.api_key_id == self.api_key_id,
            r.min_response_time == self.min_response_time,
            r.max_response_time == self.max_response_time,
    {
        let mut f = self;
        f.method = Some(owned(method));
        f
    }

    /// The filter narrowed to one status code.
    pub fn with_status_code(self, code: u16) -> (r: Self)
        ensures
            r.status_code == Some(code),
            r.start_time == self.start_time,
            r.end_time == self.end_time,
            r.endpoint == self.endpoint,
            r.method == self.method,
            r.api_key_id == self.api_key_id,
            r.min_response_time == self.min_response_time,
            r.max_response_time == self.max_response_time,
    {
        let mut f = self;
        f.status_code = Some(code);
        f
    }
}

/// Whether `n * unit` and `now - n * unit` both fit in `i64`.
pub open spec fn span_fits_spec(n: int, unit: int, now: int) -> bool {
    &&& i64::MIN <= n * unit <= i64::MAX
    &&& i64::MIN <= now - n * unit <= i64::MAX
}

/// Whether `n * unit` and `now - n * unit` both fit in `i64`.
fn span_fits(n: i64, unit: i64, now: i64) -> (r: bool)
    requires
        0 < unit <= 86400,
    ensures
        r == span_fits_spec(n as int, unit as int, now as int),
{
    proof {
        assert(-9223372036854775808 * 86400 <= (n as int) * (unit as int) <= 9223372036854775807
            * 86400) by (nonlinear_arith)
            requires
                -9223372036854775808 <= n <= 9223372036854775807,
                0 < unit <= 86400,
        ;
    }
    let span: i128 = (n as i128) * (unit as i128);
    let start: i128 = now as i128 - span;
    span >= i64::MIN as i128 && span <= i64::MAX as i128 && start >= i64::MIN as i128 && start
        <= i64::MAX as i128
}

/// A time range for statistics.
#[derive(Debug, Clone, Copy, PartialEq, Eq)]
pub struct TimeRange {
    pub start: i64,
    pub end: i64,
}

// ---------------------------------------------------------------------------
// Log queries
// ---------------------------------------------------------------------------

/// A value bound to a `?` of a log query.
#[derive(Debug, Clone)]
pub enum SqlParam {
    Int(i64),
    Text(String),
}

/// What a query parameter denotes.
pub enum SqlArg {
    Int(i64),
    Text(Seq<char>),
}

impl View for SqlParam {
    type V = SqlArg;

    open spec fn view(&self) -> SqlArg {
        match *self {
            SqlParam::Int(n) => SqlArg::Int(n),
            SqlParam::Text(t) => SqlArg::Text(t@),
        }
    }
}

/// A log query: its SQL and the values of its `?` placeholders, in order.
pub struct LogQuery {
    pub sql: String,
    pub params: Vec<SqlParam>,
}

/// The values of a list of query parameters.
pub open spec fn args_of(v: Seq<SqlParam>) -> Seq<SqlArg> {
    v.map_values(|p: SqlParam| p@)
}

/// A condition appended to a query when present.
pub open spec fn add_clause(
    acc: (Seq<char>, Seq<SqlArg>),
    present: bool,
    clause: Seq<char>,
    arg: SqlArg,
) -> (Seq<char>, Seq<SqlArg>) {
    if present {
        (acc.0 + clause, acc.1.push(arg))
    } else {
        acc
    }
}

/// The conditions of a filter and their parameters, in the order time range,
/// endpoint (a `LIKE` on the substring), method (upper-cased), status code,
/// API key and, for a row query, the response time bounds.
pub open spec fn filter_clauses(f: RequestLogFilter, with_response_times: bool) -> (
    Seq<char>,
    Seq<SqlArg>,
) {
    let c0: (Seq<char>, Seq<SqlArg>) = (seq![], seq![]);
    let c1 = add_clause(c0, f.start_time is Some, " AND timestamp >= ?"@, SqlArg::Int(f.start_time->0));
    let c2 = add_clause(c1, f.end_time is Some, " AND timestamp <= ?"@, SqlArg::Int(f.end_time->0));
    let c3 = add_clause(
        c2,
        f.endpoint is Some,
        " AND endpoint LIKE ?"@,
        SqlArg::Text("%"@ + f.endpoint->0@ + "%"@),
    );
    let c4 = add_clause(c3, f.method is Some, " AND method = ?"@, SqlArg::Text(uppercase(f.method->0@)));
    let c5 = add_clause(
        c4,
        f.status_code is Some,
        " AND status_code = ?"@,
        SqlArg::Int(f.status_code->0 as i64),
    );
    let c6 = add_clause(c5, f.api_key_id is Some, " AND api_key_id = ?"@, SqlArg::Int(f.api_key_id->0));
    let c7 = add_clause(
        c6,
        with_response_times && f.min_response_time is Some,
        " AND response_time_ms >= ?"@,
        SqlArg::Int(f.min_response_time->0 as i64),
    );
    add_clause(
        c7,
        with_response_times && f.max_response_time is Some,
        " AND response_time_ms <= ?"@,
        SqlArg::Int(f.max_response_time->0 as i64),
    )
}

/// The head of the row query.
pub open spec fn select_head() -> Seq<char> {
    "SELECT id, timestamp, method, endpoint, status_code, response_time_ms, api_key_id, ip_address, user_agent, request_size, response_size\n             FROM api_request_logs WHERE 1=1"@
}

/// The head of the count query.
pub open spec fn count_head() -> Seq<char> {
    "SELECT COUNT(*) FROM api_request_logs WHERE 1=1"@
}

/// The SQL and the parameter values of a query.
pub open spec fn pair_of(q: LogQuery) -> (Seq<char>, Seq<SqlArg>) {
    (q.sql@, args_of(q.params@))
}

/// Two pieces of a query, one after the other.
pub open spec fn concat(a: (Seq<char>, Seq<SqlArg>), b: (Seq<char>, Seq<SqlArg>)) -> (
    Seq<char>,
    Seq<SqlArg>,
) {
    (a.0 + b.0, a.1 + b.1)
}

proof fn lemma_add_clause_concat(
    base: (Seq<char>, Seq<SqlArg>),
    c: (Seq<char>, Seq<SqlArg>),
    present: bool,
    clause: Seq<char>,
    arg: SqlArg,
)
    ensures
        add_clause(concat(base, c), present, clause, arg) == concat(
            base,
            add_clause(c, present, clause, arg),
        ),
{
    if present {
        assert(base.0 + c.0 + clause =~= base.0 + (c.0 + clause));
        assert((base.1 + c.1).push(arg) =~= base.1 + c.1.push(arg));
    }
}

fn push_int_clause(q: &mut LogQuery, v: Option<i64>, clause: &str)
    ensures
        pair_of(*final(q)) == add_clause(pair_of(*old(q)), v is Some, clause@, SqlArg::Int(v->0)),
{
    if let Some(n) = v {
        push_str(&mut q.sql, clause);
        q.params.push(SqlParam::Int(n));
        assert(args_of(q.params@) =~= args_of(old(q).params@).push(SqlArg::Int(n)));
    }
}

fn push_text_clause(q: &mut LogQuery, v: Option<String>, clause: &str)
    ensures
        pair_of(*final(q)) == add_clause(
            pair_of(*old(q)),
            v is Some,
            clause@,
            SqlArg::Text(v->0@),
        ),
{
    if let Some(t) = v {
        let ghost tv = t@;
        push_str(&mut q.sql, clause);
        q.params.push(SqlParam::Text(t));
        assert(args_of(q.params@) =~= args_of(old(q).params@).push(SqlArg::Text(tv)));
    }
}

fn push_filter_clauses(q: &mut LogQuery, f: &RequestLogFilter, with_response_times: bool)
    ensures
        pair_of(*final(q)) == concat(pair_of(*old(q)), filter_clauses(*f, with_response_times)),
{
    let ghost base = pair_of(*q);
    let ghost c0: (Seq<char>, Seq<SqlArg>) = (seq![], seq![]);
    assert(concat(base, c0) =~= base);
    push_int_clause(q, f.start_time, " AND timestamp >= ?");
    proof {
        lemma_add_clause_concat(base, c0, f.start_time is Some, " AND timestamp >= ?"@, SqlArg::Int(f.start_time->0));
    }
    let ghost c1 = add_clause(c0, f.start_time is Some, " AND timestamp >= ?"@, SqlArg::Int(f.start_time->0));
    push_int_clause(q, f.end_time, " AND timestamp <= ?");
    proof {
        lemma_add_clause_concat(base, c1, f.end_time is Some, " AND timestamp <= ?"@, SqlArg::Int(f.end_time->0));
    }
    let ghost c2 = add_clause(c1, f.end_time is Some, " AND timestamp <= ?"@, SqlArg::Int(f.end_time->0));
    let pattern: Option<String> = match &f.endpoint {
        Some(endpoint) => {
            let mut p = owned("%");
            push_str(&mut p, endpoint.as_str());
            push_str(&mut p, "%");
            Some(p)
        },
        None => None,
    };
    push_text_clause(q, pattern, " AND endpoint LIKE ?");
    let ghost a3 = SqlArg::Text("%"@ + f.endpoint->0@ + "%"@);
    proof {
        lemma_add_clause_concat(base, c2, f.endpoint is Some, " AND endpoint LIKE ?"@, a3);
    }
    let ghost c3 = add_clause(c2, f.endpoint is Some, " AND endpoint LIKE ?"@, a3);
    let upper: Option<String> = match &f.method {
        Some(method) => Some(str_to_uppercase(method.as_str())),
        None => None,
    };
    push_text_clause(q, upper, " AND method = ?");
    let ghost a4 = SqlArg::Text(uppercase(f.method->0@));
    proof {
        lemma_add_clause_concat(base, c3, f.method is Some, " AND method = ?"@, a4);
    }
    let ghost c4 = add_clause(c3, f.method is Some, " AND method = ?"@, a4);
    let status: Option<i64> = match f.status_code {
        Some(c) => Some(c as i64),
        None => None,
    };
    push_int_clause(q, status, " AND status_code = ?");
    let ghost a5 = SqlArg::Int(f.status_code->0 as i64);
    proof {
        lemma_add_clause_concat(base, c4, f.status_code is Some, " AND status_code = ?"@, a5);
    }
    let ghost c5 = add_clause(c4, f.status_code is Some, " AND status_code = ?"@, a5);
    push_int_clause(q, f.api_key_id, " AND api_key_id = ?");
    proof {
        lemma_add_clause_concat(base, c5, f.api_key_id is Some, " AND api_key_id = ?"@, SqlArg::Int(f.api_key_id->0));
    }
    let ghost c6 = add_clause(c5, f.api_key_id is Some, " AND api_key_id = ?"@, SqlArg::Int(f.api_key_id->0));
    let min_rt: Option<i64> = match f.min_response_time {
        Some(t) => if with_response_times {
            Some(t as i64)
        } else {
            None
        },
        None => None,
    };
    push_int_clause(q, min_rt, " AND response_time_ms >= ?");
    let ghost a7 = SqlArg::Int(f.min_response_time->0 as i64);
    let ghost p7 = with_response_times && f.min_response_time is Some;
    proof {
        lemma_add_clause_concat(base, c6, p7, " AND response_time_ms >= ?"@, a7);
    }
    let ghost c7 = add_clause(c6, p7, " AND response_time_ms >= ?"@, a7);
    let max_rt: Option<i64> = match f.max_response_time {
        Some(t) => if with_response_times {
            Some(t as i64)
        } else {
            None
        },
        None => None,
    };
    push_int_clause(q, max_rt, " AND response_time_ms <= ?");
    let ghost a8 = SqlArg::Int(f.max_response_time->0 as i64);
    let ghost p8 = with_response_times && f.max_response_time is Some;
    proof {
        lemma_add_clause_concat(base, c7, p8, " AND response_time_ms <= ?"@, a8);
    }
}

/// The query for the log rows that a filter selects, newest first, `limit`
/// rows from `offset` on.
pub fn log_rows_query(filter: &RequestLogFilter, limit: u64, offset: u64) -> (r: LogQuery)
    ensures
        r.sql@ == select_head() + filter_clauses(*filter, true).0
            + " ORDER BY timestamp DESC LIMIT ? OFFSET ?"@,
        args_of(r.params@) == filter_clauses(*filter, true).1.push(SqlArg::Int(limit as i64)).push(
            SqlArg::Int(offset as i64),
        ),
{
    let mut q = LogQuery {
        sql: owned("SELECT id, timestamp, method, endpoint, status_code, response_time_ms, api_key_id, ip_address, user_agent, request_size, response_size\n             FROM api_request_logs WHERE 1=1"),
        params: Vec::new(),
    };
    assert(args_of(q.params@) =~= Seq::<SqlArg>::empty());
    push_filter_clauses(&mut q, filter, true);
    assert(args_of(q.params@) =~= filter_clauses(*filter, true).1);
    push_str(&mut q.sql, " ORDER BY timestamp DESC LIMIT ? OFFSET ?");
    let ghost a = args_of(q.params@);
    q.params.push(SqlParam::Int(limit as i64));
    q.params.push(SqlParam::Int(offset as i64));
    assert(args_of(q.params@) =~= a.push(SqlArg::Int(limit as i64)).push(SqlArg::Int(offset as i64)));
    assert(args_of(q.params@) =~= filter_clauses(*filter, true).1.push(SqlArg::Int(limit as i64)).push(
        SqlArg::Int(offset as i64),
    ));
    q
}

/// The query counting the log rows that a filter selects: the same
/// conditions as the row query, the response time bounds included.
pub fn log_count_query(filter: &RequestLogFilter) -> (r: LogQuery)
    ensures
        r.sql@ == count_head() + filter_clauses(*filter, true).0,
        args_of(r.params@) == filter_clauses(*filter, true).1,
{
    let mut q = LogQuery { sql: owned("SELECT COUNT(*) FROM api_request_logs WHERE 1=1"), params: Vec::new() };
    assert(args_of(q.params@) =~= Seq::<SqlArg>::empty());
    push_filter_clauses(&mut q, filter, true);
    assert(args_of(q.params@) =~= filter_clauses(*filter, true).1);
    q
}

// ---------------------------------------------------------------------------
// CSV export
// ---------------------------------------------------------------------------

/// The CSV header line.
pub open spec fn csv_header() -> Seq<char> {
    "id,timestamp,method,endpoint,status_code,response_time_ms,api_key_id,ip_address,user_agent\n"@
}

/// An optional text, or nothing.
pub open spec fn text_or_empty(s: Option<String>) -> Seq<char> {
    match s {
        Some(v) => v@,
        None => seq![],
    }
}

/// One CSV line of a log record (fields are written as they are).
pub open spec fn csv_line(l: ApiRequestLog) -> Seq<char> {
    idec(l.id as int) + ","@ + idec(l.timestamp as int) + ","@ + l.method@ + ","@ + l.endpoint@ + ","@
        + dec(l.status_code as nat) + ","@ + dec(l.response_time_ms as nat) + ","@ + (match l.api_key_id {
        Some(k) => idec(k as int),
        None => seq![],
    }) + ","@ + text_or_empty(l.ip_address) + ","@ + text_or_empty(l.user_agent) + "\n"@
}

/// The CSV lines of the first `k` records.
pub open spec fn csv_lines(logs: Seq<ApiRequestLog>, k: nat) -> Seq<char>
    decreases k,
{
    if k == 0 {
        seq![]
    } else {
        csv_lines(logs, (k - 1) as nat) + csv_line(logs[k - 1])
    }
}

fn push_text_or_empty(s: &mut String, v: &Option<String>)
    ensures
        final(s)@ == old(s)@ + text_or_empty(*v),
{
    match v {
        Some(x) => push_str(s, x.as_str()),
        None => {
            assert(old(s)@ + text_or_empty(*v) =~= old(s)@);
        },
    }
}

#[verifier::rlimit(80)]
fn push_csv_line(s: &mut String, l: &ApiRequestLog)
    ensures
        final(s)@ == old(s)@ + csv_line(*l),
{
    let ghost start = s@;
    push_idec(s, l.id);
    push_str(s, ",");
    push_idec(s, l.timestamp);
    push_str(s, ",");
    push_str(s, l.method.as_str());
    push_str(s, ",");
    push_str(s, l.endpoint.as_str());
    push_str(s, ",");
    push_dec(s, l.status_code as u64);
    push_str(s, ",");
    push_dec(s, l.response_time_ms);
    push_str(s, ",");
    let ghost mid = s@;
    match l.api_key_id {
        Some(k) => push_idec(s, k),
        None => {},
    }
    push_str(s, ",");
    push_text_or_empty(s, &l.ip_address);
    push_str(s, ",");
    push_text_or_empty(s, &l.user_agent);
    push_str(s, "\n");
    assert(s@ =~= start + csv_line(*l));
}

/// The CSV export of log records: a header line, then one line per record.
pub fn logs_to_csv(logs: &[ApiRequestLog]) -> (r: String)
    ensures
        r@ == csv_header() + csv_lines(logs@, logs@.len()),
{
    let mut s = owned(
        "id,timestamp,method,endpoint,status_code,response_time_ms,api_key_id,ip_address,user_agent\n",
    );
    let mut k: usize = 0;
    while k < logs.len()
        invariant
            k <= logs.len(),
            s@ == csv_header() + csv_lines(logs@, k as nat),
        decreases logs.len() - k,
    {
        push_csv_line(&mut s, &logs[k]);
        assert(s@ =~= csv_header() + csv_lines(logs@, (k + 1) as nat));
        k += 1;
    }
    s
}

/// The client address of a request for the log: the first address of its
/// `X-Forwarded-For` header, trimmed, else its `X-Real-IP` header. A header
/// is given here only when its value is valid text.
pub fn client_ip_for_log(forwarded: Option<&str>, real_ip: Option<&str>) -> (r: Option<String>)
    ensures
        forwarded matches Some(f) ==> r matches Some(ip) && ip@ == crate::rate_limit::first_list_entry(
            f@,
        ),
        forwarded is None ==> (real_ip matches Some(x) ==> r matches Some(ip) && ip@ == x@),
        forwarded is None ==> (real_ip is None ==> r is None),
{
    match forwarded {
        Some(f) => Some(crate::rate_limit::first_list_entry_of(f)),
        None => match real_ip {
            Some(x) => Some(owned(x)),
            None => None,
        },
    }
}

} // verus!
