//! Request rate limiting for the HTTP gateway: a token bucket per client IP
//! and per API key, with the limit, the remaining count and the reset time
//! reported for each admitted request.
use vstd::prelude::*;
use crate::assoc::AssocMap;
use crate::clock::{instant_now, millis_since};

verus! {

/// The window of every bucket, in milliseconds (one minute).
pub const WINDOW_MS: u64 = 60_000;

/// Seconds a refused client is told to wait.
pub const RETRY_AFTER_SECS: u64 = 60;

/// Rate limit error.
#[derive(Debug, Clone, Copy, PartialEq, Eq)]
pub enum RateLimitError {
    LimitExceeded { retry_after: u64, limit: u32, remaining: u32 },
}

/// Rate limit configuration.
#[derive(Debug, Clone, Copy, PartialEq, Eq)]
pub struct RateLimitConfig {
    /// Maximum requests per minute
    pub requests_per_minute: u32,
    /// Burst size (additional requests allowed in short bursts)
    pub burst_size: u32,
    /// Whether to enable per-IP rate limiting for unauthenticated requests
    pub limit_unauthenticated: bool,
    /// Max requests per minute for unauthenticated requests
    pub unauthenticated_limit: u32,
}

impl Default for RateLimitConfig {
    fn default() -> (r: Self)
        ensures
            r.requests_per_minute == 100,
            r.burst_size == 20,
            r.limit_unauthenticated,
            r.unauthenticated_limit == 10,
    {
        RateLimitConfig {
            requests_per_minute: 100,
            burst_size: 20,
            limit_unauthenticated: true,
            unauthenticated_limit: 10,
        }
    }
}

/// Rate limit status information.
#[derive(Debug, Clone, Copy, PartialEq, Eq)]
pub struct RateLimitStatus {
    /// Maximum requests per window
    pub limit: u32,
    /// Remaining requests in current window
    pub remaining: u32,
    /// Seconds until window resets
    pub reset_after: u32,
}

/// One token bucket.
#[derive(Debug, Clone, Copy, PartialEq, Eq)]
pub struct RateLimitEntry {
    /// Tokens currently available
    pub tokens: u32,
    /// When the bucket was last refilled (milliseconds on the limiter's clock)
    pub last_update_ms: u64,
    /// Window duration in milliseconds
    pub window_ms: u64,
    /// Maximum tokens
    pub max_tokens: u32,
}

/// The tokens that `elapsed` milliseconds earn in a bucket: the whole part of
/// `elapsed / window * max`, at most `u32::MAX`.
pub open spec fn tokens_earned(elapsed: nat, window_ms: nat, max_tokens: nat) -> nat {
    let t = (elapsed * max_tokens) / window_ms;
    if t > u32::MAX {
        u32::MAX as nat
    } else {
        t
    }
}

/// The bucket after refilling it at time `now`.
pub open spec fn refill_spec(e: RateLimitEntry, now: u64) -> RateLimitEntry {
    let elapsed: nat = if now >= e.last_update_ms {
        (now - e.last_update_ms) as nat
    } else {
        0
    };
    let add = tokens_earned(elapsed, e.window_ms as nat, e.max_tokens as nat);
    if add > 0 {
        RateLimitEntry {
            tokens: (if e.tokens + add > e.max_tokens {
                e.max_tokens as int
            } else {
                e.tokens + add
            }) as u32,
            last_update_ms: now,
            ..e
        }
    } else {
        e
    }
}

/// Taking one token: the count left, or failure when the bucket is empty.
pub open spec fn consume_spec(e: RateLimitEntry) -> (Result<u32, ()>, RateLimitEntry) {
    if e.tokens == 0 {
        (Err(()), e)
    } else {
        (Ok((e.tokens - 1) as u32), RateLimitEntry { tokens: (e.tokens - 1) as u32, ..e })
    }
}

impl RateLimitEntry {
    /// The bucket is well formed: never more tokens than its maximum, and a
    /// non-empty window.
    pub open spec fn wf(&self) -> bool {
        self.tokens <= self.max_tokens && self.window_ms > 0
    }

    /// A full bucket, last refilled at `now_ms`.
    pub fn new_at(max_tokens: u32, window_secs: u64, now_ms: u64) -> (r: Self)
        requires
            0 < window_secs <= u64::MAX / 1000,
        ensures
            r.wf(),
            r == (RateLimitEntry {
                tokens: max_tokens,
                last_update_ms: now_ms,
                window_ms: (window_secs * 1000) as u64,
                max_tokens,
            }),
    {
        RateLimitEntry {
            tokens: max_tokens,
            last_update_ms: now_ms,
            window_ms: window_secs * 1000,
            max_tokens,
        }
    }

    /// A full bucket of `max_tokens` over a window of `window_secs` seconds.
    pub fn new(max_tokens: u32, window_secs: u64) -> (r: Self)
        requires
            0 < window_secs <= u64::MAX / 1000,
        ensures
            r.wf(),
            r.tokens == max_tokens,
            r.max_tokens == max_tokens,
            r.window_ms == window_secs * 1000,
    {
        Self::new_at(max_tokens, window_secs, 0)
    }

    /// Takes one token: the count left, or an error when none is left.
    pub fn try_consume(&mut self) -> (r: Result<u32, ()>)
        requires
            old(self).wf(),
        ensures
            final(self).wf(),
            (r, *final(self)) == consume_spec(*old(self)),
    {
        if self.tokens == 0 {
            return Err(());
        }
        self.tokens = self.tokens - 1;
        Ok(self.tokens)
    }

    /// Adds the tokens earned since the last refill, up to the maximum.
    pub fn refill(&mut self, now_ms: u64)
        requires
            old(self).wf(),
        ensures
            final(self).wf(),
            *final(self) == refill_spec(*old(self), now_ms),
    {
        let elapsed: u64 = if now_ms >= self.last_update_ms {
            now_ms - self.last_update_ms
        } else {
            0
        };
        let e128: u128 = elapsed as u128;
        let m128: u128 = self.max_tokens as u128;
        assert(e128 * m128 <= 0xFFFF_FFFF_FFFF_FFFFu128 * 0xFFFF_FFFFu128) by (nonlinear_arith)
            requires
                e128 <= 0xFFFF_FFFF_FFFF_FFFFu128,
                m128 <= 0xFFFF_FFFFu128,
        ;
        let product: u128 = e128 * m128;
        let earned: u128 = product / self.window_ms as u128;
        let add: u32 = if earned > u32::MAX as u128 {
            u32::MAX
        } else {
            earned as u32
        };
        if add > 0 {
            let sum: u64 = self.tokens as u64 + add as u64;
            self.tokens = if sum > self.max_tokens as u64 {
                self.max_tokens
            } else {
                sum as u32
            };
            self.last_update_ms = now_ms;
        }
    }
}

} // verus!

verus! {

/// The full bucket given to a key seen for the first time.
pub open spec fn fresh_entry(limit: u32, now: u64) -> RateLimitEntry {
    RateLimitEntry { tokens: limit, last_update_ms: now, window_ms: WINDOW_MS, max_tokens: limit }
}

/// The refusal reported for a bucket of `limit` tokens.
pub open spec fn exceeded(limit: u32) -> RateLimitError {
    RateLimitError::LimitExceeded { retry_after: RETRY_AFTER_SECS, limit, remaining: 0 }
}

/// The whole seconds (rounded up) until a bucket's window, which starts at
/// its last refill, is over at time `now`; 0 once it is over.
pub open spec fn reset_secs(e: RateLimitEntry, now: u64) -> u32 {
    let elapsed: int = if now >= e.last_update_ms {
        now - e.last_update_ms
    } else {
        0
    };
    let rem: int = if elapsed >= e.window_ms {
        0
    } else {
        e.window_ms - elapsed
    };
    let secs: int = (rem + 999) / 1000;
    if secs > u32::MAX {
        u32::MAX
    } else {
        secs as u32
    }
}

/// One admission check of `key` at time `now`: a known key's bucket is
/// refilled and then gives up a token; an unknown key gets a fresh bucket of
/// `fresh_limit` tokens, kept only when it admits the request. An admitted
/// request is told the seconds until the bucket's window resets.
pub open spec fn check_step<K>(
    m: Map<K, RateLimitEntry>,
    key: K,
    fresh_limit: u32,
    now: u64,
) -> (Result<RateLimitStatus, RateLimitError>, Map<K, RateLimitEntry>) {
    if m.dom().contains(key) {
        let e = refill_spec(m[key], now);
        let c = consume_spec(e);
        match c.0 {
            Err(_) => (Err(exceeded(e.max_tokens)), m.insert(key, c.1)),
            Ok(rem) => (
                Ok(RateLimitStatus { limit: e.max_tokens, remaining: rem, reset_after: reset_secs(c.1, now) }),
                m.insert(key, c.1),
            ),
        }
    } else {
        let e = fresh_entry(fresh_limit, now);
        let c = consume_spec(e);
        match c.0 {
            Err(_) => (Err(exceeded(fresh_limit)), m),
            Ok(rem) => (
                Ok(RateLimitStatus { limit: fresh_limit, remaining: rem, reset_after: reset_secs(c.1, now) }),
                m.insert(key, c.1),
            ),
        }
    }
}

/// The seconds until a bucket's window resets.
fn reset_secs_exec(e: &RateLimitEntry, now: u64) -> (r: u32)
    ensures
        r == reset_secs(*e, now),
{
    let elapsed: u64 = if now >= e.last_update_ms {
        now - e.last_update_ms
    } else {
        0
    };
    let rem: u64 = if elapsed >= e.window_ms {
        0
    } else {
        e.window_ms - elapsed
    };
    let secs: u128 = (rem as u128 + 999) / 1000;
    if secs > u32::MAX as u128 {
        u32::MAX
    } else {
        secs as u32
    }
}

/// The last-cleanup time after a check at `now`.
pub open spec fn cleanup_spec(last: u64, interval: u64, now: u64) -> u64 {
    if now >= last && now - last >= interval {
        now
    } else {
        last
    }
}

/// In-memory rate limiter using the token bucket algorithm.
pub struct RateLimiter {
    /// Per-IP buckets
    pub ip_limits: AssocMap<String, RateLimitEntry>,
    /// Per-API-key buckets
    pub key_limits: AssocMap<i64, RateLimitEntry>,
    /// Configuration
    pub config: RateLimitConfig,
    /// Cleanup interval (milliseconds)
    pub cleanup_interval_ms: u64,
    /// Last cleanup time (milliseconds on the limiter's clock)
    pub last_cleanup_ms: u64,
    /// The instant the limiter's clock counts from
    pub origin: std::time::Instant,
}

/// Every bucket of a map is well formed.
pub open spec fn buckets_wf<K>(m: Map<K, RateLimitEntry>) -> bool {
    forall|k: K| m.dom().contains(k) ==> (#[trigger] m[k]).wf()
}

impl RateLimiter {
    /// The per-IP buckets, keyed by the IP text.
    pub open spec fn ip_map(&self) -> Map<Seq<char>, RateLimitEntry> {
        self.ip_limits.view_map()
    }

    /// The per-API-key buckets.
    pub open spec fn key_map(&self) -> Map<i64, RateLimitEntry> {
        self.key_limits.view_map()
    }

    /// The limiter is well formed.
    pub open spec fn wf(&self) -> bool {
        &&& self.ip_limits.wf()
        &&& self.key_limits.wf()
        &&& buckets_wf(self.ip_map())
        &&& buckets_wf(self.key_map())
    }

    /// A limiter with no buckets yet.
    pub fn new(config: RateLimitConfig) -> (r: Self)
        ensures
            r.wf(),
            r.config == config,
            r.ip_map() == Map::<Seq<char>, RateLimitEntry>::empty(),
            r.key_map() == Map::<i64, RateLimitEntry>::empty(),
            r.cleanup_interval_ms == WINDOW_MS,
            r.last_cleanup_ms == 0,
    {
        RateLimiter {
            ip_limits: AssocMap::new(),
            key_limits: AssocMap::new(),
            config,
            cleanup_interval_ms: WINDOW_MS,
            last_cleanup_ms: 0,
            origin: instant_now(),
        }
    }

    /// The refusal for a bucket of `limit` tokens with `remaining` left.
    fn make_error(&self, limit: u32, remaining: u32) -> (r: RateLimitError)
        ensures
            r == (RateLimitError::LimitExceeded { retry_after: RETRY_AFTER_SECS, limit, remaining }),
    {
        RateLimitError::LimitExceeded { retry_after: RETRY_AFTER_SECS, limit, remaining }
    }

    /// Notes a periodic cleanup when the interval has passed.
    fn maybe_cleanup(&mut self, now_ms: u64)
        ensures
            final(self).last_cleanup_ms == cleanup_spec(
                old(self).last_cleanup_ms,
                old(self).cleanup_interval_ms,
                now_ms,
            ),
            final(self).ip_limits == old(self).ip_limits,
            final(self).key_limits == old(self).key_limits,
            final(self).config == old(self).config,
            final(self).cleanup_interval_ms == old(self).cleanup_interval_ms,
    {
        if now_ms >= self.last_cleanup_ms && now_ms - self.last_cleanup_ms >= self.cleanup_interval_ms {
            self.last_cleanup_ms = now_ms;
        }
    }

    /// Checks the rate limit of a client IP at time `now_ms`.
    pub fn check_ip_at(&mut self, ip: &str, now_ms: u64) -> (r: Result<RateLimitStatus, RateLimitError>)
        requires
            old(self).wf(),
        ensures
            final(self).wf(),
            (r, final(self).ip_map()) == check_step(
                old(self).ip_map(),
                ip@,
                old(self).config.unauthenticated_limit,
                now_ms,
            ),
            final(self).key_map() == old(self).key_map(),
            final(self).config == old(self).config,
            final(self).cleanup_interval_ms == old(self).cleanup_interval_ms,
            final(self).last_cleanup_ms == cleanup_spec(
                old(self).last_cleanup_ms,
                old(self).cleanup_interval_ms,
                now_ms,
            ),
    {
        self.maybe_cleanup(now_ms);
        let key = crate::text::owned(ip);
        let ghost m0 = self.ip_map();
        match self.ip_limits.remove(&key) {
            Some(entry) => {
                let mut entry = entry;
                entry.refill(now_ms);
                let limit = entry.max_tokens;
                let c = entry.try_consume();
                let reset_after = reset_secs_exec(&entry, now_ms);
                self.ip_limits.insert(key, entry);
                assert(self.ip_map() =~= m0.insert(ip@, entry));
                match c {
                    Err(_) => Err(self.make_error(limit, 0)),
                    Ok(remaining) => Ok(RateLimitStatus { limit, remaining, reset_after }),
                }
            },
            None => {
                let limit = self.config.unauthenticated_limit;
                let mut entry = RateLimitEntry::new_at(limit, 60, now_ms);
                match entry.try_consume() {
                    Err(_) => Err(self.make_error(limit, 0)),
                    Ok(remaining) => {
                        let reset_after = reset_secs_exec(&entry, now_ms);
                        self.ip_limits.insert(key, entry);
                        Ok(RateLimitStatus { limit, remaining, reset_after })
                    },
                }
            },
        }
    }

    /// Checks the rate limit of an API key at time `now_ms`; a new key's
    /// bucket holds the per-minute limit plus the burst.
    pub fn check_api_key_at(&mut self, key_id: i64, now_ms: u64) -> (r: Result<
        RateLimitStatus,
        RateLimitError,
    >)
        requires
            old(self).wf(),
            old(self).config.requests_per_minute + old(self).config.burst_size <= u32::MAX,
        ensures
            final(self).wf(),
            (r, final(self).key_map()) == check_step(
                old(self).key_map(),
                key_id,
                (old(self).config.requests_per_minute + old(self).config.burst_size) as u32,
                now_ms,
            ),
            final(self).ip_map() == old(self).ip_map(),
            final(self).config == old(self).config,
            final(self).cleanup_interval_ms == old(self).cleanup_interval_ms,
            final(self).last_cleanup_ms == cleanup_spec(
                old(self).last_cleanup_ms,
                old(self).cleanup_interval_ms,
                now_ms,
            ),
    {
        self.maybe_cleanup(now_ms);
        let ghost m0 = self.key_map();
        match self.key_limits.remove(&key_id) {
            Some(entry) => {
                let mut entry = entry;
                entry.refill(now_ms);
                let limit = entry.max_tokens;
                let c = entry.try_consume();
                let reset_after = reset_secs_exec(&entry, now_ms);
                self.key_limits.insert(key_id, entry);
                assert(self.key_map() =~= m0.insert(key_id, entry));
                match c {
                    Err(_) => Err(self.make_error(limit, 0)),
                    Ok(remaining) => Ok(RateLimitStatus { limit, remaining, reset_after }),
                }
            },
            None => {
                let limit = self.config.requests_per_minute + self.config.burst_size;
                let mut entry = RateLimitEntry::new_at(limit, 60, now_ms);
                match entry.try_consume() {
                    Err(_) => Err(self.make_error(limit, 0)),
                    Ok(remaining) => {
                        let reset_after = reset_secs_exec(&entry, now_ms);
                        self.key_limits.insert(key_id, entry);
                        Ok(RateLimitStatus { limit, remaining, reset_after })
                    },
                }
            },
        }
    }

    /// Checks the rate limit of a client IP now.
    pub fn check_ip(&mut self, ip: &str) -> (r: Result<RateLimitStatus, RateLimitError>)
        requires
            old(self).wf(),
        ensures
            final(self).wf(),
            exists|now: u64|
                (r, final(self).ip_map()) == #[trigger] check_step(
                    old(self).ip_map(),
                    ip@,
                    old(self).config.unauthenticated_limit,
                    now,
                ),
            final(self).key_map() == old(self).key_map(),
            final(self).config == old(self).config,
    {
        let now = millis_since(&self.origin);
        self.check_ip_at(ip, now)
    }

    /// Checks the rate limit of an API key now.
    pub fn check_api_key(&mut self, key_id: i64) -> (r: Result<RateLimitStatus, RateLimitError>)
        requires
            old(self).wf(),
            old(self).config.requests_per_minute + old(self).config.burst_size <= u32::MAX,
        ensures
            final(self).wf(),
            exists|now: u64|
                (r, final(self).key_map()) == #[trigger] check_step(
                    old(self).key_map(),
                    key_id,
                    (old(self).config.requests_per_minute + old(self).config.burst_size) as u32,
                    now,
                ),
            final(self).ip_map() == old(self).ip_map(),
            final(self).config == old(self).config,
    {
        let now = millis_since(&self.origin);
        self.check_api_key_at(key_id, now)
    }
}

} // verus!

verus! {

impl RateLimiter {
    /// The rate limit headers of a response: limit, remaining and reset.
    pub fn get_headers(&self, status: &RateLimitStatus) -> (r: Vec<(&'static str, String)>)
        ensures
            r@.len() == 3,
            r@[0].0@ == "X-RateLimit-Limit"@,
            r@[0].1@ == crate::fmt::dec(status.limit as nat),
            r@[1].0@ == "X-RateLimit-Remaining"@,
            r@[1].1@ == crate::fmt::dec(status.remaining as nat),
            r@[2].0@ == "X-RateLimit-Reset"@,
            r@[2].1@ == crate::fmt::dec(status.reset_after as nat),
    {
        let mut headers: Vec<(&'static str, String)> = Vec::new();
        headers.push(("X-RateLimit-Limit", crate::fmt::dec_string(status.limit as u64)));
        headers.push(("X-RateLimit-Remaining", crate::fmt::dec_string(status.remaining as u64)));
        headers.push(("X-RateLimit-Reset", crate::fmt::dec_string(status.reset_after as u64)));
        headers
    }
}

impl RateLimitError {
    /// The HTTP status of a refused request (429 Too Many Requests).
    pub fn status_code(&self) -> (r: u16)
        ensures
            r == 429,
    {
        429
    }

    /// The headers of a refused request: limit, remaining, reset and
    /// Retry-After.
    pub fn response_headers(&self) -> (r: Vec<(&'static str, String)>)
        ensures
            r@.len() == 4,
            match *self {
                RateLimitError::LimitExceeded { retry_after, limit, remaining } => {
                    &&& r@[0].0@ == "X-RateLimit-Limit"@
                    &&& r@[0].1@ == crate::fmt::dec(limit as nat)
                    &&& r@[1].0@ == "X-RateLimit-Remaining"@
                    &&& r@[1].1@ == crate::fmt::dec(remaining as nat)
                    &&& r@[2].0@ == "X-RateLimit-Reset"@
                    &&& r@[2].1@ == crate::fmt::dec(retry_after as nat)
                    &&& r@[3].0@ == "Retry-After"@
                    &&& r@[3].1@ == crate::fmt::dec(retry_after as nat)
                },
            },
    {
        match self {
            RateLimitError::LimitExceeded { retry_after, limit, remaining } => {
                let mut headers: Vec<(&'static str, String)> = Vec::new();
                headers.push(("X-RateLimit-Limit", crate::fmt::dec_string(*limit as u64)));
                headers.push(("X-RateLimit-Remaining", crate::fmt::dec_string(*remaining as u64)));
                headers.push(("X-RateLimit-Reset", crate::fmt::dec_string(*retry_after)));
                headers.push(("Retry-After", crate::fmt::dec_string(*retry_after)));
                headers
            },
        }
    }
}

/// The first entry of a comma-separated list, trimmed.
pub open spec fn first_list_entry(s: Seq<char>) -> Seq<char> {
    crate::text::trim_seq(s.take(crate::text::index_of_or_len(s, ',')))
}

/// The client address of a request, from its `X-Forwarded-For` header (the
/// first address of the chain, trimmed), else its `X-Real-IP` header, else
/// "unknown". A header is given here only when its value is valid text.
pub open spec fn client_ip_spec(forwarded: Option<Seq<char>>, real_ip: Option<Seq<char>>) -> Seq<char> {
    match forwarded {
        Some(f) => first_list_entry(f),
        None => match real_ip {
            Some(r) => r,
            None => "unknown"@,
        },
    }
}

/// The first entry of a comma-separated list, trimmed.
pub fn first_list_entry_of(s: &str) -> (r: String)
    ensures
        r@ == first_list_entry(s@),
{
    let c = crate::text::chars_of(s);
    let k = crate::text::index_of_or_len_exec(c.as_slice(), ',');
    let mut head = String::new();
    crate::text::push_range(&mut head, c.as_slice(), 0, k);
    assert(head@ =~= s@.take(k as int));
    let t = crate::text::str_trim(head.as_str());
    crate::text::owned(t)
}

/// The client address used as the rate-limit key of an unauthenticated
/// request.
pub fn client_ip_or_unknown(forwarded: Option<&str>, real_ip: Option<&str>) -> (r: String)
    ensures
        r@ == client_ip_spec(
            match forwarded {
                Some(f) => Some(f@),
                None => None,
            },
            match real_ip {
                Some(x) => Some(x@),
                None => None,
            },
        ),
{
    match forwarded {
        Some(f) => first_list_entry_of(f),
        None => match real_ip {
            Some(x) => crate::text::owned(x),
            None => crate::text::owned("unknown"),
        },
    }
}

/// The results of `n` successive checks of `key` at the same time `now`, and
/// the buckets afterwards.
pub open spec fn repeat_checks<K>(
    m: Map<K, RateLimitEntry>,
    key: K,
    fresh_limit: u32,
    now: u64,
    n: nat,
) -> (Seq<Result<RateLimitStatus, RateLimitError>>, Map<K, RateLimitEntry>)
    decreases n,
{
    if n == 0 {
        (seq![], m)
    } else {
        let prev = repeat_checks(m, key, fresh_limit, now, (n - 1) as nat);
        let step = check_step(prev.1, key, fresh_limit, now);
        (prev.0.push(step.0), step.1)
    }
}

/// The `i`-th answer (from 0) that a new client gets within one instant:
/// admitted with the whole window (60 seconds) before the reset while
/// tokens remain.
pub open spec fn burst_answer(limit: u32, i: int) -> Result<
    RateLimitStatus,
    RateLimitError,
> {
    if i < limit {
        Ok(RateLimitStatus { limit, remaining: (limit - 1 - i) as u32, reset_after: 60 })
    } else {
        Err(exceeded(limit))
    }
}

/// A client the limiter has not seen yet is admitted exactly `limit` times
/// within one instant, the remaining count going down by one each time, and
/// every later request in that instant is refused with the limit and nothing
/// remaining.
pub proof fn lemma_new_client_burst<K>(
    m: Map<K, RateLimitEntry>,
    key: K,
    limit: u32,
    now: u64,
    n: nat,
)
    requires
        !m.dom().contains(key),
    ensures
        repeat_checks(m, key, limit, now, n).0.len() == n,
        forall|i: int|
            0 <= i < n ==> #[trigger] repeat_checks(m, key, limit, now, n).0[i]
                == burst_answer(limit, i),
        limit == 0 ==> !repeat_checks(m, key, limit, now, n).1.dom().contains(key),
        limit > 0 && n > 0 ==> repeat_checks(m, key, limit, now, n).1.dom().contains(
            key,
        ) && repeat_checks(m, key, limit, now, n).1[key] == (RateLimitEntry {
            tokens: (if n >= limit {
                0
            } else {
                limit - n
            }) as u32,
            last_update_ms: now,
            window_ms: WINDOW_MS,
            max_tokens: limit,
        }),
    decreases n,
{
    if n > 0 {
        lemma_new_client_burst(m, key, limit, now, (n - 1) as nat);
        let prev = repeat_checks(m, key, limit, now, (n - 1) as nat);
        let cur = repeat_checks(m, key, limit, now, n);
        if n > 1 && limit > 0 {
            let e = prev.1[key];
            assert(tokens_earned(0, WINDOW_MS as nat, limit as nat) == 0) by (nonlinear_arith);
            assert(refill_spec(e, now) == e);
        }
        assert forall|i: int| 0 <= i < n implies #[trigger] cur.0[i] == burst_answer(limit, i) by {
            if i < n - 1 {
                assert(cur.0[i] == prev.0[i]);
            }
        }
    }
}

} // verus!

verus! {

/// A bucket left alone for a whole window or more is full again after a refill.
pub proof fn lemma_refill_full_after_window(e: RateLimitEntry, now: u64)
    requires
        e.wf(),
        e.max_tokens > 0,
        now >= e.last_update_ms,
        now - e.last_update_ms >= e.window_ms,
    ensures
        refill_spec(e, now).tokens == e.max_tokens,
        refill_spec(e, now).wf(),
{
    let elapsed = (now - e.last_update_ms) as nat;
    assert(elapsed * (e.max_tokens as nat) >= (e.window_ms as nat) * (e.max_tokens as nat)) by (nonlinear_arith)
        requires
            elapsed >= e.window_ms as nat,
    ;
    assert((elapsed * (e.max_tokens as nat)) / (e.window_ms as nat) >= e.max_tokens as nat) by (nonlinear_arith)
        requires
            elapsed * (e.max_tokens as nat) >= (e.window_ms as nat) * (e.max_tokens as nat),
            e.window_ms > 0,
    ;
}

/// Refilling never removes tokens and never exceeds the maximum.
pub proof fn lemma_refill_monotone(e: RateLimitEntry, now: u64)
    requires
        e.wf(),
    ensures
        refill_spec(e, now).wf(),
        refill_spec(e, now).tokens >= e.tokens,
        refill_spec(e, now).max_tokens == e.max_tokens,
{
}

} // verus!
