//! Remembering what was seen: the webhook dedupe cache, the cache of
//! messages the gateway sent itself, the replay check on signed webhooks
//! (timestamp skew and nonces), and the per-parent count of sub-agents.
use vstd::prelude::*;
use crate::feishu::digits_value;
use crate::fmt::{dec, idec, push_dec, push_idec};
use crate::gateway::{
    all_digits, keys_view, metadata_str, metadata_str_spec, metadata_u32, metadata_u32_spec,
    opt_view, unsigned_part, Config,
};
use crate::message::InboundMessage;
use crate::strmap::{fresh, StrMap};
use crate::text::{owned, push_str};
use crate::webhook::trimmed_nonempty;

verus! {

// ---------------------------------------------------------------------------
// Dedupe of webhook events
// ---------------------------------------------------------------------------

/// Event keys seen recently, each with the time (in milliseconds) it was
/// first accepted; a key is forgotten once the TTL has passed.
pub struct DedupCache {
    seen: StrMap<i64>,
    ttl_secs: u64,
}

/// The window, in milliseconds, of a TTL in seconds.
pub open spec fn window_ms(ttl_secs: u64) -> int {
    ttl_secs * 1000
}

/// A check of `key` at `now`: whether it is new, and the keys remembered
/// afterwards (expired ones dropped, a new one added).
pub open spec fn dedup_step(m: Map<Seq<char>, i64>, key: Seq<char>, now: i64, window: int) -> (
    bool,
    Map<Seq<char>, i64>,
) {
    let f = fresh(m, now, window);
    if f.contains_key(key) {
        (false, f)
    } else {
        (true, f.insert(key, now))
    }
}

impl View for DedupCache {
    type V = Map<Seq<char>, i64>;

    closed spec fn view(&self) -> Map<Seq<char>, i64> {
        self.seen@
    }
}

impl DedupCache {
    /// The TTL in seconds.
    pub closed spec fn ttl(&self) -> u64 {
        self.ttl_secs
    }

    /// An empty cache with this TTL.
    pub fn new(ttl_secs: u64) -> (r: Self)
        ensures
            r@ == Map::<Seq<char>, i64>::empty(),
            r.ttl() == ttl_secs,
    {
        DedupCache { seen: StrMap::new(), ttl_secs }
    }

    /// Whether `key` is new at `now` (milliseconds); a new key is
    /// remembered. Expired keys are dropped first.
    pub fn check_and_insert(&mut self, key: &str, now: i64) -> (r: bool)
        ensures
            (r, final(self)@) == dedup_step(old(self)@, key@, now, window_ms(old(self).ttl())),
            final(self).ttl() == old(self).ttl(),
    {
        let window: i128 = (self.ttl_secs as i128) * 1000;
        self.seen.retain_fresh(now, window);
        if self.seen.contains_key(key) {
            return false;
        }
        self.seen.insert(key, now);
        true
    }
}

/// A key accepted at `t1` is refused as a duplicate at any later time within
/// the TTL.
pub proof fn lemma_dedup_refuses_within_ttl(m: Map<Seq<char>, i64>, key: Seq<char>, t1: i64, t2: i64, window: int)
    requires
        dedup_step(m, key, t1, window).0,
        t1 <= t2,
        t2 - t1 < window,
    ensures
        !dedup_step(dedup_step(m, key, t1, window).1, key, t2, window).0,
{
    let m1 = dedup_step(m, key, t1, window).1;
    assert(m1.contains_key(key) && m1[key] == t1);
    assert(fresh(m1, t2, window).contains_key(key));
}

/// Once the TTL has passed, the same key is accepted again.
pub proof fn lemma_dedup_accepts_after_ttl(m: Map<Seq<char>, i64>, key: Seq<char>, t1: i64, t2: i64, window: int)
    requires
        dedup_step(m, key, t1, window).0,
        t2 - t1 >= window,
    ensures
        dedup_step(dedup_step(m, key, t1, window).1, key, t2, window).0,
{
    let m1 = dedup_step(m, key, t1, window).1;
    assert(m1[key] == t1);
    assert(!fresh(m1, t2, window).contains_key(key));
}

// ---------------------------------------------------------------------------
// Messages the gateway sent
// ---------------------------------------------------------------------------

/// The platform message ids the gateway sent recently ("channel:id"), each
/// with the time (milliseconds) it was sent.
pub struct OutboundMsgCache {
    sent: StrMap<i64>,
    ttl_secs: u64,
}

impl View for OutboundMsgCache {
    type V = Map<Seq<char>, i64>;

    closed spec fn view(&self) -> Map<Seq<char>, i64> {
        self.sent@
    }
}

/// The key of a sent message: the channel, ":" and the message id.
pub open spec fn sent_key(channel: Seq<char>, message_id: Seq<char>) -> Seq<char> {
    channel + ":"@ + message_id
}

fn sent_key_exec(channel: &str, message_id: &str) -> (r: String)
    ensures
        r@ == sent_key(channel@, message_id@),
{
    let mut k = owned(channel);
    push_str(&mut k, ":");
    push_str(&mut k, message_id);
    k
}

impl OutboundMsgCache {
    /// The TTL in seconds.
    pub closed spec fn ttl(&self) -> u64 {
        self.ttl_secs
    }

    /// An empty cache with this TTL.
    pub fn new(ttl_secs: u64) -> (r: Self)
        ensures
            r@ == Map::<Seq<char>, i64>::empty(),
            r.ttl() == ttl_secs,
    {
        OutboundMsgCache { sent: StrMap::new(), ttl_secs }
    }

    /// Records a message the gateway sent at `now` (milliseconds).
    pub fn record_outbound(&mut self, channel: &str, message_id: &str, now: i64)
        ensures
            final(self)@ == old(self)@.insert(sent_key(channel@, message_id@), now),
            final(self).ttl() == old(self).ttl(),
    {
        let k = sent_key_exec(channel, message_id);
        self.sent.insert(k.as_str(), now);
    }

    /// Whether the gateway sent this message within the TTL. Expired
    /// messages are dropped first.
    pub fn is_our_message(&mut self, channel: &str, message_id: &str, now: i64) -> (r: bool)
        ensures
            final(self)@ == fresh(old(self)@, now, window_ms(old(self).ttl())),
            r == final(self)@.contains_key(sent_key(channel@, message_id@)),
            final(self).ttl() == old(self).ttl(),
    {
        let window: i128 = (self.ttl_secs as i128) * 1000;
        self.sent.retain_fresh(now, window);
        let k = sent_key_exec(channel, message_id);
        self.sent.contains_key(k.as_str())
    }
}

/// A message the gateway sent is recognised as its own within the TTL.
pub proof fn lemma_sent_message_recognised(
    m: Map<Seq<char>, i64>,
    key: Seq<char>,
    t1: i64,
    t2: i64,
    window: int,
)
    requires
        t1 <= t2,
        t2 - t1 < window,
    ensures
        fresh(m.insert(key, t1), t2, window).contains_key(key),
{
}

// ---------------------------------------------------------------------------
// Replay protection of signed webhooks
// ---------------------------------------------------------------------------

/// `i64::from_str`: an optional '+' or '-', then one or more ASCII digits,
/// whose value fits in `i64`.
pub open spec fn parse_i64_spec(s: Seq<char>) -> Option<int> {
    if s.len() > 0 && s[0] == '-' {
        let d = s.drop_first();
        if d.len() > 0 && all_digits(d) && digits_value(d) <= 0x8000_0000_0000_0000 {
            Some(-(digits_value(d) as int))
        } else {
            None
        }
    } else {
        let d = unsigned_part(s);
        if d.len() > 0 && all_digits(d) && digits_value(d) <= i64::MAX {
            Some(digits_value(d) as int)
        } else {
            None
        }
    }
}

/// `str::parse::<i64>`: the value, or the error's message. Nothing is
/// claimed of the message's wording.
#[verifier::external_body]
fn parse_i64(s: &str) -> (r: Result<i64, String>)
    ensures
        r is Ok <==> parse_i64_spec(s@) is Some,
        r matches Ok(v) ==> parse_i64_spec(s@) == Some(v as int),
{
    match s.parse::<i64>() {
        Ok(v) => Ok(v),
        Err(e) => Err(e.to_string()),
    }
}

/// The replay settings of signed webhooks.
pub struct ReplayPolicy {
    /// Whether a timestamp and a nonce are required.
    pub require_nonce: bool,
    /// The largest accepted distance between the request's timestamp and now.
    pub max_skew_secs: u64,
    /// How long a nonce is remembered.
    pub nonce_ttl_secs: u64,
}

/// The nonces of signed webhooks seen recently ("nonce:timestamp"), each
/// with the time (seconds) it was seen.
pub struct WebhookNonces {
    seen: StrMap<i64>,
}

impl View for WebhookNonces {
    type V = Map<Seq<char>, i64>;

    closed spec fn view(&self) -> Map<Seq<char>, i64> {
        self.seen@
    }
}

impl WebhookNonces {
    /// No nonces seen.
    pub fn new() -> (r: Self)
        ensures
            r@ == Map::<Seq<char>, i64>::empty(),
    {
        WebhookNonces { seen: StrMap::new() }
    }
}

/// The key a nonce is remembered by: the nonce, ":" and the timestamp.
pub open spec fn replay_key(nonce: Seq<char>, ts: int) -> Seq<char> {
    nonce + ":"@ + idec(ts)
}

/// Whether `s` starts with `prefix`.
pub open spec fn starts_with(s: Seq<char>, prefix: Seq<char>) -> bool {
    prefix.len() <= s.len() && s.take(prefix.len() as int) == prefix
}

/// The distance between two times.
pub open spec fn distance(a: int, b: int) -> int {
    if a >= b {
        a - b
    } else {
        b - a
    }
}

/// The outcome of the replay check, and the nonces remembered afterwards.
/// A request without a timestamp, or without a non-blank nonce, passes
/// unless they are required; the timestamp must parse and lie within the
/// allowed skew of `now`; a nonce seen within its TTL (with the same
/// timestamp) is a replay, and a new one is remembered.
pub open spec fn replay_spec(
    policy: ReplayPolicy,
    timestamp: Option<Seq<char>>,
    nonce: Option<Seq<char>>,
    now: i64,
    m: Map<Seq<char>, i64>,
    r: Result<(), String>,
    m2: Map<Seq<char>, i64>,
) -> bool {
    match timestamp {
        None => m2 == m && if policy.require_nonce {
            r matches Err(e) && e@ == "missing x-omninova-timestamp header"@
        } else {
            r is Ok
        },
        Some(raw) => match parse_i64_spec(raw) {
            None => r matches Err(e) && starts_with(e@, "invalid x-omninova-timestamp header: "@)
                && m2 == m,
            Some(ts) => if distance(now as int, ts) > (policy.max_skew_secs as i64) as int {
                r matches Err(e) && e@ == "webhook timestamp is outside allowed skew window"@ && m2 == m
            } else {
                match trimmed_nonempty(nonce) {
                    None => m2 == m && if policy.require_nonce {
                        r matches Err(e) && e@ == "missing x-omninova-nonce header"@
                    } else {
                        r is Ok
                    },
                    Some(n) => {
                        let f = fresh(m, now, (policy.nonce_ttl_secs as i64) as int + 1);
                        let k = replay_key(n, ts);
                        if f.contains_key(k) {
                            r matches Err(e) && e@ == "replayed webhook request detected"@ && m2 == f
                        } else {
                            m2 == f.insert(k, now) && r is Ok
                        }
                    },
                }
            },
        },
    }
}

/// Checks a signed webhook against replays: its `x-omninova-timestamp` and
/// `x-omninova-nonce` headers, at `now` (Unix seconds).
pub fn validate_webhook_replay(
    policy: &ReplayPolicy,
    timestamp: Option<&str>,
    nonce: Option<&str>,
    now: i64,
    nonces: &mut WebhookNonces,
) -> (r: Result<(), String>)
    ensures
        replay_spec(*policy, opt_view(timestamp), opt_view(nonce), now, old(nonces)@, r, final(nonces)@),
{
    let ts = match timestamp {
        Some(raw) => match parse_i64(raw) {
            Ok(v) => v,
            Err(e) => {
                let mut m = owned("invalid x-omninova-timestamp header: ");
                push_str(&mut m, e.as_str());
                proof {
                    reveal_strlit("invalid x-omninova-timestamp header: ");
                }
                assert(m@.take("invalid x-omninova-timestamp header: "@.len() as int)
                    =~= "invalid x-omninova-timestamp header: "@);
                return Err(m);
            },
        },
        None => {
            if policy.require_nonce {
                return Err(owned("missing x-omninova-timestamp header"));
            }
            return Ok(());
        },
    };
    let diff: i128 = (now as i128) - (ts as i128);
    let dist: i128 = if diff >= 0 {
        diff
    } else {
        -diff
    };
    let max_skew: i64 = policy.max_skew_secs as i64;
    if dist > max_skew as i128 {
        return Err(owned("webhook timestamp is outside allowed skew window"));
    }
    let n = match nonce {
        Some(v) => {
            let t = crate::text::str_trim(v);
            if t.unicode_len() > 0 {
                t
            } else {
                if policy.require_nonce {
                    return Err(owned("missing x-omninova-nonce header"));
                }
                return Ok(());
            }
        },
        None => {
            if policy.require_nonce {
                return Err(owned("missing x-omninova-nonce header"));
            }
            return Ok(());
        },
    };
    let mut key = owned(n);
    push_str(&mut key, ":");
    push_idec(&mut key, ts);
    let ttl: i64 = policy.nonce_ttl_secs as i64;
    nonces.seen.retain_fresh(now, (ttl as i128) + 1);
    if nonces.seen.contains_key(key.as_str()) {
        return Err(owned("replayed webhook request detected"));
    }
    nonces.seen.insert(key.as_str(), now);
    Ok(())
}

/// A request whose nonce was accepted is refused as a replay when it comes
/// again within the nonce TTL.
pub proof fn lemma_replay_refused_within_ttl(
    m: Map<Seq<char>, i64>,
    key: Seq<char>,
    t1: i64,
    t2: i64,
    window: int,
)
    requires
        !fresh(m, t1, window).contains_key(key),
        t1 <= t2,
        t2 - t1 < window,
    ensures
        fresh(fresh(m, t1, window).insert(key, t1), t2, window).contains_key(key),
{
    let m1 = fresh(m, t1, window).insert(key, t1);
    assert(m1[key] == t1);
}

// ---------------------------------------------------------------------------
// Sub-agent limits
// ---------------------------------------------------------------------------

/// The number of active sub-agents of each parent agent.
pub struct ChildCounts {
    counts: StrMap<usize>,
}

impl View for ChildCounts {
    type V = Map<Seq<char>, usize>;

    closed spec fn view(&self) -> Map<Seq<char>, usize> {
        self.counts@
    }
}

impl ChildCounts {
    /// No active sub-agents.
    pub fn new() -> (r: Self)
        ensures
            r@ == Map::<Seq<char>, usize>::empty(),
    {
        ChildCounts { counts: StrMap::new() }
    }

    /// The number of active sub-agents of a parent.
    pub fn count(&self, parent: &str) -> (r: usize)
        ensures
            r == count_of(self@, parent@),
    {
        match self.counts.get(parent) {
            Some(c) => c,
            None => 0,
        }
    }
}

/// The count of a parent (zero when it has none recorded).
pub open spec fn count_of(m: Map<Seq<char>, usize>, p: Seq<char>) -> usize {
    if m.contains_key(p) {
        m[p]
    } else {
        0
    }
}

/// A sub-agent slot held for a parent agent.
pub struct ChildSlot {
    pub parent_agent_id: String,
}

/// The counts after a slot of `p` is given back: one less, and the parent
/// is forgotten at zero.
pub open spec fn released_counts(m: Map<Seq<char>, usize>, p: Seq<char>) -> Map<Seq<char>, usize> {
    if m.contains_key(p) {
        if m[p] <= 1 {
            m.remove(p)
        } else {
            m.insert(p, (m[p] - 1) as usize)
        }
    } else {
        m
    }
}

impl ChildSlot {
    /// Gives the slot back.
    pub fn release(self, counts: &mut ChildCounts)
        ensures
            final(counts)@ == released_counts(old(counts)@, self.parent_agent_id@),
    {
        let p = self.parent_agent_id.as_str();
        match counts.counts.get(p) {
            Some(c) => {
                let n: usize = if c > 0 {
                    c - 1
                } else {
                    0
                };
                if n == 0 {
                    counts.counts.remove(p);
                } else {
                    counts.counts.insert(p, n);
                }
            },
            None => {},
        }
    }
}

/// The metadata keys of the spawn depth.
pub open spec fn depth_keys() -> Seq<Seq<char>> {
    seq!["spawn_depth"@, "spawnDepth"@]
}

/// The metadata keys of the parent agent.
pub open spec fn parent_keys() -> Seq<Seq<char>> {
    seq!["parent_agent_id"@, "parentAgentId"@]
}

/// The outcome of taking a sub-agent slot, and the counts afterwards.
/// Without sub-agent settings nothing is checked. A spawn depth (zero when
/// absent) beyond the configured limit is refused. With a positive
/// per-parent limit and a parent agent id, the parent's count must be under
/// the limit: the slot is taken and the count goes up; a refused parent is
/// still recorded (with its count).
pub open spec fn subagent_spec(
    cfg: Config,
    inbound: InboundMessage,
    m: Map<Seq<char>, usize>,
    r: Result<Option<ChildSlot>, String>,
    m2: Map<Seq<char>, usize>,
) -> bool {
    match cfg.agent_defaults_extended.subagents {
        None => r matches Ok(None) && m2 == m,
        Some(sa) => {
            let depth: u32 = match metadata_u32_spec(inbound.metadata@, depth_keys()) {
                Some(d) => d,
                None => 0,
            };
            if sa.max_spawn_depth matches Some(md) && depth > md {
                r matches Err(e) && e@ == "subagent spawn depth "@ + dec(depth as nat)
                    + " exceeds limit "@ + dec(sa.max_spawn_depth->0 as nat) && m2 == m
            } else if sa.max_children_per_agent is None || sa.max_children_per_agent == Some(0u32) {
                r matches Ok(None) && m2 == m
            } else {
                let limit = sa.max_children_per_agent->0;
                match metadata_str_spec(inbound.metadata@, parent_keys()) {
                    None => r matches Ok(None) && m2 == m,
                    Some(p) => {
                        let c = count_of(m, p);
                        if c >= limit {
                            r matches Err(e) && e@
                                == "subagent children limit exceeded for parent '"@ + p + "' (limit="@
                                + dec(limit as nat) + ")"@ && m2 == m.insert(p, c)
                        } else {
                            r matches Ok(Some(slot)) && slot.parent_agent_id@ == p && m2
                                == m.insert(p, (c + 1) as usize)
                        }
                    },
                }
            }
        },
    }
}

/// Takes a sub-agent slot for a request.
pub fn acquire_subagent_guard(cfg: &Config, inbound: &InboundMessage, counts: &mut ChildCounts) -> (r:
    Result<Option<ChildSlot>, String>)
    ensures
        subagent_spec(*cfg, *inbound, old(counts)@, r, final(counts)@),
{
    let sa = match &cfg.agent_defaults_extended.subagents {
        Some(v) => v,
        None => return Ok(None),
    };
    if let Some(max_depth) = sa.max_spawn_depth {
        let keys: [&str; 2] = ["spawn_depth", "spawnDepth"];
        assert(keys_view(keys@) =~= depth_keys());
        let depth: u32 = match metadata_u32(inbound, &keys) {
            Some(d) => d,
            None => 0,
        };
        if depth > max_depth {
            let mut e = owned("subagent spawn depth ");
            push_dec(&mut e, depth as u64);
            push_str(&mut e, " exceeds limit ");
            push_dec(&mut e, max_depth as u64);
            return Err(e);
        }
    }
    let limit = match sa.max_children_per_agent {
        Some(l) => l,
        None => return Ok(None),
    };
    if limit == 0 {
        return Ok(None);
    }
    let pkeys: [&str; 2] = ["parent_agent_id", "parentAgentId"];
    assert(keys_view(pkeys@) =~= parent_keys());
    let parent = match metadata_str(inbound, &pkeys) {
        Some(p) => p,
        None => return Ok(None),
    };
    let count = counts.count(parent.as_str());
    if count >= limit as usize {
        counts.counts.insert(parent.as_str(), count);
        let mut e = owned("subagent children limit exceeded for parent '");
        push_str(&mut e, parent.as_str());
        push_str(&mut e, "' (limit=");
        push_dec(&mut e, limit as u64);
        push_str(&mut e, ")");
        return Err(e);
    }
    counts.counts.insert(parent.as_str(), count + 1);
    Ok(Some(ChildSlot { parent_agent_id: parent }))
}

/// Giving back a slot that was just taken restores the counts.
pub proof fn lemma_release_restores_counts(m: Map<Seq<char>, usize>, p: Seq<char>, c: usize)
    requires
        c == count_of(m, p),
        c < usize::MAX,
        m.contains_key(p) ==> m[p] > 0,
    ensures
        released_counts(m.insert(p, (c + 1) as usize), p) == m,
{
    if m.contains_key(p) {
        assert(m.insert(p, (c + 1) as usize).insert(p, c) =~= m);
    } else {
        assert(m.insert(p, (c + 1) as usize).remove(p) =~= m);
    }
}

} // verus!
