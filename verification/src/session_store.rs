//! The persisted session store: for each session key, the recent chat
//! history and the session's lineage. Sessions older than the TTL are
//! dropped when a session is saved, and the store keeps at most a given
//! number of sessions, the most recently updated ones.
use vstd::prelude::*;
use crate::assoc::{lemma_view_dom, lemma_view_len, lemma_view_value, view_of, AssocMap, distinct_keys};
use crate::lineage::{lineage_view, LineageView, SessionLineageMeta};
use crate::session::ov;
use crate::api::GatewaySessionHistoryResponse;
use crate::session::{channel_label, channel_name, session_key, session_key_spec, ChannelKind};
use crate::steps::{chat_ui_messages, messages_for_chat_ui, ui_messages_are, ChatMessage};
use crate::text::owned;
use crate::wecom_card::dup_opt_string;

verus! {

/// What the store keeps of one session.
pub struct SessionRecord {
    pub messages: Vec<ChatMessage>,
    pub parent_session_key: Option<String>,
    pub parent_agent_id: Option<String>,
    pub agent_name: Option<String>,
    pub spawn_depth: u32,
    pub updated_at: i64,
}

/// The store: the sessions by key.
pub struct SessionStoreFile {
    pub sessions: AssocMap<String, SessionRecord>,
}

impl SessionStoreFile {
    /// An empty store.
    pub fn new() -> (r: Self)
        ensures
            r.sessions.wf(),
            r.sessions.view_map() == Map::<Seq<char>, SessionRecord>::empty(),
    {
        SessionStoreFile { sessions: AssocMap::new() }
    }
}

/// Whether a session is still alive at `now`: updated no more than the TTL
/// ago.
pub open spec fn record_alive(r: SessionRecord, now: i64, ttl_secs: u64) -> bool {
    !(now - r.updated_at > (ttl_secs as i64))
}

/// The sessions still alive at `now`.
pub open spec fn alive_sessions(m: Map<Seq<char>, SessionRecord>, now: i64, ttl_secs: u64) -> Map<
    Seq<char>,
    SessionRecord,
> {
    Map::new(|k: Seq<char>| m.contains_key(k) && record_alive(m[k], now, ttl_secs), |k: Seq<char>| m[k])
}

/// Whether `after` is `before` cut down to `max` sessions, the most recently
/// updated ones: `before` itself when it holds no more than `max`, else
/// `max` of its sessions, none of the dropped ones updated later than one
/// that is kept (which of several sessions updated at the same time stays
/// is left open).
pub open spec fn capped(before: Map<Seq<char>, SessionRecord>, max: nat, after: Map<Seq<char>, SessionRecord>) -> bool {
    if before.dom().len() <= max {
        after == before
    } else {
        &&& forall|k: Seq<char>| #[trigger] after.contains_key(k) ==> before.contains_key(k) && after[k] == before[k]
        &&& after.dom().len() == max
        &&& forall|k: Seq<char>, d: Seq<char>|
            after.contains_key(k) && before.contains_key(d) && !after.contains_key(d) ==> #[trigger] before[d].updated_at
                <= #[trigger] before[k].updated_at
    }
}

/// Whether no session's age overflows `i64` at `now`.
pub open spec fn ages_fit(m: Map<Seq<char>, SessionRecord>, now: i64) -> bool {
    forall|k: Seq<char>| #[trigger] m.contains_key(k) ==> i64::MIN <= now - m[k].updated_at <= i64::MAX
}

/// An equal copy of a message.
pub fn dup_message(m: &ChatMessage) -> (r: ChatMessage)
    ensures
        r == *m,
{
    ChatMessage { role: m.role.clone(), content: m.content.clone() }
}

/// An equal copy of a list of messages.
pub fn dup_messages(v: &Vec<ChatMessage>) -> (r: Vec<ChatMessage>)
    ensures
        r@ == v@,
{
    let mut r: Vec<ChatMessage> = Vec::new();
    let mut i: usize = 0;
    while i < v.len()
        invariant
            i <= v.len(),
            r@ == v@.take(i as int),
        decreases v.len() - i,
    {
        r.push(dup_message(&v[i]));
        assert(v@.take(i + 1) =~= v@.take(i as int).push(v@[i as int]));
        i += 1;
    }
    assert(v@.take(v.len() as int) =~= v@);
    r
}

/// The history of the session `key` at `now`: its messages while it is
/// alive, none when it is missing or expired.
pub fn load_session_history(store: &SessionStoreFile, key: &String, now: i64, ttl_secs: u64) -> (r: Vec<ChatMessage>)
    requires
        store.sessions.wf(),
        store.sessions.view_map().contains_key(key@) ==> i64::MIN <= now
            - store.sessions.view_map()[key@].updated_at <= i64::MAX,
    ensures
        r@ == (if store.sessions.view_map().contains_key(key@) && record_alive(
            store.sessions.view_map()[key@],
            now,
            ttl_secs,
        ) {
            store.sessions.view_map()[key@].messages@
        } else {
            Seq::empty()
        }),
{
    match store.sessions.get(key) {
        None => Vec::new(),
        Some(record) => {
            let age = now - record.updated_at;
            if age > ttl_secs as i64 {
                Vec::new()
            } else {
                dup_messages(&record.messages)
            }
        },
    }
}

/// The last `max_history_messages` messages (all of them when that is 0 or
/// there are no more).
pub fn trim_history(messages: Vec<ChatMessage>, max_history_messages: usize) -> (r: Vec<ChatMessage>)
    ensures
        r@ == (if max_history_messages > 0 && messages@.len() > max_history_messages {
            messages@.subrange(messages@.len() - max_history_messages, messages@.len() as int)
        } else {
            messages@
        }),
{
    let mut messages = messages;
    if max_history_messages > 0 && messages.len() > max_history_messages {
        let start = messages.len() - max_history_messages;
        messages.split_off(start)
    } else {
        messages
    }
}

/// Drops the sessions that are no longer alive.
fn retain_alive(sessions: AssocMap<String, SessionRecord>, now: i64, ttl_secs: u64) -> (r: AssocMap<String, SessionRecord>)
    requires
        sessions.wf(),
        ages_fit(sessions.view_map(), now),
    ensures
        r.wf(),
        r.view_map() == alive_sessions(sessions.view_map(), now, ttl_secs),
{
    let ghost src = sessions.entries@;
    let mut rest = sessions.entries;
    let mut kept: AssocMap<String, SessionRecord> = AssocMap::new();
    let n = rest.len();
    let mut i: usize = 0;
    assert(view_of(src.take(0)) =~= Map::<Seq<char>, SessionRecord>::empty());
    assert(alive_sessions(Map::<Seq<char>, SessionRecord>::empty(), now, ttl_secs) =~= Map::<
        Seq<char>,
        SessionRecord,
    >::empty());
    while i < n
        invariant
            n == src.len(),
            i <= n,
            rest@ == src.skip(i as int),
            distinct_keys(src),
            ages_fit(view_of(src), now),
            kept.wf(),
            kept.view_map() == alive_sessions(view_of(src.take(i as int)), now, ttl_secs),
        decreases n - i,
    {
        let e = rest.remove(0);
        let ghost prefix = src.take(i as int);
        proof {
            assert(e == src[i as int]);
            assert(src.skip(i as int).remove(0) =~= src.skip(i + 1));
            assert(src.take(i + 1).drop_last() =~= prefix);
            assert(src.take(i + 1).last() == e);
            lemma_view_dom(prefix, e.0@);
            if view_of(prefix).dom().contains(e.0@) {
                let j = choose|j: int| 0 <= j < prefix.len() && prefix[j].0@ == e.0@;
                assert(src[j].0@ == src[i as int].0@);
            }
            lemma_view_value(src, i as int);
        }
        let age = now - e.1.updated_at;
        if age > ttl_secs as i64 {
            assert(alive_sessions(view_of(src.take(i + 1)), now, ttl_secs) =~= alive_sessions(
                view_of(prefix),
                now,
                ttl_secs,
            ));
        } else {
            let ghost before = kept.view_map();
            let ghost ev = e;
            kept.insert(e.0, e.1);
            assert(alive_sessions(view_of(src.take(i + 1)), now, ttl_secs) =~= before.insert(
                ev.0@,
                ev.1,
            ));
        }
        i += 1;
    }
    assert(src.take(n as int) =~= src);
    kept
}

/// The position of a least recently updated session; the store must hold one.
fn oldest_index(sessions: &AssocMap<String, SessionRecord>) -> (r: usize)
    requires
        sessions.entries@.len() > 0,
    ensures
        r < sessions.entries@.len(),
        forall|q: int| 0 <= q < sessions.entries@.len() ==> sessions.entries@[r as int].1.updated_at
            <= #[trigger] sessions.entries@[q].1.updated_at,
{
    let mut j: usize = 0;
    let mut i: usize = 1;
    while i < sessions.entries.len()
        invariant
            sessions.entries@.len() > 0,
            j < sessions.entries@.len(),
            1 <= i <= sessions.entries@.len(),
            forall|q: int| 0 <= q < i ==> sessions.entries@[j as int].1.updated_at
                <= #[trigger] sessions.entries@[q].1.updated_at,
        decreases sessions.entries.len() - i,
    {
        if sessions.entries[i].1.updated_at < sessions.entries[j].1.updated_at {
            j = i;
        }
        i += 1;
    }
    j
}

/// Cuts the store down to `max_sessions` sessions, dropping the least
/// recently updated ones.
fn cap_sessions(sessions: AssocMap<String, SessionRecord>, max_sessions: usize) -> (r: AssocMap<String, SessionRecord>)
    requires
        sessions.wf(),
    ensures
        r.wf(),
        capped(sessions.view_map(), max_sessions as nat, r.view_map()),
{
    let ghost before = sessions.view_map();
    let mut cur = sessions;
    proof {
        lemma_view_len(cur.entries@);
    }
    if cur.len() <= max_sessions {
        return cur;
    }
    while cur.len() > max_sessions
        invariant
            cur.wf(),
            before.dom().finite(),
            before.dom().len() > max_sessions,
            cur.view_map().dom().finite(),
            cur.view_map().dom().len() >= max_sessions,
            forall|k: Seq<char>| #[trigger] cur.view_map().contains_key(k) ==> before.contains_key(k)
                && cur.view_map()[k] == before[k],
            forall|k: Seq<char>, d: Seq<char>|
                cur.view_map().contains_key(k) && before.contains_key(d) && !cur.view_map().contains_key(d)
                    ==> #[trigger] before[d].updated_at <= #[trigger] before[k].updated_at,
        decreases cur.entries@.len(),
    {
        proof {
            lemma_view_len(cur.entries@);
        }
        let j = oldest_index(&cur);
        let key = cur.entries[j].0.clone();
        let ghost m = cur.view_map();
        let ghost dk = cur.entries@[j as int].0@;
        proof {
            lemma_view_value(cur.entries@, j as int);
            assert forall|k: Seq<char>| #[trigger] m.contains_key(k) implies m[dk].updated_at
                <= m[k].updated_at by {
                lemma_view_dom(cur.entries@, k);
                let q = choose|q: int| 0 <= q < cur.entries@.len() && cur.entries@[q].0@ == k;
                lemma_view_value(cur.entries@, q);
                assert(cur.entries@[j as int].1.updated_at <= cur.entries@[q].1.updated_at);
            }
        }
        cur.remove(&key);
        proof {
            lemma_view_len(cur.entries@);
            assert(cur.view_map() == m.remove(dk));
            assert forall|k: Seq<char>, d: Seq<char>|
                cur.view_map().contains_key(k) && before.contains_key(d) && !cur.view_map().contains_key(
                    d,
                ) implies #[trigger] before[d].updated_at <= #[trigger] before[k].updated_at by {
                assert(m.contains_key(k));
                if d == dk {
                    assert(m[dk] == before[dk]);
                    assert(m[k] == before[k]);
                } else {
                    assert(!m.contains_key(d));
                }
            }
        }
    }
    cur
}

/// Saves the session `key` with `record` at `now`: the sessions that are no
/// longer alive are dropped, the session is stored (replacing an earlier
/// record), and the store is cut down to `max_sessions` sessions, the most
/// recently updated ones.
pub fn save_session_record(
    store: &mut SessionStoreFile,
    key: String,
    record: SessionRecord,
    now: i64,
    ttl_secs: u64,
    max_sessions: usize,
)
    requires
        old(store).sessions.wf(),
        ages_fit(old(store).sessions.view_map(), now),
    ensures
        final(store).sessions.wf(),
        capped(
            alive_sessions(old(store).sessions.view_map(), now, ttl_secs).insert(key@, record),
            max_sessions as nat,
            final(store).sessions.view_map(),
        ),
{
    let mut sessions: AssocMap<String, SessionRecord> = AssocMap::new();
    std::mem::swap(&mut sessions, &mut store.sessions);
    let mut alive = retain_alive(sessions, now, ttl_secs);
    alive.insert(key, record);
    store.sessions = cap_sessions(alive, max_sessions);
}

/// Law: a saved session is read back, within its TTL, with the messages it
/// was saved with, when it is the only session updated at `now` or later
/// and the store keeps at least one session.
pub proof fn lemma_saved_history_read_back(
    before: Map<Seq<char>, SessionRecord>,
    after: Map<Seq<char>, SessionRecord>,
    key: Seq<char>,
    record: SessionRecord,
    now: i64,
    later: i64,
    ttl_secs: u64,
    max_sessions: nat,
)
    requires
        before.dom().finite(),
        capped(alive_sessions(before, now, ttl_secs).insert(key, record), max_sessions, after),
        max_sessions >= 1,
        record.updated_at == now,
        forall|k: Seq<char>| #[trigger] before.contains_key(k) && k != key ==> before[k].updated_at < now,
        now <= later,
        later - now <= ttl_secs,
        ttl_secs <= i64::MAX,
    ensures
        after.contains_key(key),
        after[key] == record,
        record_alive(after[key], later, ttl_secs),
{
    let mid = alive_sessions(before, now, ttl_secs).insert(key, record);
    assert(alive_sessions(before, now, ttl_secs).dom() =~= before.dom().filter(
        |k: Seq<char>| record_alive(before[k], now, ttl_secs),
    ));
    assert(mid.dom().finite());
    if mid.dom().len() > max_sessions {
        if !after.contains_key(key) {
            assert(after.dom().len() >= 1);
            let k = after.dom().choose();
            assert(after.contains_key(k));
            assert(mid[key].updated_at <= mid[k].updated_at);
            assert(k != key);
            assert(before.contains_key(k));
        }
    }
}

/// Law: after a save the store never holds more than `max_sessions`
/// sessions, and what it keeps was there before.
pub proof fn lemma_capped_within_limit(
    before: Map<Seq<char>, SessionRecord>,
    max_sessions: nat,
    after: Map<Seq<char>, SessionRecord>,
)
    requires
        before.dom().finite(),
        capped(before, max_sessions, after),
    ensures
        after.dom().len() <= max_sessions,
        forall|k: Seq<char>| #[trigger] after.contains_key(k) ==> before.contains_key(k) && after[k] == before[k],
{
}

/// The lineage a stored record holds.
pub open spec fn record_lineage(r: SessionRecord) -> LineageView {
    (ov(r.parent_session_key), ov(r.parent_agent_id), ov(r.agent_name), r.spawn_depth, r.updated_at)
}

/// The lineage stored for the session `key`, if the store holds it.
pub fn stored_lineage(store: &SessionStoreFile, key: &String) -> (r: Option<SessionLineageMeta>)
    requires
        store.sessions.wf(),
    ensures
        match r {
            Some(m) => store.sessions.view_map().contains_key(key@) && lineage_view(m) == record_lineage(
                store.sessions.view_map()[key@],
            ),
            None => !store.sessions.view_map().contains_key(key@),
        },
{
    match store.sessions.get(key) {
        None => None,
        Some(record) => Some(
            SessionLineageMeta {
                parent_session_key: dup_opt_string(&record.parent_session_key),
                parent_agent_id: dup_opt_string(&record.parent_agent_id),
                agent_name: dup_opt_string(&record.agent_name),
                spawn_depth: record.spawn_depth,
                updated_at: record.updated_at,
            },
        ),
    }
}

/// What the chat UI is shown of a session: its id, its channel's label, the
/// user and assistant messages of its history (none when it is missing or
/// expired) and the time its record was last updated (when there is one).
pub fn session_history_response(
    store: &SessionStoreFile,
    channel: &ChannelKind,
    session_id: &str,
    now: i64,
    ttl_secs: u64,
) -> (r: GatewaySessionHistoryResponse)
    requires
        store.sessions.wf(),
        store.sessions.view_map().contains_key(session_key_spec(*channel, session_id@)) ==> i64::MIN
            <= now - store.sessions.view_map()[session_key_spec(*channel, session_id@)].updated_at
            <= i64::MAX,
    ensures
        ({
            let m = store.sessions.view_map();
            let key = session_key_spec(*channel, session_id@);
            let history = if m.contains_key(key) && record_alive(m[key], now, ttl_secs) {
                m[key].messages@
            } else {
                Seq::empty()
            };
            &&& r.session_id@ == session_id@
            &&& r.channel@ == channel_name(*channel)
            &&& ui_messages_are(r.messages@, chat_ui_messages(history, history.len()))
            &&& r.updated_at == (if m.contains_key(key) {
                Some(m[key].updated_at)
            } else {
                None
            })
        }),
{
    let key = session_key(channel, session_id);
    let messages = load_session_history(store, &key, now, ttl_secs);
    let updated_at = match store.sessions.get(&key) {
        Some(record) => Some(record.updated_at),
        None => None,
    };
    GatewaySessionHistoryResponse {
        session_id: owned(session_id),
        channel: channel_label(channel),
        messages: messages_for_chat_ui(messages.as_slice()),
        updated_at,
    }
}

/// Deletes the session `key` from the store; whether it was there.
pub fn delete_session_record(store: &mut SessionStoreFile, key: &String) -> (r: bool)
    requires
        old(store).sessions.wf(),
    ensures
        final(store).sessions.wf(),
        final(store).sessions.view_map() == old(store).sessions.view_map().remove(key@),
        r == old(store).sessions.view_map().contains_key(key@),
{
    store.sessions.remove(key).is_some()
}

} // verus!
