//! Session lineage: which parent session and agent a session was spawned
//! from, at what depth. A request may name its parent session, parent agent
//! and depth; a known session must agree with what it asks, and a new one
//! takes its depth from its parent, within the configured limit.
use vstd::prelude::*;
use crate::assoc::AssocMap;
use crate::fmt::dec;
use crate::gateway::{metadata_str, metadata_str_spec, metadata_u32, metadata_u32_spec, keys_view};
use crate::message::InboundMessage;
use crate::session::{
    session_key, session_key_spec, ov, split_session_key, split_spec, GatewaySessionTreeNode,
    GatewaySessionTreeQuery, GatewaySessionTreeResponse, depth_range_invalid, page_result,
    session_tree_page,
};
use crate::text::{owned, push_str, str_is};
use crate::wecom_card::dup_opt_string;

verus! {

/// The lineage of a session.
#[derive(Debug, Clone)]
pub struct SessionLineageMeta {
    pub parent_session_key: Option<String>,
    pub parent_agent_id: Option<String>,
    pub agent_name: Option<String>,
    pub spawn_depth: u32,
    pub updated_at: i64,
}

/// What a lineage says: parent session key, parent agent, agent, depth and
/// update time.
pub type LineageView = (Option<Seq<char>>, Option<Seq<char>>, Option<Seq<char>>, u32, i64);

/// The view of a lineage.
pub open spec fn lineage_view(m: SessionLineageMeta) -> LineageView {
    (ov(m.parent_session_key), ov(m.parent_agent_id), ov(m.agent_name), m.spawn_depth, m.updated_at)
}

/// The views of the lineages in a tree.
pub open spec fn tree_view(t: Map<Seq<char>, SessionLineageMeta>) -> Map<Seq<char>, LineageView> {
    t.map_values(|m: SessionLineageMeta| lineage_view(m))
}

impl SessionLineageMeta {
    /// The lineage of a session that names none: no parent, no agent, depth 0.
    pub fn empty() -> (r: Self)
        ensures
            lineage_view(r) == (None::<Seq<char>>, None::<Seq<char>>, None::<Seq<char>>, 0u32, 0i64),
    {
        SessionLineageMeta {
            parent_session_key: None,
            parent_agent_id: None,
            agent_name: None,
            spawn_depth: 0,
            updated_at: 0,
        }
    }

    /// An equal copy.
    pub fn duplicate(&self) -> (r: Self)
        ensures
            r == *self,
    {
        SessionLineageMeta {
            parent_session_key: dup_opt_string(&self.parent_session_key),
            parent_agent_id: dup_opt_string(&self.parent_agent_id),
            agent_name: dup_opt_string(&self.agent_name),
            spawn_depth: self.spawn_depth,
            updated_at: self.updated_at,
        }
    }
}

/// What a request asks of its session's lineage.
pub struct LineageRequest {
    /// The session's key.
    pub key: String,
    /// The key of the parent session it names.
    pub parent_key: Option<String>,
    /// The parent agent it names.
    pub parent_agent_id: Option<String>,
    /// The depth it names.
    pub depth: Option<u32>,
}

/// The metadata keys of the parent session id, parent agent id and depth.
pub open spec fn parent_session_keys() -> Seq<Seq<char>> {
    seq!["parent_session_id"@, "parentSessionId"@]
}

/// The metadata keys of the parent agent id.
pub open spec fn parent_agent_keys() -> Seq<Seq<char>> {
    seq!["parent_agent_id"@, "parentAgentId"@]
}

/// The metadata keys of the spawn depth.
pub open spec fn depth_keys() -> Seq<Seq<char>> {
    seq!["spawn_depth"@, "spawnDepth"@]
}

/// The parent session key a message asks for.
pub open spec fn requested_parent_key(m: InboundMessage) -> Option<Seq<char>> {
    match metadata_str_spec(m.metadata@, parent_session_keys()) {
        Some(p) => Some(session_key_spec(m.channel, p)),
        None => None,
    }
}

/// The lineage request of a message: none without a session id; refused
/// when it names a parent agent but no parent session.
pub fn lineage_request(inbound: &InboundMessage) -> (r: Result<Option<LineageRequest>, String>)
    ensures
        inbound.session_id is None ==> (r matches Ok(None)),
        inbound.session_id matches Some(sid) ==> {
            let pa = metadata_str_spec(inbound.metadata@, parent_agent_keys());
            let pk = requested_parent_key(*inbound);
            &&& (pa is Some && pk is None) ==> (r matches Err(e) && e@
                == "parentAgentId requires parentSessionId"@)
            &&& !(pa is Some && pk is None) ==> (r matches Ok(Some(req)) && {
                &&& req.key@ == session_key_spec(inbound.channel, sid@)
                &&& ov(req.parent_key) == pk
                &&& ov(req.parent_agent_id) == pa
                &&& req.depth == metadata_u32_spec(inbound.metadata@, depth_keys())
            })
        },
{
    let session_id = match &inbound.session_id {
        Some(s) => s,
        None => return Ok(None),
    };
    let key = session_key(&inbound.channel, session_id.as_str());
    let pk_keys: [&str; 2] = ["parent_session_id", "parentSessionId"];
    assert(keys_view(pk_keys@) =~= parent_session_keys());
    let parent_key = match metadata_str(inbound, &pk_keys) {
        Some(p) => Some(session_key(&inbound.channel, p.as_str())),
        None => None,
    };
    let pa_keys: [&str; 2] = ["parent_agent_id", "parentAgentId"];
    assert(keys_view(pa_keys@) =~= parent_agent_keys());
    let parent_agent_id = metadata_str(inbound, &pa_keys);
    if parent_agent_id.is_some() && parent_key.is_none() {
        return Err(owned("parentAgentId requires parentSessionId"));
    }
    let d_keys: [&str; 2] = ["spawn_depth", "spawnDepth"];
    assert(keys_view(d_keys@) =~= depth_keys());
    let depth = metadata_u32(inbound, &d_keys);
    Ok(Some(LineageRequest { key, parent_key, parent_agent_id, depth }))
}

/// The refusal of a known lineage that disagrees with a request, if any:
/// parent session, then depth, then parent agent, then the agent itself.
pub open spec fn known_mismatch(
    known: LineageView,
    parent_key: Option<Seq<char>>,
    parent_agent_id: Option<Seq<char>>,
    depth: Option<u32>,
    route_agent_name: Seq<char>,
    session_id: Seq<char>,
) -> Option<Seq<char>> {
    if parent_key is Some && known.0 != parent_key {
        Some("session parent mismatch for '"@ + session_id + "'"@)
    } else if depth is Some && known.3 != depth->0 {
        Some("session depth mismatch for '"@ + session_id + "'"@)
    } else if parent_agent_id is Some && known.1 != parent_agent_id {
        Some("session parent agent mismatch for '"@ + session_id + "'"@)
    } else if known.2 != Some(route_agent_name) {
        Some("session agent mismatch for '"@ + session_id + "'"@)
    } else {
        None
    }
}

fn opt_str_eq(a: &Option<String>, b: &Option<String>) -> (r: bool)
    ensures
        r == (ov(*a) == ov(*b)),
{
    match (a, b) {
        (Some(x), Some(y)) => str_is(x.as_str(), y.as_str()),
        (None, None) => true,
        _ => false,
    }
}

fn quoted(prefix: &str, session_id: &str) -> (r: String)
    ensures
        r@ == prefix@ + session_id@ + "'"@,
{
    let mut s = owned(prefix);
    push_str(&mut s, session_id);
    push_str(&mut s, "'");
    s
}

/// Checks a known lineage against a request.
pub fn check_known_lineage(
    known: &SessionLineageMeta,
    req: &LineageRequest,
    route_agent_name: &str,
    session_id: &str,
) -> (r: Result<(), String>)
    ensures
        r is Ok <==> known_mismatch(
            lineage_view(*known),
            ov(req.parent_key),
            ov(req.parent_agent_id),
            req.depth,
            route_agent_name@,
            session_id@,
        ) is None,
        r matches Err(e) ==> known_mismatch(
            lineage_view(*known),
            ov(req.parent_key),
            ov(req.parent_agent_id),
            req.depth,
            route_agent_name@,
            session_id@,
        ) == Some(e@),
{
    if req.parent_key.is_some() && !opt_str_eq(&known.parent_session_key, &req.parent_key) {
        return Err(quoted("session parent mismatch for '", session_id));
    }
    if let Some(d) = req.depth {
        if known.spawn_depth != d {
            return Err(quoted("session depth mismatch for '", session_id));
        }
    }
    if req.parent_agent_id.is_some() && !opt_str_eq(&known.parent_agent_id, &req.parent_agent_id) {
        return Err(quoted("session parent agent mismatch for '", session_id));
    }
    let agent_ok = match &known.agent_name {
        Some(a) => str_is(a.as_str(), route_agent_name),
        None => false,
    };
    if !agent_ok {
        return Err(quoted("session agent mismatch for '", session_id));
    }
    Ok(())
}

/// The lineage of a new session, or its refusal. `parent` is the parent
/// session's lineage when the request names a parent (`None` when it is not
/// found). The depth is one more than the parent's (saturating), or the
/// requested depth (0 by default) without a parent; it must not exceed
/// `max_spawn_depth`.
pub open spec fn new_lineage_spec(
    parent_key: Option<Seq<char>>,
    parent_agent_id: Option<Seq<char>>,
    depth: Option<u32>,
    parent: Option<LineageView>,
    route_agent_name: Seq<char>,
    max_spawn_depth: Option<u32>,
    now: i64,
) -> Result<LineageView, Seq<char>> {
    let step: Result<(Option<Seq<char>>, u32), Seq<char>> = match parent_key {
        Some(pk) => match parent {
            None => Err("parent session not found: "@ + pk),
            Some(pm) => {
                if parent_agent_id is Some && pm.2 != parent_agent_id {
                    Err("parentAgentId '"@ + parent_agent_id->0 + "' does not match parent session agent"@)
                } else {
                    let agent = if parent_agent_id is Some {
                        parent_agent_id
                    } else {
                        pm.2
                    };
                    let inferred: u32 = if pm.3 == u32::MAX {
                        u32::MAX
                    } else {
                        (pm.3 + 1) as u32
                    };
                    if depth is Some && depth->0 != inferred {
                        Err("session depth mismatch: expected "@ + dec(inferred as nat) + ", got "@ + dec(
                            depth->0 as nat,
                        ))
                    } else {
                        Ok((agent, inferred))
                    }
                }
            },
        },
        None => Ok((
            parent_agent_id,
            match depth {
                Some(d) => d,
                None => 0,
            },
        )),
    };
    match step {
        Err(e) => Err(e),
        Ok((agent, d)) => if max_spawn_depth is Some && d > max_spawn_depth->0 {
            Err("subagent spawn depth "@ + dec(d as nat) + " exceeds limit "@ + dec(
                max_spawn_depth->0 as nat,
            ))
        } else {
            Ok((parent_key, agent, Some(route_agent_name), d, now))
        },
    }
}

/// Law: a new session that names a parent whose lineage has depth `d`
/// (below `u32::MAX`) is, when resolved, one level deeper than its parent,
/// keeps the parent's key, and inherits the parent's agent unless it names
/// one; a request that asks for exactly depth `d + 1` (or for no depth) with
/// no limit in the way is never refused on depth, and is resolved.
pub proof fn lemma_child_is_one_deeper(
    parent_key: Seq<char>,
    parent_agent_id: Option<Seq<char>>,
    depth: Option<u32>,
    parent: LineageView,
    route_agent_name: Seq<char>,
    max_spawn_depth: Option<u32>,
    now: i64,
)
    requires
        parent.3 < u32::MAX,
    ensures
        new_lineage_spec(
            Some(parent_key),
            parent_agent_id,
            depth,
            Some(parent),
            route_agent_name,
            max_spawn_depth,
            now,
        ) matches Ok(v) ==> {
            &&& v.3 == parent.3 + 1
            &&& v.0 == Some(parent_key)
            &&& (parent_agent_id is None ==> v.1 == parent.2)
            &&& v.2 == Some(route_agent_name)
        },
        (parent_agent_id is None || parent_agent_id == parent.2) && (depth is None || depth == Some(
            (parent.3 + 1) as u32,
        )) && (max_spawn_depth is None || parent.3 + 1 <= max_spawn_depth->0) ==> new_lineage_spec(
            Some(parent_key),
            parent_agent_id,
            depth,
            Some(parent),
            route_agent_name,
            max_spawn_depth,
            now,
        ) is Ok,
{
}

/// The lineage of a new session.
pub fn resolve_new_lineage(
    req: &LineageRequest,
    parent: Option<&SessionLineageMeta>,
    route_agent_name: &str,
    max_spawn_depth: Option<u32>,
    now: i64,
) -> (r: Result<SessionLineageMeta, String>)
    ensures
        r matches Ok(m) ==> new_lineage_spec(
            ov(req.parent_key),
            ov(req.parent_agent_id),
            req.depth,
            match parent {
                Some(p) => Some(lineage_view(*p)),
                None => None,
            },
            route_agent_name@,
            max_spawn_depth,
            now,
        ) == Ok::<LineageView, Seq<char>>(lineage_view(m)),
        r matches Err(e) ==> new_lineage_spec(
            ov(req.parent_key),
            ov(req.parent_agent_id),
            req.depth,
            match parent {
                Some(p) => Some(lineage_view(*p)),
                None => None,
            },
            route_agent_name@,
            max_spawn_depth,
            now,
        ) == Err::<LineageView, Seq<char>>(e@),
{
    let mut agent = dup_opt_string(&req.parent_agent_id);
    let depth: u32 = match &req.parent_key {
        Some(pk) => {
            let pm = match parent {
                Some(p) => p,
                None => {
                    let mut e = owned("parent session not found: ");
                    push_str(&mut e, pk.as_str());
                    return Err(e);
                },
            };
            match &req.parent_agent_id {
                Some(expected) => {
                    let same = match &pm.agent_name {
                        Some(a) => str_is(a.as_str(), expected.as_str()),
                        None => false,
                    };
                    if !same {
                        let mut e = owned("parentAgentId '");
                        push_str(&mut e, expected.as_str());
                        push_str(&mut e, "' does not match parent session agent");
                        return Err(e);
                    }
                },
                None => {
                    agent = dup_opt_string(&pm.agent_name);
                },
            }
            let inferred: u32 = if pm.spawn_depth == u32::MAX {
                u32::MAX
            } else {
                pm.spawn_depth + 1
            };
            if let Some(d) = req.depth {
                if d != inferred {
                    let mut e = owned("session depth mismatch: expected ");
                    crate::fmt::push_dec(&mut e, inferred as u64);
                    push_str(&mut e, ", got ");
                    crate::fmt::push_dec(&mut e, d as u64);
                    return Err(e);
                }
            }
            inferred
        },
        None => match req.depth {
            Some(d) => d,
            None => 0,
        },
    };
    if let Some(max_depth) = max_spawn_depth {
        if depth > max_depth {
            let mut e = owned("subagent spawn depth ");
            crate::fmt::push_dec(&mut e, depth as u64);
            push_str(&mut e, " exceeds limit ");
            crate::fmt::push_dec(&mut e, max_depth as u64);
            return Err(e);
        }
    }
    Ok(
        SessionLineageMeta {
            parent_session_key: dup_opt_string(&req.parent_key),
            parent_agent_id: agent,
            agent_name: Some(owned(route_agent_name)),
            spawn_depth: depth,
            updated_at: now,
        },
    )
}

/// A lineage with its update time replaced.
pub open spec fn touched(v: LineageView, now: i64) -> LineageView {
    (v.0, v.1, v.2, v.3, now)
}

/// The outcome of resolving a message's lineage against the tree of known
/// sessions, the session's stored record and its parent's stored record:
/// the lineage or the refusal, and the tree afterwards.
pub open spec fn lineage_outcome(
    tree: Map<Seq<char>, LineageView>,
    inbound: InboundMessage,
    route_agent_name: Seq<char>,
    stored: Option<LineageView>,
    stored_parent: Option<LineageView>,
    max_spawn_depth: Option<u32>,
    now: i64,
) -> (Result<LineageView, Seq<char>>, Map<Seq<char>, LineageView>) {
    match inbound.session_id {
        None => (Ok((None, None, None, 0, 0)), tree),
        Some(sid) => {
            let pk = requested_parent_key(inbound);
            let pa = metadata_str_spec(inbound.metadata@, parent_agent_keys());
            let d = metadata_u32_spec(inbound.metadata@, depth_keys());
            let key = session_key_spec(inbound.channel, sid@);
            if pa is Some && pk is None {
                (Err("parentAgentId requires parentSessionId"@), tree)
            } else if tree.dom().contains(key) {
                match known_mismatch(tree[key], pk, pa, d, route_agent_name, sid@) {
                    Some(e) => (Err(e), tree),
                    None => (Ok(touched(tree[key], now)), tree.insert(key, touched(tree[key], now))),
                }
            } else if stored is Some {
                let resolved = touched(stored->0, now);
                match known_mismatch(resolved, pk, pa, d, route_agent_name, sid@) {
                    Some(e) => (Err(e), tree),
                    None => (Ok(resolved), tree.insert(key, resolved)),
                }
            } else {
                let parent = match pk {
                    Some(k) => if tree.dom().contains(k) {
                        Some(tree[k])
                    } else {
                        stored_parent
                    },
                    None => None,
                };
                match new_lineage_spec(pk, pa, d, parent, route_agent_name, max_spawn_depth, now) {
                    Err(e) => (Err(e), tree),
                    Ok(v) => (Ok(v), tree.insert(key, v)),
                }
            }
        },
    }
}

/// The view of an optional lineage.
pub open spec fn opt_lineage_view(m: Option<SessionLineageMeta>) -> Option<LineageView> {
    match m {
        Some(x) => Some(lineage_view(x)),
        None => None,
    }
}

/// Validates a message's session lineage and resolves it: a session already
/// in the tree must agree with what the message asks and is refreshed; one
/// with a stored record is checked against it and entered into the tree; a
/// new one takes its lineage from its parent (in the tree, else its stored
/// record) and is entered into the tree. `stored` and `stored_parent` are
/// the stored records of the session and of the parent the message names.
pub fn validate_and_resolve_session_lineage(
    tree: &mut AssocMap<String, SessionLineageMeta>,
    inbound: &InboundMessage,
    route_agent_name: &str,
    stored: Option<SessionLineageMeta>,
    stored_parent: Option<SessionLineageMeta>,
    max_spawn_depth: Option<u32>,
    now: i64,
) -> (r: Result<SessionLineageMeta, String>)
    requires
        old(tree).wf(),
    ensures
        final(tree).wf(),
        ({
            let out = lineage_outcome(
                tree_view(old(tree).view_map()),
                *inbound,
                route_agent_name@,
                opt_lineage_view(stored),
                opt_lineage_view(stored_parent),
                max_spawn_depth,
                now,
            );
            &&& tree_view(final(tree).view_map()) == out.1
            &&& (r matches Ok(m) ==> out.0 == Ok::<LineageView, Seq<char>>(lineage_view(m)))
            &&& (r matches Err(e) ==> out.0 == Err::<LineageView, Seq<char>>(e@))
        }),
{
    let ghost t0 = tree_view(tree.view_map());
    let session_id = match &inbound.session_id {
        Some(s) => s,
        None => {
            let m = SessionLineageMeta::empty();
            return Ok(m);
        },
    };
    let req = match lineage_request(inbound) {
        Ok(Some(q)) => q,
        Ok(None) => {
            return Ok(SessionLineageMeta::empty());
        },
        Err(e) => return Err(e),
    };
    let ghost key = req.key@;
    match tree.get(&req.key) {
        Some(known) => {
            let known = known.duplicate();
            match check_known_lineage(&known, &req, route_agent_name, session_id.as_str()) {
                Err(e) => return Err(e),
                Ok(()) => {},
            }
            let mut refreshed = known;
            refreshed.updated_at = now;
            let out = refreshed.duplicate();
            let k = req.key;
            tree.insert(k, refreshed);
            proof {
                assert(tree_view(tree.view_map()) =~= t0.insert(key, lineage_view(out)));
            }
            return Ok(out);
        },
        None => {},
    }
    if let Some(record) = stored {
        let mut resolved = record;
        resolved.updated_at = now;
        match check_known_lineage(&resolved, &req, route_agent_name, session_id.as_str()) {
            Err(e) => return Err(e),
            Ok(()) => {},
        }
        let out = resolved.duplicate();
        let k = req.key;
        tree.insert(k, resolved);
        proof {
            assert(tree_view(tree.view_map()) =~= t0.insert(key, lineage_view(out)));
        }
        return Ok(out);
    }
    let parent: Option<SessionLineageMeta> = match &req.parent_key {
        Some(pk) => match tree.get(pk) {
            Some(p) => Some(p.duplicate()),
            None => stored_parent,
        },
        None => None,
    };
    let parent_ref: Option<&SessionLineageMeta> = match &parent {
        Some(p) => Some(p),
        None => None,
    };
    match resolve_new_lineage(&req, parent_ref, route_agent_name, max_spawn_depth, now) {
        Err(e) => Err(e),
        Ok(m) => {
            let out = m.duplicate();
            let k = req.key;
            tree.insert(k, m);
            proof {
                assert(tree_view(tree.view_map()) =~= t0.insert(key, lineage_view(out)));
            }
            Ok(out)
        },
    }
}

// ---------------------------------------------------------------------------
// The session tree listing
// ---------------------------------------------------------------------------

/// Whether a listing node is the session `key` with lineage `m` from `source`.
pub open spec fn node_is(n: GatewaySessionTreeNode, key: Seq<char>, m: LineageView, source: Seq<char>) -> bool {
    &&& ov(n.session_key) == Some(key)
    &&& (ov(n.channel), ov(n.session_id)) == split_spec(key)
    &&& ov(n.parent_session_key) == m.0
    &&& ov(n.parent_agent_id) == m.1
    &&& ov(n.agent_name) == m.2
    &&& n.spawn_depth == m.3
    &&& n.updated_at == m.4
    &&& n.source@ == source
}

/// Whether a stored session is still alive at `now`: updated within the TTL.
pub open spec fn alive(m: LineageView, now: i64, ttl_secs: u64) -> bool {
    !(now - m.4 > (ttl_secs as i64))
}

/// The sessions a listing shows: the stored ones still alive and the ones in
/// memory. A session in memory shows its in-memory lineage, marked
/// "memory+persisted" when it is also stored and alive, else "memory"; a
/// stored one only, "persisted".
pub open spec fn listed(
    persisted: Map<Seq<char>, LineageView>,
    memory: Map<Seq<char>, LineageView>,
    now: i64,
    ttl_secs: u64,
    key: Seq<char>,
    n: GatewaySessionTreeNode,
) -> bool {
    let stored_alive = persisted.dom().contains(key) && alive(persisted[key], now, ttl_secs);
    if memory.dom().contains(key) {
        node_is(n, key, memory[key], if stored_alive {
            "memory+persisted"@
        } else {
            "memory"@
        })
    } else {
        stored_alive && node_is(n, key, persisted[key], "persisted"@)
    }
}

fn node_of(key: &String, m: &SessionLineageMeta, source: &str) -> (r: GatewaySessionTreeNode)
    ensures
        node_is(r, key@, lineage_view(*m), source@),
{
    let (channel, session_id) = split_session_key(key.as_str());
    GatewaySessionTreeNode {
        session_key: Some(key.clone()),
        channel,
        session_id,
        parent_session_key: dup_opt_string(&m.parent_session_key),
        parent_agent_id: dup_opt_string(&m.parent_agent_id),
        agent_name: dup_opt_string(&m.agent_name),
        spawn_depth: m.spawn_depth,
        updated_at: m.updated_at,
        source: owned(source),
    }
}

/// The keys of the first `i` pairs.
pub open spec fn prefix_keys<V>(s: Seq<(String, V)>, i: int) -> Set<Seq<char>> {
    Set::new(|k: Seq<char>| exists|j: int| 0 <= j < i && #[trigger] s[j].0@ == k)
}

/// Merges the stored and in-memory sessions into listing nodes, one per
/// session key, each with its key split into channel and session id.
pub fn merge_session_sources(
    persisted: &AssocMap<String, SessionLineageMeta>,
    in_memory: &AssocMap<String, SessionLineageMeta>,
    now: i64,
    ttl_secs: u64,
) -> (r: Vec<GatewaySessionTreeNode>)
    requires
        persisted.wf(),
        in_memory.wf(),
        forall|k: Seq<char>| #[trigger]
            persisted.view_map().dom().contains(k) ==> i64::MIN <= now
                - persisted.view_map()[k].updated_at <= i64::MAX,
    ensures
        forall|i: int, j: int|
            0 <= i < j < r@.len() ==> ov(r@[i].session_key) != ov(r@[j].session_key),
        forall|i: int|
            0 <= i < r@.len() ==> #[trigger] ov(r@[i].session_key) is Some && listed(
                tree_view(persisted.view_map()),
                tree_view(in_memory.view_map()),
                now,
                ttl_secs,
                ov(r@[i].session_key)->0,
                r@[i],
            ),
        forall|k: Seq<char>|
            (tree_view(in_memory.view_map()).dom().contains(k) || (tree_view(
                persisted.view_map(),
            ).dom().contains(k) && alive(tree_view(persisted.view_map())[k], now, ttl_secs)))
                ==> exists|i: int| 0 <= i < r@.len() && #[trigger] ov(r@[i].session_key) == Some(k),
{
    let ghost pv = tree_view(persisted.view_map());
    let ghost mv = tree_view(in_memory.view_map());
    let mut merged: AssocMap<String, GatewaySessionTreeNode> = AssocMap::new();
    let ttl = ttl_secs as i64;
    let mut i: usize = 0;
    while i < persisted.entries.len()
        invariant
            persisted.wf(),
            pv == tree_view(persisted.view_map()),
            ttl == ttl_secs as i64,
            forall|k: Seq<char>| #[trigger]
                persisted.view_map().dom().contains(k) ==> i64::MIN <= now
                    - persisted.view_map()[k].updated_at <= i64::MAX,
            i <= persisted.entries@.len(),
            merged.wf(),
            forall|k: Seq<char>| #[trigger]
                merged.view_map().dom().contains(k) <==> (prefix_keys(persisted.entries@, i as int).contains(k)
                    && alive(pv[k], now, ttl_secs)),
            forall|k: Seq<char>| #[trigger]
                merged.view_map().dom().contains(k) ==> node_is(merged.view_map()[k], k, pv[k], "persisted"@),
            forall|k: Seq<char>| #[trigger] prefix_keys(persisted.entries@, i as int).contains(k) ==> pv.dom().contains(k),
        decreases persisted.entries.len() - i,
    {
        proof {
            crate::assoc::lemma_view_value(persisted.entries@, i as int);
        }
        let key = &persisted.entries[i].0;
        let meta = &persisted.entries[i].1;
        assert(pv[key@] == lineage_view(*meta));
        if !(now - meta.updated_at > ttl) {
            let node = node_of(key, meta, "persisted");
            merged.insert(key.clone(), node);
        }
        proof {
            assert forall|k: Seq<char>| #[trigger] prefix_keys(persisted.entries@, i + 1).contains(k) <==> (
                prefix_keys(persisted.entries@, i as int).contains(k) || k == key@) by {
                if prefix_keys(persisted.entries@, i + 1).contains(k) && k != key@ {
                    let j = choose|j: int| 0 <= j < i + 1 && #[trigger] persisted.entries@[j].0@ == k;
                    assert(j < i);
                    assert(prefix_keys(persisted.entries@, i as int).contains(k));
                }
                if k == key@ {
                    assert(persisted.entries@[i as int].0@ == k);
                }
                if prefix_keys(persisted.entries@, i as int).contains(k) {
                    let j = choose|j: int| 0 <= j < i && #[trigger] persisted.entries@[j].0@ == k;
                    assert(persisted.entries@[j].0@ == k);
                }
            }
        }
        i += 1;
    }
    proof {
        assert forall|k: Seq<char>| #[trigger] pv.dom().contains(k) implies prefix_keys(persisted.entries@, i as int).contains(k) by {
            crate::assoc::lemma_view_dom(persisted.entries@, k);
            let j = choose|j: int| 0 <= j < persisted.entries@.len() && persisted.entries@[j].0@ == k;
            assert(persisted.entries@[j].0@ == k);
        }
    }
    let ghost alive_keys = merged.view_map().dom();
    let mut j: usize = 0;
    while j < in_memory.entries.len()
        invariant
            in_memory.wf(),
            mv == tree_view(in_memory.view_map()),
            j <= in_memory.entries@.len(),
            merged.wf(),
            forall|k: Seq<char>| #[trigger] alive_keys.contains(k) <==> (pv.dom().contains(k) && alive(pv[k], now, ttl_secs)),
            forall|k: Seq<char>| #[trigger]
                merged.view_map().dom().contains(k) <==> (alive_keys.contains(k) || prefix_keys(in_memory.entries@, j as int).contains(k)),
            forall|k: Seq<char>| #[trigger]
                merged.view_map().dom().contains(k) ==> (if prefix_keys(in_memory.entries@, j as int).contains(k) {
                    node_is(merged.view_map()[k], k, mv[k], if alive_keys.contains(k) {
                        "memory+persisted"@
                    } else {
                        "memory"@
                    })
                } else {
                    node_is(merged.view_map()[k], k, pv[k], "persisted"@)
                }),
        decreases in_memory.entries.len() - j,
    {
        proof {
            crate::assoc::lemma_view_value(in_memory.entries@, j as int);
        }
        let key = &in_memory.entries[j].0;
        let meta = &in_memory.entries[j].1;
        assert(mv[key@] == lineage_view(*meta));
        proof {
            if prefix_keys(in_memory.entries@, j as int).contains(key@) {
                let t = choose|t: int| 0 <= t < j && #[trigger] in_memory.entries@[t].0@ == key@;
                assert(in_memory.entries@[t].0@ != in_memory.entries@[j as int].0@);
            }
        }
        let both = merged.contains_key(key);
        let node = if both {
            node_of(key, meta, "memory+persisted")
        } else {
            node_of(key, meta, "memory")
        };
        merged.insert(key.clone(), node);
        proof {
            assert forall|k: Seq<char>| #[trigger] prefix_keys(in_memory.entries@, j + 1).contains(k) <==> (
                prefix_keys(in_memory.entries@, j as int).contains(k) || k == key@) by {
                if prefix_keys(in_memory.entries@, j + 1).contains(k) && k != key@ {
                    let t = choose|t: int| 0 <= t < j + 1 && #[trigger] in_memory.entries@[t].0@ == k;
                    assert(t < j);
                    assert(prefix_keys(in_memory.entries@, j as int).contains(k));
                }
                if k == key@ {
                    assert(in_memory.entries@[j as int].0@ == k);
                }
                if prefix_keys(in_memory.entries@, j as int).contains(k) {
                    let t = choose|t: int| 0 <= t < j && #[trigger] in_memory.entries@[t].0@ == k;
                    assert(in_memory.entries@[t].0@ == k);
                }
            }
        }
        j += 1;
    }
    proof {
        assert forall|k: Seq<char>| #[trigger] mv.dom().contains(k) implies prefix_keys(in_memory.entries@, j as int).contains(k) by {
            crate::assoc::lemma_view_dom(in_memory.entries@, k);
            let t = choose|t: int| 0 <= t < in_memory.entries@.len() && in_memory.entries@[t].0@ == k;
            assert(in_memory.entries@[t].0@ == k);
        }
        assert forall|k: Seq<char>| #[trigger] prefix_keys(in_memory.entries@, j as int).contains(k) implies mv.dom().contains(k) by {
            let t = choose|t: int| 0 <= t < j && #[trigger] in_memory.entries@[t].0@ == k;
            crate::assoc::lemma_view_value(in_memory.entries@, t);
        }
    }
    let mut out: Vec<GatewaySessionTreeNode> = Vec::new();
    let mut t: usize = 0;
    while t < merged.entries.len()
        invariant
            merged.wf(),
            t <= merged.entries@.len(),
            out@.len() == t,
            forall|a: int| 0 <= a < t ==> #[trigger] out@[a] == merged.entries@[a].1,
        decreases merged.entries.len() - t,
    {
        out.push(merged.entries[t].1.duplicate());
        t += 1;
    }
    proof {
        assert forall|a: int| 0 <= a < out@.len() implies #[trigger] ov(out@[a].session_key) is Some
            && listed(pv, mv, now, ttl_secs, ov(out@[a].session_key)->0, out@[a]) by {
            crate::assoc::lemma_view_value(merged.entries@, a);
            let k = merged.entries@[a].0@;
            assert(merged.view_map().dom().contains(k));
        }
        assert forall|a: int, b: int| 0 <= a < b < out@.len() implies ov(out@[a].session_key) != ov(
            out@[b].session_key,
        ) by {
            crate::assoc::lemma_view_value(merged.entries@, a);
            crate::assoc::lemma_view_value(merged.entries@, b);
            let ka = merged.entries@[a].0@;
            let kb = merged.entries@[b].0@;
            assert(merged.view_map().dom().contains(ka));
            assert(merged.view_map().dom().contains(kb));
            assert(ka != kb);
            assert(ov(out@[a].session_key) == Some(ka));
            assert(ov(out@[b].session_key) == Some(kb));
        }
        assert forall|k: Seq<char>|
            (mv.dom().contains(k) || (pv.dom().contains(k) && alive(pv[k], now, ttl_secs)))
                implies exists|a: int| 0 <= a < out@.len() && #[trigger] ov(out@[a].session_key) == Some(k) by {
            assert(merged.view_map().dom().contains(k));
            crate::assoc::lemma_view_dom(merged.entries@, k);
            let a = choose|a: int| 0 <= a < merged.entries@.len() && merged.entries@[a].0@ == k;
            crate::assoc::lemma_view_value(merged.entries@, a);
            assert(ov(out@[a].session_key) == Some(k));
        }
    }
    out
}

/// The session tree listing for a query: the stored sessions still alive at
/// `now` and the in-memory ones, merged, then filtered, counted, sorted and
/// paged as the query asks (see `session_tree_page`).
pub fn session_tree_snapshot_filtered(
    persisted: &AssocMap<String, SessionLineageMeta>,
    in_memory: &AssocMap<String, SessionLineageMeta>,
    now: i64,
    ttl_secs: u64,
    query: &GatewaySessionTreeQuery,
    active_children_by_parent: AssocMap<String, usize>,
) -> (r: Result<GatewaySessionTreeResponse, String>)
    requires
        persisted.wf(),
        in_memory.wf(),
        forall|k: Seq<char>| #[trigger]
            persisted.view_map().dom().contains(k) ==> i64::MIN <= now
                - persisted.view_map()[k].updated_at <= i64::MAX,
    ensures
        depth_range_invalid(*query) ==> (r matches Err(e) && e@
            == "min_spawn_depth cannot be greater than max_spawn_depth"@),
        !depth_range_invalid(*query) ==> (r matches Ok(resp) && exists|
            merged: Seq<GatewaySessionTreeNode>,
            n: GatewaySessionTreeQuery,
            sorted: Seq<GatewaySessionTreeNode>,
            perm: Seq<int>,
        |
            #[trigger] page_result(resp, merged, *query, active_children_by_parent, n, sorted, perm)
                && forall|i: int|
                0 <= i < merged.len() ==> #[trigger] ov(merged[i].session_key) is Some && listed(
                    tree_view(persisted.view_map()),
                    tree_view(in_memory.view_map()),
                    now,
                    ttl_secs,
                    ov(merged[i].session_key)->0,
                    merged[i],
                )),
{
    if let (Some(min_depth), Some(max_depth)) = (query.min_spawn_depth, query.max_spawn_depth) {
        if min_depth > max_depth {
            return Err(owned("min_spawn_depth cannot be greater than max_spawn_depth"));
        }
    }
    let merged = merge_session_sources(persisted, in_memory, now, ttl_secs);
    let ghost m = merged@;
    let r = session_tree_page(merged, query, active_children_by_parent);
    proof {
        if !depth_range_invalid(*query) {
            let resp = r->Ok_0;
            let (n, sorted, perm) = choose|
                n: GatewaySessionTreeQuery,
                sorted: Seq<GatewaySessionTreeNode>,
                perm: Seq<int>,
            | #[trigger] page_result(resp, m, *query, active_children_by_parent, n, sorted, perm);
            assert(page_result(resp, m, *query, active_children_by_parent, n, sorted, perm));
        }
    }
    r
}

/// Law: lineage resolution is stable. Once a message's lineage is resolved,
/// the same message (from the same agent) resolves again, whatever the
/// stores then say, to the same lineage refreshed to the new time, and the
/// tree keeps it.
pub proof fn lemma_lineage_resolution_is_stable(
    tree: Map<Seq<char>, LineageView>,
    inbound: InboundMessage,
    route_agent_name: Seq<char>,
    stored: Option<LineageView>,
    stored_parent: Option<LineageView>,
    max_spawn_depth: Option<u32>,
    now: i64,
    stored2: Option<LineageView>,
    stored_parent2: Option<LineageView>,
    max_spawn_depth2: Option<u32>,
    now2: i64,
)
    requires
        inbound.session_id is Some,
        lineage_outcome(tree, inbound, route_agent_name, stored, stored_parent, max_spawn_depth, now).0 is Ok,
    ensures
        ({
            let first = lineage_outcome(tree, inbound, route_agent_name, stored, stored_parent, max_spawn_depth, now);
            let v = first.0->Ok_0;
            let key = session_key_spec(inbound.channel, inbound.session_id->0@);
            lineage_outcome(first.1, inbound, route_agent_name, stored2, stored_parent2, max_spawn_depth2, now2)
                == (Ok::<LineageView, Seq<char>>(touched(v, now2)), first.1.insert(key, touched(v, now2)))
        }),
{
    let first = lineage_outcome(tree, inbound, route_agent_name, stored, stored_parent, max_spawn_depth, now);
    let v = first.0->Ok_0;
    let sid = inbound.session_id->0;
    let key = session_key_spec(inbound.channel, sid@);
    let pk = requested_parent_key(inbound);
    let pa = metadata_str_spec(inbound.metadata@, parent_agent_keys());
    let d = metadata_u32_spec(inbound.metadata@, depth_keys());
    assert(first.1.dom().contains(key));
    assert(first.1[key] == v);
    assert(known_mismatch(v, pk, pa, d, route_agent_name, sid@) is None);
    assert(touched(v, now2) == touched(first.1[key], now2));
}

} // verus!
