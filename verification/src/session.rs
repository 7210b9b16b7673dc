//! Session keys and the session tree: filtering, sorting, statistics and
//! paging of the lineage nodes that the gateway tracks per session.
use vstd::prelude::*;
use crate::assoc::AssocMap;
use crate::order::{flip, int_order, lemma_opt_lex, lex_exec, opt_lex, Order3};
use crate::text::{
    ascii_lower_seq, chars_of, contains_chars, lowercase, owned, push_str, seq_contains,
    str_to_lowercase, str_trim, trim_seq,
};

verus! {

/// The chat channels the gateway knows.
#[derive(Debug, Clone, Copy, PartialEq, Eq)]
pub enum ChannelKind {
    Web,
    WebChat,
    Cli,
    Wechat,
    Feishu,
    Lark,
    Dingtalk,
    Telegram,
    Discord,
    Slack,
    Whatsapp,
    Matrix,
    Irc,
    Email,
    Msteams,
}

/// The lower-case name of a channel (its variant name, lower-cased).
pub open spec fn channel_name(c: ChannelKind) -> Seq<char> {
    match c {
        ChannelKind::Web => "web"@,
        ChannelKind::WebChat => "webchat"@,
        ChannelKind::Cli => "cli"@,
        ChannelKind::Wechat => "wechat"@,
        ChannelKind::Feishu => "feishu"@,
        ChannelKind::Lark => "lark"@,
        ChannelKind::Dingtalk => "dingtalk"@,
        ChannelKind::Telegram => "telegram"@,
        ChannelKind::Discord => "discord"@,
        ChannelKind::Slack => "slack"@,
        ChannelKind::Whatsapp => "whatsapp"@,
        ChannelKind::Matrix => "matrix"@,
        ChannelKind::Irc => "irc"@,
        ChannelKind::Email => "email"@,
        ChannelKind::Msteams => "msteams"@,
    }
}

/// The lower-case name of a channel.
pub fn channel_name_str(c: &ChannelKind) -> (r: &'static str)
    ensures
        r@ == channel_name(*c),
{
    match c {
        ChannelKind::Web => "web",
        ChannelKind::WebChat => "webchat",
        ChannelKind::Cli => "cli",
        ChannelKind::Wechat => "wechat",
        ChannelKind::Feishu => "feishu",
        ChannelKind::Lark => "lark",
        ChannelKind::Dingtalk => "dingtalk",
        ChannelKind::Telegram => "telegram",
        ChannelKind::Discord => "discord",
        ChannelKind::Slack => "slack",
        ChannelKind::Whatsapp => "whatsapp",
        ChannelKind::Matrix => "matrix",
        ChannelKind::Irc => "irc",
        ChannelKind::Email => "email",
        ChannelKind::Msteams => "msteams",
    }
}

/// The label of a channel in session listings.
pub fn channel_label(channel: &ChannelKind) -> (r: String)
    ensures
        r@ == channel_name(*channel),
{
    owned(channel_name_str(channel))
}

/// The session key of a session: `channel:session_id`, lower-cased.
pub open spec fn session_key_spec(channel: ChannelKind, session_id: Seq<char>) -> Seq<char> {
    lowercase(channel_name(channel) + ":"@ + session_id)
}

/// The session key of a session: `channel:session_id`, lower-cased.
pub fn session_key(channel: &ChannelKind, session_id: &str) -> (r: String)
    ensures
        r@ == session_key_spec(*channel, session_id@),
{
    let mut s = owned(channel_name_str(channel));
    push_str(&mut s, ":");
    push_str(&mut s, session_id);
    str_to_lowercase(s.as_str())
}

/// Splitting a session key at its first ':' into channel and session id; a
/// key without ':' is all session id.
pub open spec fn split_spec(key: Seq<char>) -> (Option<Seq<char>>, Option<Seq<char>>) {
    match crate::text::find_from(key, ":"@, 0) {
        Some(i) => (Some(key.subrange(0, i)), Some(key.subrange(i + 1, key.len() as int))),
        None => (None, Some(key)),
    }
}

/// Splits a session key into its channel and session id.
pub fn split_session_key(key: &str) -> (r: (Option<String>, Option<String>))
    ensures
        (match r.0 {
            Some(c) => Some(c@),
            None => None,
        }, match r.1 {
            Some(s) => Some(s@),
            None => None,
        }) == split_spec(key@),
{
    let k = chars_of(key);
    let colon = chars_of(":");
    proof {
        reveal_strlit(":");
    }
    match crate::text::find_from_exec(k.as_slice(), colon.as_slice(), 0) {
        Some(i) => {
            proof {
                reveal_strlit(":");
                crate::text::lemma_find_from_some(k@, ":"@, 0);
                assert(":"@.len() == 1);
                assert(colon@ == ":"@);
                assert(crate::text::occurs_at(k@, ":"@, i as int));
                assert(i + 1 <= k@.len());
            }
            assert(i < k.len());
            let j: usize = i + 1;
            let a = crate::text::range_vec(k.as_slice(), 0, i);
            let b = crate::text::range_vec(k.as_slice(), j, k.len());
            (Some(crate::text::string_of(a.as_slice())), Some(crate::text::string_of(b.as_slice())))
        },
        None => (None, Some(owned(key))),
    }
}

/// A node of the session tree.
#[derive(Debug, Clone)]
pub struct GatewaySessionTreeNode {
    pub session_key: Option<String>,
    pub channel: Option<String>,
    pub session_id: Option<String>,
    pub parent_session_key: Option<String>,
    pub parent_agent_id: Option<String>,
    pub agent_name: Option<String>,
    pub spawn_depth: u32,
    pub updated_at: i64,
    pub source: String,
}

/// Filters, ordering and paging of a session tree listing.
#[derive(Debug, Clone, Default)]
pub struct GatewaySessionTreeQuery {
    pub session_id: Option<String>,
    pub session_key: Option<String>,
    pub parent_session_id: Option<String>,
    pub parent_session_key: Option<String>,
    pub agent_name: Option<String>,
    pub parent_agent_id: Option<String>,
    pub channel: Option<String>,
    pub source: Option<String>,
    pub min_spawn_depth: Option<u32>,
    pub max_spawn_depth: Option<u32>,
    pub contains: Option<String>,
    pub case_insensitive: Option<bool>,
    pub cursor: Option<usize>,
    pub offset: Option<usize>,
    pub limit: Option<usize>,
    pub sort_by: Option<String>,
    pub sort_order: Option<String>,
}

/// Statistics over a list of session tree nodes.
#[derive(Debug, Clone, Copy, PartialEq, Eq, Default)]
pub struct GatewaySessionTreeStats {
    pub unique_agents: usize,
    pub unique_parent_agents: usize,
    pub max_spawn_depth: u32,
    pub min_updated_at: i64,
    pub max_updated_at: i64,
}

/// The view of an optional string.
pub open spec fn ov(s: Option<String>) -> Option<Seq<char>> {
    match s {
        Some(v) => Some(v@),
        None => None,
    }
}

/// An optional string's view, or the empty sequence.
pub open spec fn ov_or_empty(s: Option<String>) -> Seq<char> {
    match s {
        Some(v) => v@,
        None => seq![],
    }
}

} // verus!

verus! {

/// An optional string trimmed of surrounding whitespace.
pub open spec fn trim_opt(s: Option<String>) -> Option<Seq<char>> {
    match s {
        Some(v) => Some(trim_seq(v@)),
        None => None,
    }
}

fn trim_opt_exec(s: &Option<String>) -> (r: Option<String>)
    ensures
        ov(r) == trim_opt(*s),
{
    match s {
        Some(v) => Some(owned(str_trim(v.as_str()))),
        None => None,
    }
}

/// An optional choice: trimmed and lower-cased, kept only when it is one of
/// `allowed`.
pub open spec fn choice_opt(s: Option<String>, allowed: Seq<Seq<char>>) -> Option<Seq<char>> {
    match s {
        Some(v) => if allowed.contains(lowercase(trim_seq(v@))) {
            Some(lowercase(trim_seq(v@)))
        } else {
            None
        },
        None => None,
    }
}

/// The sort keys a listing accepts.
pub open spec fn sort_keys() -> Seq<Seq<char>> {
    seq!["updated_at"@, "spawn_depth"@, "session_id"@, "agent_name"@]
}

/// The sort orders a listing accepts.
pub open spec fn sort_orders() -> Seq<Seq<char>> {
    seq!["asc"@, "desc"@]
}

fn in_list(v: &str, a: &str, b: &str, c: &str, d: &str, n: usize) -> (r: bool)
    requires
        n == 2 || n == 4,
    ensures
        r == (if n == 4 {
            seq![a@, b@, c@, d@]
        } else {
            seq![a@, b@]
        }).contains(v@),
{
    let x = chars_of(v);
    let hit = crate::text::chars_eq_str(x.as_slice(), a) || crate::text::chars_eq_str(x.as_slice(), b)
        || (n == 4 && (crate::text::chars_eq_str(x.as_slice(), c) || crate::text::chars_eq_str(
        x.as_slice(),
        d,
    )));
    proof {
        let s = if n == 4 {
            seq![a@, b@, c@, d@]
        } else {
            seq![a@, b@]
        };
        if hit {
            if x@ == a@ {
                assert(s[0] == v@);
            } else if x@ == b@ {
                assert(s[1] == v@);
            } else if x@ == c@ {
                assert(s[2] == v@);
            } else {
                assert(s[3] == v@);
            }
        } else {
            assert forall|i: int| 0 <= i < s.len() implies s[i] != v@ by {}
        }
    }
    hit
}

/// Whether two normalized queries agree on every field.
pub open spec fn query_normalized(n: GatewaySessionTreeQuery, q: GatewaySessionTreeQuery) -> bool {
    &&& ov(n.session_id) == trim_opt(q.session_id)
    &&& ov(n.session_key) == trim_opt(q.session_key)
    &&& ov(n.parent_session_id) == trim_opt(q.parent_session_id)
    &&& ov(n.parent_session_key) == trim_opt(q.parent_session_key)
    &&& ov(n.agent_name) == trim_opt(q.agent_name)
    &&& ov(n.parent_agent_id) == trim_opt(q.parent_agent_id)
    &&& ov(n.channel) == trim_opt(q.channel)
    &&& ov(n.source) == trim_opt(q.source)
    &&& ov(n.contains) == trim_opt(q.contains)
    &&& ov(n.sort_by) == choice_opt(q.sort_by, sort_keys())
    &&& ov(n.sort_order) == choice_opt(q.sort_order, sort_orders())
    &&& n.min_spawn_depth == q.min_spawn_depth
    &&& n.max_spawn_depth == q.max_spawn_depth
    &&& n.case_insensitive == q.case_insensitive
    &&& n.cursor == q.cursor
    &&& n.limit == q.limit
    &&& n.offset == (if q.offset is Some {
        q.offset
    } else {
        q.cursor
    })
}

/// Normalizes a query: text filters trimmed, sort key and order trimmed,
/// lower-cased and dropped unless valid, and a missing offset taken from the
/// cursor.
pub fn normalize_session_tree_query(query: &GatewaySessionTreeQuery) -> (r: GatewaySessionTreeQuery)
    ensures
        query_normalized(r, *query),
{
    let sort_by = match &query.sort_by {
        Some(v) => {
            let l = str_to_lowercase(str_trim(v.as_str()));
            if in_list(l.as_str(), "updated_at", "spawn_depth", "session_id", "agent_name", 4) {
                Some(l)
            } else {
                None
            }
        },
        None => None,
    };
    let sort_order = match &query.sort_order {
        Some(v) => {
            let l = str_to_lowercase(str_trim(v.as_str()));
            if in_list(l.as_str(), "asc", "desc", "", "", 2) {
                Some(l)
            } else {
                None
            }
        },
        None => None,
    };
    let offset = if query.offset.is_some() {
        query.offset
    } else {
        query.cursor
    };
    GatewaySessionTreeQuery {
        session_id: trim_opt_exec(&query.session_id),
        session_key: trim_opt_exec(&query.session_key),
        parent_session_id: trim_opt_exec(&query.parent_session_id),
        parent_session_key: trim_opt_exec(&query.parent_session_key),
        agent_name: trim_opt_exec(&query.agent_name),
        parent_agent_id: trim_opt_exec(&query.parent_agent_id),
        channel: trim_opt_exec(&query.channel),
        source: trim_opt_exec(&query.source),
        min_spawn_depth: query.min_spawn_depth,
        max_spawn_depth: query.max_spawn_depth,
        contains: trim_opt_exec(&query.contains),
        case_insensitive: query.case_insensitive,
        cursor: query.cursor,
        offset,
        limit: query.limit,
        sort_by,
        sort_order,
    }
}

} // verus!

verus! {

/// Whether `actual` is present and equal to `wanted` (ASCII case aside when
/// `ci`).
pub open spec fn text_match(actual: Option<Seq<char>>, wanted: Seq<char>, ci: bool) -> bool {
    match actual {
        Some(a) => if ci {
            ascii_lower_seq(a) == ascii_lower_seq(wanted)
        } else {
            a == wanted
        },
        None => false,
    }
}

/// A filter that is absent passes; a present one must match.
pub open spec fn filter_ok(wanted: Option<String>, actual: Option<Seq<char>>, ci: bool) -> bool {
    match wanted {
        Some(w) => text_match(actual, w@, ci),
        None => true,
    }
}

/// The session id part of a node's parent session key.
pub open spec fn parent_session_id_of(entry: GatewaySessionTreeNode) -> Option<Seq<char>> {
    match entry.parent_session_key {
        Some(k) => split_spec(k@).1,
        None => None,
    }
}

/// The text that a `contains` filter searches: session key, session id,
/// agent name and parent session key, joined by '|'.
pub open spec fn haystack(entry: GatewaySessionTreeNode) -> Seq<char> {
    ov_or_empty(entry.session_key) + "|"@ + ov_or_empty(entry.session_id) + "|"@ + ov_or_empty(
        entry.agent_name,
    ) + "|"@ + ov_or_empty(entry.parent_session_key)
}

/// Whether a node passes every filter of the query (text filters compare
/// ASCII case-insensitively unless the query says otherwise).
pub open spec fn matches_spec(entry: GatewaySessionTreeNode, q: GatewaySessionTreeQuery) -> bool {
    let ci = match q.case_insensitive {
        Some(b) => b,
        None => true,
    };
    &&& filter_ok(q.session_id, ov(entry.session_id), ci)
    &&& filter_ok(q.session_key, ov(entry.session_key), ci)
    &&& filter_ok(q.parent_session_key, ov(entry.parent_session_key), ci)
    &&& filter_ok(q.parent_session_id, parent_session_id_of(entry), ci)
    &&& filter_ok(q.agent_name, ov(entry.agent_name), ci)
    &&& filter_ok(q.parent_agent_id, ov(entry.parent_agent_id), ci)
    &&& filter_ok(q.channel, ov(entry.channel), ci)
    &&& filter_ok(q.source, Some(entry.source@), ci)
    &&& (match q.min_spawn_depth {
        Some(m) => entry.spawn_depth >= m,
        None => true,
    })
    &&& (match q.max_spawn_depth {
        Some(m) => entry.spawn_depth <= m,
        None => true,
    })
    &&& (match q.contains {
        Some(c) => if ci {
            seq_contains(lowercase(haystack(entry)), lowercase(c@))
        } else {
            seq_contains(haystack(entry), c@)
        },
        None => true,
    })
}

fn text_match_exec(actual: &Option<String>, wanted: &str, ci: bool) -> (r: bool)
    ensures
        r == text_match(ov(*actual), wanted@, ci),
{
    match actual {
        Some(a) => {
            let av = chars_of(a.as_str());
            let wv = chars_of(wanted);
            if ci {
                let al = crate::text::ascii_lower_vec(av.as_slice());
                let wl = crate::text::ascii_lower_vec(wv.as_slice());
                crate::text::chars_eq(al.as_slice(), wl.as_slice())
            } else {
                crate::text::chars_eq(av.as_slice(), wv.as_slice())
            }
        },
        None => false,
    }
}

fn filter_ok_exec(wanted: &Option<String>, actual: &Option<String>, ci: bool) -> (r: bool)
    ensures
        r == filter_ok(*wanted, ov(*actual), ci),
{
    match wanted {
        Some(w) => text_match_exec(actual, w.as_str(), ci),
        None => true,
    }
}

fn push_opt(s: &mut String, o: &Option<String>)
    ensures
        final(s)@ == old(s)@ + ov_or_empty(*o),
{
    match o {
        Some(v) => push_str(s, v.as_str()),
        None => {
            assert(old(s)@ + ov_or_empty(*o) =~= old(s)@);
        },
    }
}

/// Whether a node passes every filter of the query.
pub fn match_session_tree_filters(entry: &GatewaySessionTreeNode, query: &GatewaySessionTreeQuery) -> (r:
    bool)
    ensures
        r == matches_spec(*entry, *query),
{
    let ci = match query.case_insensitive {
        Some(b) => b,
        None => true,
    };
    if !filter_ok_exec(&query.session_id, &entry.session_id, ci) {
        return false;
    }
    if !filter_ok_exec(&query.session_key, &entry.session_key, ci) {
        return false;
    }
    if !filter_ok_exec(&query.parent_session_key, &entry.parent_session_key, ci) {
        return false;
    }
    if let Some(parent_session_id) = &query.parent_session_id {
        let actual = match &entry.parent_session_key {
            Some(k) => split_session_key(k.as_str()).1,
            None => None,
        };
        if !text_match_exec(&actual, parent_session_id.as_str(), ci) {
            return false;
        }
    }
    if !filter_ok_exec(&query.agent_name, &entry.agent_name, ci) {
        return false;
    }
    if !filter_ok_exec(&query.parent_agent_id, &entry.parent_agent_id, ci) {
        return false;
    }
    if !filter_ok_exec(&query.channel, &entry.channel, ci) {
        return false;
    }
    if let Some(source) = &query.source {
        if !text_match_exec(&Some(entry.source.clone()), source.as_str(), ci) {
            return false;
        }
    }
    if let Some(min_depth) = query.min_spawn_depth {
        if entry.spawn_depth < min_depth {
            return false;
        }
    }
    if let Some(max_depth) = query.max_spawn_depth {
        if entry.spawn_depth > max_depth {
            return false;
        }
    }
    if let Some(contains) = &query.contains {
        let mut hay = String::new();
        push_opt(&mut hay, &entry.session_key);
        push_str(&mut hay, "|");
        push_opt(&mut hay, &entry.session_id);
        push_str(&mut hay, "|");
        push_opt(&mut hay, &entry.agent_name);
        push_str(&mut hay, "|");
        push_opt(&mut hay, &entry.parent_session_key);
        assert(hay@ =~= haystack(*entry));
        let found = if ci {
            let h = chars_of(str_to_lowercase(hay.as_str()).as_str());
            let c = chars_of(str_to_lowercase(contains.as_str()).as_str());
            contains_chars(h.as_slice(), c.as_slice())
        } else {
            let h = chars_of(hay.as_str());
            let c = chars_of(contains.as_str());
            contains_chars(h.as_slice(), c.as_slice())
        };
        if !found {
            return false;
        }
    }
    true
}

} // verus!

verus! {

/// The distinct agent names (when `parents` is false) or parent agent ids
/// (when true) of a list of nodes.
pub open spec fn name_set(s: Seq<GatewaySessionTreeNode>, parents: bool) -> Set<Seq<char>>
    decreases s.len(),
{
    if s.len() == 0 {
        Set::empty()
    } else {
        let p = name_set(s.drop_last(), parents);
        let field = if parents {
            s.last().parent_agent_id
        } else {
            s.last().agent_name
        };
        match field {
            Some(v) => p.insert(v@),
            None => p,
        }
    }
}

/// The deepest spawn depth of a list (0 when empty).
pub open spec fn max_depth_spec(s: Seq<GatewaySessionTreeNode>) -> u32
    decreases s.len(),
{
    if s.len() == 0 {
        0
    } else {
        let p = max_depth_spec(s.drop_last());
        if s.last().spawn_depth > p {
            s.last().spawn_depth
        } else {
            p
        }
    }
}

/// The earliest update time of a list (`i64::MAX` when empty).
pub open spec fn min_updated_spec(s: Seq<GatewaySessionTreeNode>) -> i64
    decreases s.len(),
{
    if s.len() == 0 {
        i64::MAX
    } else {
        let p = min_updated_spec(s.drop_last());
        if s.last().updated_at < p {
            s.last().updated_at
        } else {
            p
        }
    }
}

/// The latest update time of a list (`i64::MIN` when empty).
pub open spec fn max_updated_spec(s: Seq<GatewaySessionTreeNode>) -> i64
    decreases s.len(),
{
    if s.len() == 0 {
        i64::MIN
    } else {
        let p = max_updated_spec(s.drop_last());
        if s.last().updated_at > p {
            s.last().updated_at
        } else {
            p
        }
    }
}

/// The statistics of a list of nodes: all zero when it is empty.
pub open spec fn stats_spec(s: Seq<GatewaySessionTreeNode>) -> GatewaySessionTreeStats {
    if s.len() == 0 {
        GatewaySessionTreeStats {
            unique_agents: 0,
            unique_parent_agents: 0,
            max_spawn_depth: 0,
            min_updated_at: 0,
            max_updated_at: 0,
        }
    } else {
        GatewaySessionTreeStats {
            unique_agents: name_set(s, false).len() as usize,
            unique_parent_agents: name_set(s, true).len() as usize,
            max_spawn_depth: max_depth_spec(s),
            min_updated_at: min_updated_spec(s),
            max_updated_at: max_updated_spec(s),
        }
    }
}

/// Adds `name` to a list of distinct names unless it is already there.
fn add_distinct(names: &mut Vec<String>, name: &String)
    requires
        crate::text::strings_view(old(names)@).no_duplicates(),
    ensures
        crate::text::strings_view(final(names)@).no_duplicates(),
        crate::text::strings_view(final(names)@).to_set() == crate::text::strings_view(
            old(names)@,
        ).to_set().insert(name@),
        final(names)@.len() <= old(names)@.len() + 1,
{
    let ghost before = crate::text::strings_view(names@);
    if !crate::text::strings_contain(names, name) {
        names.push(name.clone());
        assert(crate::text::strings_view(names@) =~= before.push(name@));
        assert forall|x: Seq<char>| #[trigger] before.push(name@).contains(x) <==> before.contains(x)
            || x == name@ by {
            if before.contains(x) {
                let j = choose|j: int| 0 <= j < before.len() && before[j] == x;
                assert(before.push(name@)[j] == x);
            }
            if x == name@ {
                assert(before.push(name@)[before.len() as int] == x);
            }
            if before.push(name@).contains(x) && x != name@ {
                let j = choose|j: int| 0 <= j < before.push(name@).len() && before.push(name@)[j] == x;
                assert(before[j] == x);
            }
        }
        assert(before.push(name@).to_set() =~= before.to_set().insert(name@));
    } else {
        assert(before.to_set() =~= before.to_set().insert(name@));
    }
}

/// Statistics over a list of nodes: distinct agents and parent agents, the
/// deepest spawn depth and the update time range.
pub fn compute_session_tree_stats(entries: &[GatewaySessionTreeNode]) -> (r: GatewaySessionTreeStats)
    ensures
        r == stats_spec(entries@),
{
    if entries.len() == 0 {
        return GatewaySessionTreeStats {
            unique_agents: 0,
            unique_parent_agents: 0,
            max_spawn_depth: 0,
            min_updated_at: 0,
            max_updated_at: 0,
        };
    }
    let mut agents: Vec<String> = Vec::new();
    let mut parents: Vec<String> = Vec::new();
    let mut max_spawn_depth: u32 = 0;
    let mut min_updated_at: i64 = i64::MAX;
    let mut max_updated_at: i64 = i64::MIN;
    let mut i: usize = 0;
    assert(crate::text::strings_view(agents@) =~= Seq::<Seq<char>>::empty());
    assert(crate::text::strings_view(parents@) =~= Seq::<Seq<char>>::empty());
    assert(Seq::<Seq<char>>::empty().to_set() =~= Set::<Seq<char>>::empty());
    while i < entries.len()
        invariant
            i <= entries.len(),
            crate::text::strings_view(agents@).no_duplicates(),
            crate::text::strings_view(parents@).no_duplicates(),
            crate::text::strings_view(agents@).to_set() == name_set(entries@.subrange(0, i as int), false),
            crate::text::strings_view(parents@).to_set() == name_set(entries@.subrange(0, i as int), true),
            agents@.len() <= i,
            parents@.len() <= i,
            max_spawn_depth == max_depth_spec(entries@.subrange(0, i as int)),
            min_updated_at == min_updated_spec(entries@.subrange(0, i as int)),
            max_updated_at == max_updated_spec(entries@.subrange(0, i as int)),
        decreases entries.len() - i,
    {
        let e = &entries[i];
        assert(entries@.subrange(0, i + 1).drop_last() =~= entries@.subrange(0, i as int));
        assert(entries@.subrange(0, i + 1).last() == entries@[i as int]);
        if let Some(a) = &e.agent_name {
            add_distinct(&mut agents, a);
        }
        if let Some(p) = &e.parent_agent_id {
            add_distinct(&mut parents, p);
        }
        if e.spawn_depth > max_spawn_depth {
            max_spawn_depth = e.spawn_depth;
        }
        if e.updated_at < min_updated_at {
            min_updated_at = e.updated_at;
        }
        if e.updated_at > max_updated_at {
            max_updated_at = e.updated_at;
        }
        i += 1;
    }
    assert(entries@.subrange(0, entries.len() as int) =~= entries@);
    proof {
        crate::text::strings_view(agents@).unique_seq_to_set();
        crate::text::strings_view(parents@).unique_seq_to_set();
    }
    GatewaySessionTreeStats {
        unique_agents: agents.len(),
        unique_parent_agents: parents.len(),
        max_spawn_depth,
        min_updated_at,
        max_updated_at,
    }
}

} // verus!

verus! {

/// How many nodes of the list come from each source.
pub open spec fn source_counts(s: Seq<GatewaySessionTreeNode>) -> Map<Seq<char>, nat>
    decreases s.len(),
{
    if s.len() == 0 {
        Map::empty()
    } else {
        let m = source_counts(s.drop_last());
        let k = s.last().source@;
        m.insert(
            k,
            if m.dom().contains(k) {
                m[k] + 1
            } else {
                1
            },
        )
    }
}

/// Lemma: no source is counted more often than the list is long.
pub proof fn lemma_source_counts_bound(s: Seq<GatewaySessionTreeNode>)
    ensures
        forall|k: Seq<char>| #[trigger] source_counts(s).dom().contains(k) ==> source_counts(s)[k] <= s.len(),
    decreases s.len(),
{
    if s.len() > 0 {
        lemma_source_counts_bound(s.drop_last());
        let m = source_counts(s.drop_last());
        assert forall|k: Seq<char>| #[trigger] source_counts(s).dom().contains(k) implies source_counts(
            s,
        )[k] <= s.len() by {
            if k != s.last().source@ {
                assert(m.dom().contains(k));
            }
        }
    }
}

/// Counts the nodes of each source.
pub fn count_session_sources(entries: &[GatewaySessionTreeNode]) -> (r: AssocMap<String, usize>)
    ensures
        r.wf(),
        r.view_map().dom() == source_counts(entries@).dom(),
        forall|k: Seq<char>|
            #[trigger] r.view_map().dom().contains(k) ==> r.view_map()[k] as nat == source_counts(
                entries@,
            )[k],
{
    let mut counts: AssocMap<String, usize> = AssocMap::new();
    let mut i: usize = 0;
    while i < entries.len()
        invariant
            i <= entries.len(),
            counts.wf(),
            counts.view_map().dom() == source_counts(entries@.subrange(0, i as int)).dom(),
            forall|k: Seq<char>|
                #[trigger] counts.view_map().dom().contains(k) ==> counts.view_map()[k] as nat
                    == source_counts(entries@.subrange(0, i as int))[k],
        decreases entries.len() - i,
    {
        let ghost prefix = entries@.subrange(0, i as int);
        assert(entries@.subrange(0, i + 1).drop_last() =~= prefix);
        assert(entries@.subrange(0, i + 1).last() == entries@[i as int]);
        proof {
            lemma_source_counts_bound(prefix);
        }
        let key = entries[i].source.clone();
        let n: usize = match counts.get(&key) {
            Some(c) => *c,
            None => 0,
        };
        counts.insert(key, n + 1);
        assert(counts.view_map().dom() =~= source_counts(entries@.subrange(0, i + 1)).dom());
        i += 1;
    }
    assert(entries@.subrange(0, entries.len() as int) =~= entries@);
    counts
}

} // verus!

verus! {

/// The field a listing sorts by (`updated_at` unless another is named).
pub open spec fn sort_key_of(q: GatewaySessionTreeQuery) -> Seq<char> {
    match q.sort_by {
        Some(v) => v@,
        None => "updated_at"@,
    }
}

/// Whether a listing sorts in ascending order (only when it says `asc`).
pub open spec fn ascending(q: GatewaySessionTreeQuery) -> bool {
    q.sort_order matches Some(v) && v@ == "asc"@
}

/// Comparison of two nodes by a sort field: spawn depth, session id, agent
/// name, or (for any other field) update time.
pub open spec fn node_order(a: GatewaySessionTreeNode, b: GatewaySessionTreeNode, key: Seq<char>) -> Order3 {
    if key == "spawn_depth"@ {
        int_order(a.spawn_depth as int, b.spawn_depth as int)
    } else if key == "session_id"@ {
        opt_lex(ov(a.session_id), ov(b.session_id))
    } else if key == "agent_name"@ {
        opt_lex(ov(a.agent_name), ov(b.agent_name))
    } else {
        int_order(a.updated_at as int, b.updated_at as int)
    }
}

/// Whether `a` must come strictly before `b` in the listing.
pub open spec fn goes_before(
    a: GatewaySessionTreeNode,
    b: GatewaySessionTreeNode,
    key: Seq<char>,
    asc: bool,
) -> bool {
    if asc {
        node_order(a, b, key) == Order3::Less
    } else {
        node_order(a, b, key) == Order3::Greater
    }
}

/// No node comes strictly before an earlier one.
pub open spec fn sorted_by(s: Seq<GatewaySessionTreeNode>, key: Seq<char>, asc: bool) -> bool {
    forall|i: int, j: int| 0 <= i < j < s.len() ==> !goes_before(s[j], s[i], key, asc)
}

/// `dst` is `src` stably sorted, `perm` giving each position's origin: a
/// permutation, in order, and keeping the input order of ties.
pub open spec fn stable_sort_of(
    src: Seq<GatewaySessionTreeNode>,
    dst: Seq<GatewaySessionTreeNode>,
    perm: Seq<int>,
    key: Seq<char>,
    asc: bool,
) -> bool {
    &&& perm.len() == src.len() == dst.len()
    &&& forall|i: int| 0 <= i < perm.len() ==> 0 <= #[trigger] perm[i] < src.len()
    &&& forall|i: int| 0 <= i < perm.len() ==> #[trigger] dst[i] == src[perm[i]]
    &&& forall|i: int, j: int| 0 <= i < j < perm.len() ==> perm[i] != perm[j]
    &&& sorted_by(dst, key, asc)
    &&& forall|i: int, j: int|
        0 <= i < j < dst.len() && node_order(dst[i], dst[j], key) == Order3::Equal ==> perm[i]
            < perm[j]
}

/// Lemma: comparing nodes by a field is a total preorder.
pub proof fn lemma_node_order(
    a: GatewaySessionTreeNode,
    b: GatewaySessionTreeNode,
    c: GatewaySessionTreeNode,
    key: Seq<char>,
)
    ensures
        node_order(a, a, key) == Order3::Equal,
        node_order(a, b, key) == flip(node_order(b, a, key)),
        node_order(a, b, key) == Order3::Less && node_order(b, c, key) == Order3::Less ==> node_order(
            a,
            c,
            key,
        ) == Order3::Less,
        node_order(a, b, key) == Order3::Equal ==> node_order(a, c, key) == node_order(b, c, key),
{
    lemma_opt_lex(ov(a.session_id), ov(b.session_id), ov(c.session_id));
    lemma_opt_lex(ov(a.agent_name), ov(b.agent_name), ov(c.agent_name));
    lemma_opt_lex(ov(a.session_id), ov(a.session_id), ov(a.session_id));
    lemma_opt_lex(ov(a.agent_name), ov(a.agent_name), ov(a.agent_name));
}

/// Lemma: `goes_before` is irreflexive and transitive, and ties can be swapped.
pub proof fn lemma_goes_before(
    a: GatewaySessionTreeNode,
    b: GatewaySessionTreeNode,
    c: GatewaySessionTreeNode,
    key: Seq<char>,
    asc: bool,
)
    ensures
        !goes_before(a, a, key, asc),
        goes_before(a, b, key, asc) && goes_before(b, c, key, asc) ==> goes_before(a, c, key, asc),
        node_order(a, b, key) == Order3::Equal && goes_before(a, c, key, asc) ==> goes_before(
            b,
            c,
            key,
            asc,
        ),
        goes_before(a, b, key, asc) ==> node_order(a, b, key) != Order3::Equal,
{
    lemma_node_order(a, b, c, key);
    lemma_node_order(c, b, a, key);
    lemma_node_order(b, c, a, key);
    lemma_node_order(a, c, b, key);
}

fn opt_chars(s: &Option<String>) -> (r: Option<Vec<char>>)
    ensures
        match r {
            Some(v) => ov(*s) == Some(v@),
            None => ov(*s) is None,
        },
{
    match s {
        Some(v) => Some(chars_of(v.as_str())),
        None => None,
    }
}

fn opt_lex_exec(a: &Option<String>, b: &Option<String>) -> (r: Order3)
    ensures
        r == opt_lex(ov(*a), ov(*b)),
{
    match (opt_chars(a), opt_chars(b)) {
        (None, None) => Order3::Equal,
        (None, Some(_)) => Order3::Less,
        (Some(_), None) => Order3::Greater,
        (Some(x), Some(y)) => lex_exec(x.as_slice(), y.as_slice()),
    }
}

fn int_order_i64(a: i64, b: i64) -> (r: Order3)
    ensures
        r == int_order(a as int, b as int),
{
    if a < b {
        Order3::Less
    } else if a > b {
        Order3::Greater
    } else {
        Order3::Equal
    }
}

/// Which field a sort key names: 1 spawn depth, 2 session id, 3 agent name,
/// 0 update time.
fn key_code(key: &str) -> (r: u8)
    ensures
        r == 1 <==> key@ == "spawn_depth"@,
        r == 2 <==> key@ != "spawn_depth"@ && key@ == "session_id"@,
        r == 3 <==> key@ != "spawn_depth"@ && key@ != "session_id"@ && key@ == "agent_name"@,
        r == 0 <==> key@ != "spawn_depth"@ && key@ != "session_id"@ && key@ != "agent_name"@,
{
    let k = chars_of(key);
    if crate::text::chars_eq_str(k.as_slice(), "spawn_depth") {
        1
    } else if crate::text::chars_eq_str(k.as_slice(), "session_id") {
        2
    } else if crate::text::chars_eq_str(k.as_slice(), "agent_name") {
        3
    } else {
        0
    }
}

fn node_order_exec(a: &GatewaySessionTreeNode, b: &GatewaySessionTreeNode, code: u8, key: Ghost<Seq<char>>) -> (r: Order3)
    requires
        code == 1 <==> key@ == "spawn_depth"@,
        code == 2 <==> key@ != "spawn_depth"@ && key@ == "session_id"@,
        code == 3 <==> key@ != "spawn_depth"@ && key@ != "session_id"@ && key@ == "agent_name"@,
        code == 0 <==> key@ != "spawn_depth"@ && key@ != "session_id"@ && key@ != "agent_name"@,
    ensures
        r == node_order(*a, *b, key@),
{
    if code == 1 {
        int_order_i64(a.spawn_depth as i64, b.spawn_depth as i64)
    } else if code == 2 {
        opt_lex_exec(&a.session_id, &b.session_id)
    } else if code == 3 {
        opt_lex_exec(&a.agent_name, &b.agent_name)
    } else {
        int_order_i64(a.updated_at, b.updated_at)
    }
}

impl GatewaySessionTreeNode {
    /// An equal copy.
    pub fn duplicate(&self) -> (r: Self)
        ensures
            r == *self,
    {
        GatewaySessionTreeNode {
            session_key: crate::wecom_card::dup_opt_string(&self.session_key),
            channel: crate::wecom_card::dup_opt_string(&self.channel),
            session_id: crate::wecom_card::dup_opt_string(&self.session_id),
            parent_session_key: crate::wecom_card::dup_opt_string(&self.parent_session_key),
            parent_agent_id: crate::wecom_card::dup_opt_string(&self.parent_agent_id),
            agent_name: crate::wecom_card::dup_opt_string(&self.agent_name),
            spawn_depth: self.spawn_depth,
            updated_at: self.updated_at,
            source: self.source.clone(),
        }
    }
}

/// Sorts the entries stably by the query's sort field, in descending order
/// unless the query asks for `asc`.
pub fn sort_session_tree_entries(entries: &mut Vec<GatewaySessionTreeNode>, query: &GatewaySessionTreeQuery)
    ensures
        exists|perm: Seq<int>|
            stable_sort_of(
                old(entries)@,
                final(entries)@,
                perm,
                sort_key_of(*query),
                ascending(*query),
            ),
{
    let key_str: &str = match &query.sort_by {
        Some(v) => v.as_str(),
        None => "updated_at",
    };
    let ghost key = sort_key_of(*query);
    assert(key_str@ == key);
    let code = key_code(key_str);
    let asc = match &query.sort_order {
        Some(v) => {
            let c = chars_of(v.as_str());
            crate::text::chars_eq_str(c.as_slice(), "asc")
        },
        None => false,
    };
    assert(asc == ascending(*query));
    let ghost src = entries@;
    let mut out: Vec<GatewaySessionTreeNode> = Vec::new();
    let ghost mut perm: Seq<int> = Seq::empty();
    let mut k: usize = 0;
    while k < entries.len()
        invariant
            src == entries@,
            k <= entries.len(),
            out@.len() == k,
            perm.len() == k,
            code == 1 <==> key == "spawn_depth"@,
            code == 2 <==> key != "spawn_depth"@ && key == "session_id"@,
            code == 3 <==> key != "spawn_depth"@ && key != "session_id"@ && key == "agent_name"@,
            code == 0 <==> key != "spawn_depth"@ && key != "session_id"@ && key != "agent_name"@,
            forall|i: int| 0 <= i < perm.len() ==> 0 <= #[trigger] perm[i] < k,
            forall|i: int| 0 <= i < perm.len() ==> #[trigger] out@[i] == src[perm[i]],
            forall|i: int, j: int| 0 <= i < j < perm.len() ==> perm[i] != perm[j],
            sorted_by(out@, key, asc),
            forall|i: int, j: int|
                0 <= i < j < out@.len() && node_order(out@[i], out@[j], key) == Order3::Equal
                    ==> perm[i] < perm[j],
        decreases entries.len() - k,
    {
        let x = entries[k].duplicate();
        let mut pos: usize = 0;
        while pos < out.len()
            invariant
                pos <= out.len(),
                code == 1 <==> key == "spawn_depth"@,
                code == 2 <==> key != "spawn_depth"@ && key == "session_id"@,
                code == 3 <==> key != "spawn_depth"@ && key != "session_id"@ && key == "agent_name"@,
                code == 0 <==> key != "spawn_depth"@ && key != "session_id"@ && key != "agent_name"@,
                forall|q: int| 0 <= q < pos ==> !goes_before(x, #[trigger] out@[q], key, asc),
            ensures
                pos <= out.len(),
                forall|q: int| 0 <= q < pos ==> !goes_before(x, #[trigger] out@[q], key, asc),
                pos < out.len() ==> goes_before(x, out@[pos as int], key, asc),
            decreases out.len() - pos,
        {
            let o = node_order_exec(&x, &out[pos], code, Ghost(key));
            let before = if asc {
                o == Order3::Less
            } else {
                o == Order3::Greater
            };
            if before {
                break ;
            }
            pos += 1;
        }
        let ghost old_out = out@;
        let ghost old_perm = perm;
        let ghost found = pos < out.len();
        assert(found ==> goes_before(x, old_out[pos as int], key, asc));
        out.insert(pos, x);
        proof {
            perm = old_perm.insert(pos as int, k as int);
            let new_out = out@;
            assert(new_out == old_out.insert(pos as int, x));
            assert forall|i: int| 0 <= i < perm.len() implies 0 <= #[trigger] perm[i] < k + 1 by {
                if i < pos {
                    assert(perm[i] == old_perm[i]);
                } else if i > pos {
                    assert(perm[i] == old_perm[i - 1]);
                }
            }
            assert forall|i: int| 0 <= i < perm.len() implies #[trigger] new_out[i] == src[perm[i]] by {
                if i < pos {
                    assert(new_out[i] == old_out[i] && perm[i] == old_perm[i]);
                } else if i > pos {
                    assert(new_out[i] == old_out[i - 1] && perm[i] == old_perm[i - 1]);
                }
            }
            assert forall|i: int, j: int| 0 <= i < j < perm.len() implies perm[i] != perm[j] by {
                let oi = if i < pos { i } else { i - 1 };
                let oj = if j < pos { j } else { j - 1 };
                if i != pos && j != pos {
                    assert(perm[i] == old_perm[oi] && perm[j] == old_perm[oj]);
                } else if i == pos {
                    assert(perm[j] == old_perm[oj]);
                } else {
                    assert(perm[i] == old_perm[oi]);
                }
            }
            assert forall|i: int, j: int| 0 <= i < j < new_out.len() implies !goes_before(
                new_out[j],
                new_out[i],
                key,
                asc,
            ) by {
                let oi = if i < pos { i } else { i - 1 };
                let oj = if j < pos { j } else { j - 1 };
                if i != pos && j != pos {
                    assert(new_out[i] == old_out[oi] && new_out[j] == old_out[oj]);
                } else if j == pos {
                    assert(new_out[i] == old_out[i]);
                    assert(!goes_before(x, old_out[i], key, asc));
                } else {
                    assert(new_out[j] == old_out[oj]);
                    let y = old_out[oj];
                    let z = old_out[pos as int];
                    lemma_goes_before(y, x, z, key, asc);
                    lemma_goes_before(z, z, z, key, asc);
                }
            }
            assert forall|i: int, j: int|
                0 <= i < j < new_out.len() && node_order(new_out[i], new_out[j], key)
                    == Order3::Equal implies perm[i] < perm[j] by {
                let oi = if i < pos { i } else { i - 1 };
                let oj = if j < pos { j } else { j - 1 };
                if i != pos && j != pos {
                    assert(new_out[i] == old_out[oi] && new_out[j] == old_out[oj]);
                    assert(perm[i] == old_perm[oi] && perm[j] == old_perm[oj]);
                } else if j == pos {
                    assert(perm[i] == old_perm[i]);
                } else {
                    assert(new_out[j] == old_out[oj]);
                    let y = old_out[oj];
                    let z = old_out[pos as int];
                    lemma_goes_before(x, y, z, key, asc);
                    lemma_goes_before(y, z, z, key, asc);
                }
            }
        }
        k += 1;
    }
    assert(stable_sort_of(src, out@, perm, key, asc));
    *entries = out;
    assert(stable_sort_of(old(entries)@, entries@, perm, key, asc));
}

} // verus!

verus! {

/// The nodes that pass a query's filters, in order.
pub open spec fn filter_nodes(s: Seq<GatewaySessionTreeNode>, q: GatewaySessionTreeQuery) -> Seq<
    GatewaySessionTreeNode,
>
    decreases s.len(),
{
    if s.len() == 0 {
        seq![]
    } else {
        let p = filter_nodes(s.drop_last(), q);
        if matches_spec(s.last(), q) {
            p.push(s.last())
        } else {
            p
        }
    }
}

/// Keeps the nodes that pass the query's filters.
pub fn filter_session_tree_entries(
    entries: Vec<GatewaySessionTreeNode>,
    query: &GatewaySessionTreeQuery,
) -> (r: Vec<GatewaySessionTreeNode>)
    ensures
        r@ == filter_nodes(entries@, *query),
{
    let mut out: Vec<GatewaySessionTreeNode> = Vec::new();
    let mut i: usize = 0;
    while i < entries.len()
        invariant
            i <= entries@.len(),
            out@ == filter_nodes(entries@.take(i as int), *query),
        decreases entries.len() - i,
    {
        assert(entries@.take(i + 1).drop_last() =~= entries@.take(i as int));
        if match_session_tree_filters(&entries[i], query) {
            out.push(entries[i].duplicate());
        }
        i += 1;
    }
    assert(entries@.take(i as int) =~= entries@);
    out
}

/// A session tree listing page.
pub struct GatewaySessionTreeResponse {
    pub sessions: Vec<GatewaySessionTreeNode>,
    pub active_children_by_parent: AssocMap<String, usize>,
    pub total_before_filter: usize,
    pub total_after_filter: usize,
    pub returned: usize,
    pub offset: usize,
    pub limit: Option<usize>,
    pub has_more: bool,
    pub next_offset: Option<usize>,
    pub prev_offset: Option<usize>,
    pub next_cursor: Option<usize>,
    pub prev_cursor: Option<usize>,
    pub source_counts_after_filter: AssocMap<String, usize>,
    pub stats_after_filter: GatewaySessionTreeStats,
}

/// Whether a query asks for a minimum depth above its maximum depth.
pub open spec fn depth_range_invalid(q: GatewaySessionTreeQuery) -> bool {
    q.min_spawn_depth matches Some(a) && q.max_spawn_depth matches Some(b) && a > b
}

/// The paging numbers of a page: `offset` into `total` filtered nodes, with
/// `returned` nodes shown.
pub open spec fn paging_ok(r: GatewaySessionTreeResponse, total: nat, limit: Option<usize>) -> bool {
    let off = r.offset as int;
    &&& r.returned == r.sessions@.len()
    &&& r.returned as int == (if off >= total {
        0
    } else {
        match limit {
            Some(l) => if total - off < l {
                total - off
            } else {
                l as int
            },
            None => total - off,
        }
    })
    &&& r.has_more == (off + r.returned < total)
    &&& r.next_offset == (if r.has_more {
        Some((off + r.returned) as usize)
    } else {
        None
    })
    &&& r.prev_offset == (if off > 0 {
        Some(
            (if off > (match limit {
                Some(l) => l,
                None => r.offset,
            }) {
                off - (match limit {
                    Some(l) => l,
                    None => r.offset,
                })
            } else {
                0
            }) as usize,
        )
    } else {
        None
    })
    &&& r.next_cursor == r.next_offset
    &&& r.prev_cursor == r.prev_offset
    &&& r.limit == limit
}

/// What a page holds for the normalized query `n`, with the filtered nodes
/// sorted into `sorted` by the permutation `perm`.
pub open spec fn page_result(
    resp: GatewaySessionTreeResponse,
    sessions: Seq<GatewaySessionTreeNode>,
    query: GatewaySessionTreeQuery,
    active_children_by_parent: AssocMap<String, usize>,
    n: GatewaySessionTreeQuery,
    sorted: Seq<GatewaySessionTreeNode>,
    perm: Seq<int>,
) -> bool {
    let f = filter_nodes(sessions, n);
    &&& query_normalized(n, query)
    &&& resp.total_before_filter == sessions.len()
    &&& resp.total_after_filter == f.len()
    &&& resp.stats_after_filter == stats_spec(f)
    &&& resp.source_counts_after_filter.wf()
    &&& resp.source_counts_after_filter.view_map().dom() == source_counts(f).dom()
    &&& forall|k: Seq<char>| #[trigger]
        resp.source_counts_after_filter.view_map().dom().contains(k)
            ==> resp.source_counts_after_filter.view_map()[k] as nat == source_counts(f)[k]
    &&& stable_sort_of(f, sorted, perm, sort_key_of(n), ascending(n))
    &&& resp.offset == (match n.offset {
        Some(o) => o,
        None => 0,
    })
    &&& resp.sessions@ == sorted.skip(resp.offset as int).take(resp.returned as int)
    &&& paging_ok(resp, f.len(), n.limit)
    &&& resp.active_children_by_parent == active_children_by_parent
}

/// One page of the session tree: the query normalized, the nodes filtered,
/// counted by source, summarized, sorted (stably) and cut at the offset
/// (the cursor when no offset is given) and the limit. A minimum depth above
/// the maximum depth is refused.
pub fn session_tree_page(
    sessions: Vec<GatewaySessionTreeNode>,
    query: &GatewaySessionTreeQuery,
    active_children_by_parent: AssocMap<String, usize>,
) -> (r: Result<GatewaySessionTreeResponse, String>)
    ensures
        depth_range_invalid(*query) ==> (r matches Err(e) && e@
            == "min_spawn_depth cannot be greater than max_spawn_depth"@),
        !depth_range_invalid(*query) ==> (r matches Ok(resp) && exists|
            n: GatewaySessionTreeQuery,
            sorted: Seq<GatewaySessionTreeNode>,
            perm: Seq<int>,
        |
            #[trigger] page_result(resp, sessions@, *query, active_children_by_parent, n, sorted, perm)),
{
    let nq = normalize_session_tree_query(query);
    let ghost active = active_children_by_parent;
    if let (Some(min_depth), Some(max_depth)) = (nq.min_spawn_depth, nq.max_spawn_depth) {
        if min_depth > max_depth {
            return Err(owned("min_spawn_depth cannot be greater than max_spawn_depth"));
        }
    }
    let total_before_filter = sessions.len();
    let ghost before = sessions@;
    let mut sessions = filter_session_tree_entries(sessions, &nq);
    let ghost f = sessions@;
    let total_after_filter = sessions.len();
    let source_counts_after_filter = count_session_sources(sessions.as_slice());
    let stats_after_filter = compute_session_tree_stats(sessions.as_slice());
    sort_session_tree_entries(&mut sessions, &nq);
    let ghost sorted = sessions@;
    let offset: usize = match nq.offset {
        Some(o) => o,
        None => 0,
    };
    let page = page_of(&sessions, offset, nq.limit);
    let returned = page.len();
    let has_more = offset < total_after_filter && returned < total_after_filter - offset;
    let next_offset = if has_more {
        Some(offset + returned)
    } else {
        None
    };
    let back: usize = match nq.limit {
        Some(l) => l,
        None => offset,
    };
    let prev_offset = if offset > 0 {
        Some(
            if offset > back {
                offset - back
            } else {
                0
            },
        )
    } else {
        None
    };
    let resp = GatewaySessionTreeResponse {
        sessions: page,
        active_children_by_parent,
        total_before_filter,
        total_after_filter,
        returned,
        offset,
        limit: nq.limit,
        has_more,
        next_offset,
        prev_offset,
        next_cursor: next_offset,
        prev_cursor: prev_offset,
        source_counts_after_filter,
        stats_after_filter,
    };
    proof {
        let perm = choose|perm: Seq<int>|
            stable_sort_of(f, sorted, perm, sort_key_of(nq), ascending(nq));
        assert(page_result(resp, before, *query, active, nq, sorted, perm));
    }
    Ok(resp)
}

/// The nodes from `offset` on, at most `limit` of them.
fn page_of(s: &Vec<GatewaySessionTreeNode>, offset: usize, limit: Option<usize>) -> (r: Vec<
    GatewaySessionTreeNode,
>)
    ensures
        r@ == s@.skip(offset as int).take(r@.len() as int),
        r@.len() == (if offset >= s@.len() {
            0
        } else {
            match limit {
                Some(l) => if s@.len() - offset < l {
                    s@.len() - offset
                } else {
                    l as int
                },
                None => s@.len() - offset,
            }
        }),
{
    let mut out: Vec<GatewaySessionTreeNode> = Vec::new();
    if offset >= s.len() {
        return out;
    }
    let avail = s.len() - offset;
    let n = match limit {
        Some(l) => if avail < l {
            avail
        } else {
            l
        },
        None => avail,
    };
    let len = s.len();
    let mut i: usize = 0;
    while i < n
        invariant
            len == s@.len(),
            n <= s@.len() - offset,
            offset < s@.len(),
            i <= n,
            out@ == s@.skip(offset as int).take(i as int),
        decreases n - i,
    {
        assert(offset + i < s@.len());
        out.push(s[offset + i].duplicate());
        assert(out@ =~= s@.skip(offset as int).take(i + 1));
        i += 1;
    }
    out
}

/// Law: a node deeper than the query's maximum spawn depth, or shallower
/// than its minimum, never passes the filters.
pub proof fn lemma_depth_bounds_filter_out(entry: GatewaySessionTreeNode, q: GatewaySessionTreeQuery)
    ensures
        q.max_spawn_depth matches Some(m) && entry.spawn_depth > m ==> !matches_spec(entry, q),
        q.min_spawn_depth matches Some(m) && entry.spawn_depth < m ==> !matches_spec(entry, q),
{
}

/// Every node the filter keeps passes the filters.
pub proof fn lemma_filter_nodes_match(s: Seq<GatewaySessionTreeNode>, q: GatewaySessionTreeQuery)
    ensures
        forall|j: int| 0 <= j < filter_nodes(s, q).len() ==> matches_spec(#[trigger] filter_nodes(s, q)[j], q),
    decreases s.len(),
{
    if s.len() > 0 {
        lemma_filter_nodes_match(s.drop_last(), q);
        let p = filter_nodes(s.drop_last(), q);
        if matches_spec(s.last(), q) {
            assert forall|j: int| 0 <= j < p.push(s.last()).len() implies matches_spec(
                #[trigger] p.push(s.last())[j],
                q,
            ) by {
                if j < p.len() {
                    assert(p.push(s.last())[j] == p[j]);
                }
            }
        }
    }
}

/// Law: every node of a listed page lies within the query's spawn depth
/// bounds: none deeper than `max_spawn_depth`, none shallower than
/// `min_spawn_depth`.
pub proof fn lemma_page_within_depth_bounds(
    resp: GatewaySessionTreeResponse,
    sessions: Seq<GatewaySessionTreeNode>,
    query: GatewaySessionTreeQuery,
    active_children_by_parent: AssocMap<String, usize>,
    n: GatewaySessionTreeQuery,
    sorted: Seq<GatewaySessionTreeNode>,
    perm: Seq<int>,
)
    requires
        page_result(resp, sessions, query, active_children_by_parent, n, sorted, perm),
    ensures
        forall|i: int|
            0 <= i < resp.sessions@.len() ==> (query.max_spawn_depth matches Some(m) ==> (
            #[trigger] resp.sessions@[i]).spawn_depth <= m),
        forall|i: int|
            0 <= i < resp.sessions@.len() ==> (query.min_spawn_depth matches Some(m) ==> (
            #[trigger] resp.sessions@[i]).spawn_depth >= m),
{
    let f = filter_nodes(sessions, n);
    lemma_filter_nodes_match(sessions, n);
    let off = resp.offset as int;
    assert forall|i: int| 0 <= i < resp.sessions@.len() implies matches_spec(
        #[trigger] resp.sessions@[i],
        n,
    ) by {
        assert(off < f.len());
        assert(resp.sessions@[i] == sorted[off + i]);
        assert(sorted[off + i] == f[perm[off + i]]);
    }
}

/// Law: over a non-empty list, the statistics count the distinct parent
/// agent ids present, and the distinct agent names present, each on its own.
pub proof fn lemma_stats_count_distinct_names(s: Seq<GatewaySessionTreeNode>)
    requires
        0 < s.len() <= usize::MAX,
    ensures
        stats_spec(s).unique_parent_agents as int == Set::new(
            |x: Seq<char>| exists|i: int| 0 <= i < s.len() && #[trigger] ov(s[i].parent_agent_id) == Some(x),
        ).len(),
        stats_spec(s).unique_agents as int == Set::new(
            |x: Seq<char>| exists|i: int| 0 <= i < s.len() && #[trigger] ov(s[i].agent_name) == Some(x),
        ).len(),
{
    lemma_name_set(s, true);
    lemma_name_set(s, false);
    assert(name_set(s, true) =~= Set::new(
        |x: Seq<char>| exists|i: int| 0 <= i < s.len() && #[trigger] ov(s[i].parent_agent_id) == Some(x),
    ));
    assert(name_set(s, false) =~= Set::new(
        |x: Seq<char>| exists|i: int| 0 <= i < s.len() && #[trigger] ov(s[i].agent_name) == Some(x),
    ));
}

/// The names collected: exactly the present values of the field, finite and
/// no more than the list is long.
proof fn lemma_name_set(s: Seq<GatewaySessionTreeNode>, parents: bool)
    ensures
        name_set(s, parents).finite(),
        name_set(s, parents).len() <= s.len(),
        forall|x: Seq<char>| #[trigger] name_set(s, parents).contains(x) <==> exists|i: int|
            0 <= i < s.len() && ov(if parents {
                s[i].parent_agent_id
            } else {
                s[i].agent_name
            }) == Some(x),
    decreases s.len(),
{
    if s.len() > 0 {
        let t = s.drop_last();
        lemma_name_set(t, parents);
        assert forall|x: Seq<char>| #[trigger] name_set(s, parents).contains(x) <==> exists|i: int|
            0 <= i < s.len() && ov(if parents {
                s[i].parent_agent_id
            } else {
                s[i].agent_name
            }) == Some(x) by {
            if name_set(t, parents).contains(x) {
                let i = choose|i: int|
                    0 <= i < t.len() && ov(if parents {
                        t[i].parent_agent_id
                    } else {
                        t[i].agent_name
                    }) == Some(x);
                assert(s[i] == t[i]);
            }
            if exists|i: int|
                0 <= i < s.len() && ov(if parents {
                    s[i].parent_agent_id
                } else {
                    s[i].agent_name
                }) == Some(x) {
                let i = choose|i: int|
                    0 <= i < s.len() && ov(if parents {
                        s[i].parent_agent_id
                    } else {
                        s[i].agent_name
                    }) == Some(x);
                if i < t.len() {
                    assert(s[i] == t[i]);
                }
            }
        }
    }
}

} // verus!
