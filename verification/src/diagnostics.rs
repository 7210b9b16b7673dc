//! What the Feishu webhook prints when a request carries no verification
//! token: the shape of the payload (its keys, made safe and sorted) and of
//! the request, never a value that the payload holds.
use vstd::prelude::*;
use crate::json::{json_found, json_has, json_keys, json_keys_at, json_str, json_text};
use crate::order::{lemma_lex, lex, lex_exec, Order3};
use crate::text::{chars_of, push_char, push_str, str_is, string_of, strings_view};
use crate::webhook::{content_type_label, feishu_request_content_type};

verus! {

broadcast use vstd::seq_lib::group_to_multiset_ensures;

/// Whether a character of a key is shown as it is: ASCII letters and
/// digits, `_`, `-` and `.`.
pub open spec fn key_char_kept(c: char) -> bool {
    ('a' <= c && c <= 'z') || ('A' <= c && c <= 'Z') || ('0' <= c && c <= '9') || c == '_' || c
        == '-' || c == '.'
}

/// A character of a key as shown: itself when kept, `_` otherwise.
pub open spec fn safe_key_char(c: char) -> char {
    if key_char_kept(c) {
        c
    } else {
        '_'
    }
}

/// The first `n` items of `s` (all of them when it has fewer).
pub open spec fn at_most<A>(s: Seq<A>, n: nat) -> Seq<A> {
    if s.len() <= n {
        s
    } else {
        s.take(n as int)
    }
}

/// A key as shown: its first 64 characters, each made safe.
pub open spec fn safe_key(k: Seq<char>) -> Seq<char> {
    at_most(k, 64).map_values(|c: char| safe_key_char(c))
}

/// Whether a list of keys is in ascending lexicographic order.
pub open spec fn sorted_lex(s: Seq<Seq<char>>) -> bool {
    forall|i: int, j: int| 0 <= i < j < s.len() ==> lex(s[i], s[j]) != Order3::Greater
}

/// The keys of `s` in ascending lexicographic order: the sorted list with
/// the same items, as many times each.
pub open spec fn sorted_keys(s: Seq<Seq<char>>) -> Seq<Seq<char>> {
    choose|r: Seq<Seq<char>>| sorted_lex(r) && r.to_multiset() == s.to_multiset()
}

/// The keys of an object as the diagnostics show them: the first 32, each
/// made safe, then sorted.
pub open spec fn safe_keys(keys: Seq<Seq<char>>) -> Seq<Seq<char>> {
    sorted_keys(at_most(keys, 32).map_values(|k: Seq<char>| safe_key(k)))
}

/// Lemma: two sorted lists with the same items are equal.
pub proof fn lemma_sorted_unique(a: Seq<Seq<char>>, b: Seq<Seq<char>>)
    requires
        sorted_lex(a),
        sorted_lex(b),
        a.to_multiset() == b.to_multiset(),
    ensures
        a == b,
    decreases a.len(),
{
    assert(a.len() == a.to_multiset().len());
    assert(b.len() == b.to_multiset().len());
    if a.len() == 0 {
        assert(a =~= b);
    } else {
        assert(a.contains(a[0]));
        assert(a.to_multiset().count(a[0]) > 0);
        assert(b.contains(a[0]));
        let j = choose|j: int| 0 <= j < b.len() && b[j] == a[0];
        assert(b.contains(b[0]));
        assert(b.to_multiset().count(b[0]) > 0);
        assert(a.contains(b[0]));
        let i = choose|i: int| 0 <= i < a.len() && a[i] == b[0];
        lemma_lex(a[0], b[0], a[0]);
        lemma_lex(b[0], b[0], b[0]);
        lemma_lex(a[0], a[0], a[0]);
        if j > 0 {
            assert(lex(b[0], b[j]) != Order3::Greater);
        }
        if i > 0 {
            assert(lex(a[0], a[i]) != Order3::Greater);
        }
        assert(a[0] == b[0]);
        assert(a.remove(0) =~= a.drop_first());
        assert(b.remove(0) =~= b.drop_first());
        assert(a.remove(0).to_multiset() == a.to_multiset().remove(a[0]));
        assert(b.remove(0).to_multiset() == b.to_multiset().remove(b[0]));
        lemma_sorted_unique(a.drop_first(), b.drop_first());
        assert forall|k: int| 0 <= k < a.len() implies a[k] == b[k] by {
            if k > 0 {
                assert(a[k] == a.drop_first()[k - 1]);
                assert(b[k] == b.drop_first()[k - 1]);
            }
        }
        assert(a =~= b);
    }
}

/// Lemma: a sorted list with the items of `s` is `sorted_keys(s)`.
pub proof fn lemma_sorted_keys(s: Seq<Seq<char>>, r: Seq<Seq<char>>)
    requires
        sorted_lex(r),
        r.to_multiset() == s.to_multiset(),
    ensures
        sorted_keys(s) == r,
{
    let c = sorted_keys(s);
    assert(sorted_lex(c) && c.to_multiset() == s.to_multiset());
    lemma_sorted_unique(c, r);
}

/// The position where `x` goes in a sorted list, searching from `i`: before
/// the first key greater than `x`, or at the end.
pub open spec fn insert_pos(t: Seq<Seq<char>>, x: Seq<char>, i: int) -> int
    decreases t.len() - i,
{
    if i >= t.len() || lex(x, t[i]) == Order3::Less {
        i
    } else {
        insert_pos(t, x, i + 1)
    }
}

proof fn lemma_insert_pos(t: Seq<Seq<char>>, x: Seq<char>, i: int)
    requires
        0 <= i <= t.len(),
        forall|q: int| 0 <= q < i ==> lex(x, #[trigger] t[q]) != Order3::Less,
    ensures
        i <= insert_pos(t, x, i) <= t.len(),
        forall|q: int| 0 <= q < insert_pos(t, x, i) ==> lex(x, #[trigger] t[q]) != Order3::Less,
        insert_pos(t, x, i) < t.len() ==> lex(x, t[insert_pos(t, x, i)]) == Order3::Less,
    decreases t.len() - i,
{
    if i < t.len() && lex(x, t[i]) != Order3::Less {
        lemma_insert_pos(t, x, i + 1);
    }
}

/// Lemma: inserting a key at its position keeps a list sorted.
proof fn lemma_insert_sorted(t: Seq<Seq<char>>, x: Seq<char>)
    requires
        sorted_lex(t),
    ensures
        sorted_lex(t.insert(insert_pos(t, x, 0), x)),
        t.insert(insert_pos(t, x, 0), x).to_multiset() == t.to_multiset().insert(x),
{
    lemma_insert_pos(t, x, 0);
    let pos = insert_pos(t, x, 0);
    let u = t.insert(pos, x);
    assert forall|i: int, j: int| 0 <= i < j < u.len() implies lex(u[i], u[j]) != Order3::Greater by {
        if j < pos {
        } else if j == pos {
            lemma_lex(x, t[i], t[i]);
        } else if i < pos {
        } else if i == pos {
            lemma_lex(x, t[pos], t[j - 1]);
            lemma_lex(t[pos], t[j - 1], t[j - 1]);
            if pos != j - 1 {
                assert(lex(t[pos], t[j - 1]) != Order3::Greater);
            }
        } else {
        }
    }
}

/// Lemma: every list of keys has a sorted list with the same items.
pub proof fn lemma_sorted_exists(s: Seq<Seq<char>>) -> (r: Seq<Seq<char>>)
    ensures
        sorted_lex(r),
        r.to_multiset() == s.to_multiset(),
    decreases s.len(),
{
    if s.len() == 0 {
        s
    } else {
        let t = lemma_sorted_exists(s.drop_last());
        let x = s.last();
        lemma_insert_sorted(t, x);
        assert(s =~= s.drop_last().push(x));
        t.insert(insert_pos(t, x, 0), x)
    }
}

/// Lemma: `sorted_keys(s)` is sorted and holds the items of `s`.
pub proof fn lemma_sorted_keys_props(s: Seq<Seq<char>>)
    ensures
        sorted_lex(sorted_keys(s)),
        sorted_keys(s).to_multiset() == s.to_multiset(),
        sorted_keys(s).len() == s.len(),
        forall|i: int| 0 <= i < sorted_keys(s).len() ==> s.contains(#[trigger] sorted_keys(s)[i]),
{
    let w = lemma_sorted_exists(s);
    lemma_sorted_keys(s, w);
    let r = sorted_keys(s);
    assert(r.len() == r.to_multiset().len());
    assert(s.len() == s.to_multiset().len());
    assert forall|i: int| 0 <= i < r.len() implies s.contains(#[trigger] r[i]) by {
        assert(r.contains(r[i]));
        assert(r.to_multiset().count(r[i]) > 0);
        assert(s.to_multiset().count(r[i]) > 0);
    }
}

/// Law: the diagnostics show at most 32 keys of an object, each at most 64
/// characters long and made only of ASCII letters, digits, `_`, `-` and
/// `.`.
pub proof fn lemma_safe_keys_shape(keys: Seq<Seq<char>>)
    ensures
        safe_keys(keys).len() <= 32,
        forall|i: int|
            0 <= i < safe_keys(keys).len() ==> (#[trigger] safe_keys(keys)[i]).len() <= 64,
        forall|i: int, j: int|
            0 <= i < safe_keys(keys).len() && 0 <= j < safe_keys(keys)[i].len() ==> key_char_kept(
                #[trigger] safe_keys(keys)[i][j],
            ),
{
    let cut = at_most(keys, 32).map_values(|k: Seq<char>| safe_key(k));
    lemma_sorted_keys_props(cut);
    let r = safe_keys(keys);
    assert forall|i: int, j: int| 0 <= i < r.len() && 0 <= j < r[i].len() implies key_char_kept(
        #[trigger] r[i][j],
    ) by {
        let p = lemma_shown_key_origin(keys, i);
        assert(r[i][j] == safe_key_char(at_most(keys[p], 64)[j]));
    }
    assert forall|i: int| 0 <= i < r.len() implies (#[trigger] r[i]).len() <= 64 by {
        let p = lemma_shown_key_origin(keys, i);
    }
}

/// Lemma: a shown key is the safe form of one of the object's keys.
proof fn lemma_shown_key_origin(keys: Seq<Seq<char>>, i: int) -> (p: int)
    requires
        0 <= i < safe_keys(keys).len(),
    ensures
        0 <= p < keys.len(),
        safe_keys(keys)[i] == safe_key(keys[p]),
{
    let cut = at_most(keys, 32).map_values(|k: Seq<char>| safe_key(k));
    lemma_sorted_keys_props(cut);
    let r = safe_keys(keys);
    assert(cut.contains(r[i]));
    let p = choose|p: int| 0 <= p < cut.len() && cut[p] == r[i];
    assert(at_most(keys, 32)[p] == keys[p]);
    p
}

/// The views of a list of character vectors.
pub open spec fn views(s: Seq<Vec<char>>) -> Seq<Seq<char>> {
    s.map_values(|v: Vec<char>| v@)
}

fn key_char_kept_exec(c: char) -> (r: bool)
    ensures
        r == key_char_kept(c),
{
    ('a' <= c && c <= 'z') || ('A' <= c && c <= 'Z') || ('0' <= c && c <= '9') || c == '_' || c
        == '-' || c == '.'
}

/// A key made safe for a diagnostic line.
pub fn safe_key_exec(k: &str) -> (r: Vec<char>)
    ensures
        r@ == safe_key(k@),
{
    let c = chars_of(k);
    let n: usize = if c.len() <= 64 {
        c.len()
    } else {
        64
    };
    let mut r: Vec<char> = Vec::new();
    let mut i: usize = 0;
    while i < n
        invariant
            n <= c.len(),
            c@ == k@,
            n == at_most(k@, 64).len(),
            i <= n,
            r@.len() == i,
            forall|j: int| 0 <= j < i ==> r@[j] == safe_key_char(#[trigger] c@[j]),
        decreases n - i,
    {
        let ch = c[i];
        if key_char_kept_exec(ch) {
            r.push(ch);
        } else {
            r.push('_');
        }
        i += 1;
    }
    assert(r@ =~= safe_key(k@));
    r
}

/// Inserts a key into a sorted list, before the first greater key.
fn insert_sorted(out: &mut Vec<Vec<char>>, x: Vec<char>)
    requires
        sorted_lex(views(old(out)@)),
    ensures
        sorted_lex(views(final(out)@)),
        views(final(out)@).to_multiset() == views(old(out)@).to_multiset().insert(x@),
{
    let ghost s = views(out@);
    let mut pos: usize = 0;
    while pos < out.len()
        invariant
            s == views(out@),
            pos <= out.len(),
            forall|q: int| 0 <= q < pos ==> lex(x@, #[trigger] s[q]) != Order3::Less,
        ensures
            pos <= out.len(),
            forall|q: int| 0 <= q < pos ==> lex(x@, #[trigger] s[q]) != Order3::Less,
            pos < out.len() ==> lex(x@, s[pos as int]) == Order3::Less,
        decreases out.len() - pos,
    {
        assert(s[pos as int] == out@[pos as int]@);
        if lex_exec(x.as_slice(), out[pos].as_slice()) == Order3::Less {
            break;
        }
        pos += 1;
    }
    let ghost xv = x@;
    out.insert(pos, x);
    let ghost t = views(out@);
    assert(t =~= s.insert(pos as int, xv));
    assert forall|i: int, j: int| 0 <= i < j < t.len() implies lex(t[i], t[j]) != Order3::Greater by {
        if j < pos {
        } else if j == pos {
            lemma_lex(xv, s[i], s[i]);
        } else if i < pos {
        } else if i == pos {
            lemma_lex(xv, s[pos as int], s[j - 1]);
            lemma_lex(s[pos as int], s[j - 1], s[j - 1]);
            if pos as int == j - 1 {
            } else {
                assert(lex(s[pos as int], s[j - 1]) != Order3::Greater);
            }
        } else {
        }
    }
}

/// Sorts keys in ascending lexicographic order.
pub fn sort_keys(keys: Vec<Vec<char>>) -> (r: Vec<Vec<char>>)
    ensures
        views(r@) == sorted_keys(views(keys@)),
{
    let mut out: Vec<Vec<char>> = Vec::new();
    let mut k: usize = 0;
    let n = keys.len();
    let ghost src = views(keys@);
    assert(views(out@).to_multiset() =~= src.take(0).to_multiset()) by {
        assert(views(out@) =~= src.take(0));
    }
    while k < n
        invariant
            n == keys.len(),
            src == views(keys@),
            k <= n,
            sorted_lex(views(out@)),
            views(out@).to_multiset() == src.take(k as int).to_multiset(),
        decreases n - k,
    {
        let x = keys[k].clone();
        assert(x@ == src[k as int]);
        insert_sorted(&mut out, x);
        assert(src.take(k + 1) =~= src.take(k as int).push(src[k as int]));
        k += 1;
    }
    assert(src.take(n as int) =~= src);
    proof {
        lemma_sorted_keys(src, views(out@));
    }
    out
}

/// The keys of an object as the diagnostics show them (none when there is
/// no object): the first 32, each cut to 64 characters with every character
/// that is not an ASCII letter or digit, `_`, `-` or `.` replaced by `_`,
/// then sorted.
pub fn safe_json_object_keys(keys: Option<&Vec<String>>) -> (r: Vec<String>)
    ensures
        strings_view(r@) == match keys {
            Some(k) => safe_keys(strings_view(k@)),
            None => Seq::empty(),
        },
{
    let k = match keys {
        Some(k) => k,
        None => {
            return Vec::new();
        },
    };
    let n: usize = if k.len() <= 32 {
        k.len()
    } else {
        32
    };
    let ghost cut = at_most(strings_view(k@), 32).map_values(|x: Seq<char>| safe_key(x));
    let mut made: Vec<Vec<char>> = Vec::new();
    let mut i: usize = 0;
    while i < n
        invariant
            n <= k.len(),
            n == cut.len(),
            cut == at_most(strings_view(k@), 32).map_values(|x: Seq<char>| safe_key(x)),
            i <= n,
            made@.len() == i,
            forall|j: int| 0 <= j < i ==> (#[trigger] made@[j])@ == cut[j],
        decreases n - i,
    {
        let s = safe_key_exec(k[i].as_str());
        assert(cut[i as int] == safe_key(k@[i as int]@));
        made.push(s);
        i += 1;
    }
    assert(views(made@) =~= cut);
    let sorted = sort_keys(made);
    let mut r: Vec<String> = Vec::new();
    let mut j: usize = 0;
    while j < sorted.len()
        invariant
            j <= sorted.len(),
            r@.len() == j,
            forall|q: int| 0 <= q < j ==> (#[trigger] r@[q])@ == sorted@[q]@,
        decreases sorted.len() - j,
    {
        r.push(string_of(sorted[j].as_slice()));
        j += 1;
    }
    assert(strings_view(r@) =~= views(sorted@));
    r
}

/// The keys of the JSON object a raw payload holds, in the order that
/// `serde_json` yields them; none when the payload is not a JSON object.
pub fn payload_keys_summary(raw: &str) -> (r: Vec<String>)
    ensures
        match json_keys_at(raw@, ""@) {
            Some(k) => strings_view(r@) == k,
            None => r@.len() == 0,
        },
{
    match json_keys(raw, "") {
        Some(k) => k,
        None => Vec::new(),
    }
}

/// A list of keys framed as `{:?}` prints a list of strings made of ASCII
/// letters, digits, `_`, `-` and `.`: each in double quotes, joined by ", ".
pub open spec fn joined(s: Seq<Seq<char>>) -> Seq<char>
    decreases s.len(),
{
    if s.len() == 0 {
        Seq::empty()
    } else if s.len() == 1 {
        seq!['"'] + s[0] + seq!['"']
    } else {
        joined(s.drop_last()) + ", "@ + seq!['"'] + s.last() + seq!['"']
    }
}

/// The list in square brackets.
pub open spec fn debug_list(s: Seq<Seq<char>>) -> Seq<char> {
    "["@ + joined(s) + "]"@
}

/// Appends a list of keys framed as `debug_list` frames it.
fn push_debug_list(out: &mut String, items: &Vec<String>)
    ensures
        final(out)@ == old(out)@ + debug_list(strings_view(items@)),
{
    let ghost start = out@;
    let ghost s = strings_view(items@);
    push_str(out, "[");
    let mut i: usize = 0;
    while i < items.len()
        invariant
            s == strings_view(items@),
            i <= items.len(),
            out@ == start + "["@ + joined(s.take(i as int)),
        decreases items.len() - i,
    {
        let ghost before = out@;
        if i > 0 {
            push_str(out, ", ");
        }
        push_char(out, '"');
        push_str(out, items[i].as_str());
        push_char(out, '"');
        proof {
            let t = s.take(i + 1);
            assert(t.drop_last() =~= s.take(i as int));
            assert(t.last() == s[i as int]);
            if i == 0 {
                assert(t.len() == 1);
                assert(joined(s.take(0)) =~= Seq::<char>::empty());
                assert(out@ =~= start + "["@ + joined(t));
            } else {
                assert(out@ =~= start + "["@ + joined(t));
            }
        }
        i += 1;
    }
    push_str(out, "]");
    assert(s.take(items.len() as int) =~= s);
    assert(out@ =~= start + debug_list(s));
}

/// The keys an optional object holds, none without one.
pub open spec fn keys_or_empty(k: Option<Seq<Seq<char>>>) -> Seq<Seq<char>> {
    match k {
        Some(v) => v,
        None => Seq::empty(),
    }
}

/// `true` or `false`.
pub open spec fn bool_text(b: bool) -> Seq<char> {
    if b {
        "true"@
    } else {
        "false"@
    }
}

/// The places where a verification token is looked for.
pub open spec fn token_sources_checked() -> Seq<Seq<char>> {
    seq![
        "top_level"@,
        "header"@,
        "event"@,
        "event_header"@,
        "x-feishu-verification-token"@,
        "x-lark-verification-token"@,
    ]
}

/// Whether a payload looks like a received message: its header's event type
/// is `im.message.receive_v1` and it has an event message.
pub open spec fn looks_like_message_event(p: Seq<char>) -> bool {
    json_text(p, "/header/event_type"@) == Some("im.message.receive_v1"@) && json_found(
        p,
        "/event/message"@,
    )
}

/// The request-shape line.
pub open spec fn request_shape_line(p: Seq<char>, ct: Option<Seq<char>>) -> Seq<char> {
    "[feishu-security] request_shape method=POST path=/webhook/feishu content_type="@
        + content_type_label(ct) + " type_present="@ + bool_text(json_found(p, "/type"@))
        + " header_event_type_present="@ + bool_text(json_found(p, "/header/event_type"@))
        + " event_message_present="@ + bool_text(json_found(p, "/event/message"@))
        + " looks_like_im_message_receive_v1="@ + bool_text(looks_like_message_event(p))
}

/// The lines printed for a payload `p` without a verification token, sent
/// with content type `ct`.
pub open spec fn diagnostic_lines(p: Seq<char>, ct: Option<Seq<char>>) -> Seq<Seq<char>> {
    seq![
        "[feishu-security] payload_shape top_keys="@ + debug_list(
            safe_keys(keys_or_empty(json_keys_at(p, ""@))),
        ),
        "[feishu-security] header_shape keys="@ + debug_list(
            safe_keys(keys_or_empty(json_keys_at(p, "/header"@))),
        ),
        "[feishu-security] event_shape keys="@ + debug_list(
            safe_keys(keys_or_empty(json_keys_at(p, "/event"@))),
        ),
        request_shape_line(p, ct),
        "[feishu-security] token_extract token_present=false sources_checked="@ + debug_list(
            token_sources_checked(),
        ),
    ]
}

fn push_bool(out: &mut String, b: bool)
    ensures
        final(out)@ == old(out)@ + bool_text(b),
{
    if b {
        push_str(out, "true");
    } else {
        push_str(out, "false");
    }
}

fn shape_line(prefix: &str, payload: &str, pointer: &str) -> (r: String)
    ensures
        r@ == prefix@ + debug_list(safe_keys(keys_or_empty(json_keys_at(payload@, pointer@)))),
{
    let keys = json_keys(payload, pointer);
    let safe = match &keys {
        Some(k) => safe_json_object_keys(Some(k)),
        None => safe_json_object_keys(None),
    };
    proof {
        if keys is None {
            lemma_sorted_keys(Seq::empty(), Seq::empty());
            assert(at_most(Seq::<Seq<char>>::empty(), 32).map_values(|k: Seq<char>| safe_key(k))
                =~= Seq::empty());
        }
    }
    let mut line = String::new();
    push_str(&mut line, prefix);
    push_debug_list(&mut line, &safe);
    line
}

/// The diagnostic lines for a Feishu payload that carries no verification
/// token, sent with the given content type header: the sorted safe keys of
/// the payload, of its header and of its event, whether it has a `type`, a
/// header event type and an event message, whether it looks like a received
/// message, and where the token was looked for.
pub fn feishu_token_missing_diagnostic_lines(payload: &str, content_type: Option<&str>) -> (r: Vec<
    String,
>)
    ensures
        strings_view(r@) == diagnostic_lines(
            payload@,
            match content_type {
                Some(v) => Some(v@),
                None => None,
            },
        ),
{
    let top = shape_line("[feishu-security] payload_shape top_keys=", payload, "");
    let header = shape_line("[feishu-security] header_shape keys=", payload, "/header");
    let event = shape_line("[feishu-security] event_shape keys=", payload, "/event");
    let type_present = json_has(payload, "/type");
    let event_type_present = json_has(payload, "/header/event_type");
    let message_present = json_has(payload, "/event/message");
    let looks_like = match json_str(payload, "/header/event_type") {
        Some(t) => str_is(t.as_str(), "im.message.receive_v1") && message_present,
        None => false,
    };
    let mut shape = String::new();
    push_str(
        &mut shape,
        "[feishu-security] request_shape method=POST path=/webhook/feishu content_type=",
    );
    push_str(&mut shape, feishu_request_content_type(content_type));
    push_str(&mut shape, " type_present=");
    push_bool(&mut shape, type_present);
    push_str(&mut shape, " header_event_type_present=");
    push_bool(&mut shape, event_type_present);
    push_str(&mut shape, " event_message_present=");
    push_bool(&mut shape, message_present);
    push_str(&mut shape, " looks_like_im_message_receive_v1=");
    push_bool(&mut shape, looks_like);
    let mut sources: Vec<String> = Vec::new();
    sources.push(String::from_str("top_level"));
    sources.push(String::from_str("header"));
    sources.push(String::from_str("event"));
    sources.push(String::from_str("event_header"));
    sources.push(String::from_str("x-feishu-verification-token"));
    sources.push(String::from_str("x-lark-verification-token"));
    assert(strings_view(sources@) =~= token_sources_checked());
    let mut token = String::new();
    push_str(&mut token, "[feishu-security] token_extract token_present=false sources_checked=");
    push_debug_list(&mut token, &sources);
    let mut r: Vec<String> = Vec::new();
    r.push(top);
    r.push(header);
    r.push(event);
    r.push(shape);
    r.push(token);
    let ghost ct = match content_type {
        Some(v) => Some(v@),
        None => None,
    };
    assert(shape@ =~= request_shape_line(payload@, ct));
    assert(strings_view(r@) =~= diagnostic_lines(payload@, ct));
    r
}

} // verus!
