//! Inbound screenshots and chat-attachment data URLs become vision image
//! parts instead of megabytes of base64 left in the user text.
use vstd::prelude::*;
use crate::text::{
    chars_of, find_from, find_from_exec, is_ws, lemma_find_from_some, occurs_at, occurs_at_exec,
    range_vec, seq_starts_with, char_is_ws, owned, push_chars, push_range, push_str, string_of,
    strings_contain, strings_view,
};

verus! {

/// The marker that starts an embedded data image URL.
pub open spec fn data_marker() -> Seq<char> {
    "data:image/"@
}

/// The marker that separates a data URL header from its base64 payload.
pub open spec fn base64_marker() -> Seq<char> {
    ";base64,"@
}

/// ASCII whitespace as `u8::is_ascii_whitespace` defines it.
pub open spec fn is_ascii_ws(c: char) -> bool {
    c == ' ' || c == '\t' || c == '\n' || c == '\x0C' || c == '\r'
}

/// A character that may appear in a base64 payload (letters, digits, `+/=`,
/// and ASCII whitespace).
pub open spec fn is_payload_char(c: char) -> bool {
    ||| ('a' <= c && c <= 'z')
    ||| ('A' <= c && c <= 'Z')
    ||| ('0' <= c && c <= '9')
    ||| c == '+' || c == '/' || c == '='
    ||| is_ascii_ws(c)
}

/// The end of the run of payload characters that starts at `i`.
pub open spec fn payload_end(t: Seq<char>, i: int) -> int
    decreases t.len() - i,
{
    if 0 <= i < t.len() && is_payload_char(t[i]) {
        payload_end(t, i + 1)
    } else {
        i
    }
}

/// Where the data URL that starts at `start` ends, if it is one: a
/// `;base64,` header whose prefix starts with `data:image/`, followed by a
/// non-empty payload.
pub open spec fn consume_spec(t: Seq<char>, start: int) -> Option<int> {
    match find_from(t, base64_marker(), start) {
        None => None,
        Some(h) => {
            let payload_start = h + base64_marker().len();
            if !seq_starts_with(t.subrange(start, h), data_marker()) {
                None
            } else if payload_start >= t.len() {
                None
            } else if payload_end(t, payload_start) == payload_start {
                None
            } else {
                Some(payload_end(t, payload_start))
            }
        }
    }
}

/// The spans `(start, end)` of the data image URLs found scanning from `from`.
pub open spec fn spans_from(t: Seq<char>, from: int) -> Seq<(int, int)>
    decreases t.len() + 1 - from,
{
    if from < 0 {
        seq![]
    } else {
        match find_from(t, data_marker(), from) {
            None => seq![],
            Some(start) => {
                proof {
                    lemma_find_from_some(t, data_marker(), from);
                    reveal_strlit("data:image/");
                }
                match consume_spec(t, start) {
                    None => spans_from(t, start + 1),
                    Some(end) => {
                        proof {
                            lemma_consume_after(t, start);
                        }
                        seq![(start, end)] + spans_from(t, end)
                    }
                }
            }
        }
    }
}

/// All data image URL spans of `t`.
pub open spec fn spans(t: Seq<char>) -> Seq<(int, int)> {
    spans_from(t, 0)
}

/// The number of bytes that `c` takes in UTF-8.
pub open spec fn utf8_len(c: char) -> int {
    let n = c as u32;
    if n < 0x80 {
        1
    } else if n < 0x800 {
        2
    } else if n < 0x10000 {
        3
    } else {
        4
    }
}

/// The byte two places before character position `k` falls on a character
/// boundary (or before the text's start), so a two-byte look-behind there is
/// well-defined.
pub open spec fn lookbehind_ok(t: Seq<char>, k: int) -> bool {
    ||| k == 0
    ||| utf8_len(t[k - 1]) == 2
    ||| (utf8_len(t[k - 1]) == 1 && (k == 1 || utf8_len(t[k - 2]) == 1))
}

/// The inputs the stripper accepts: every data URL allows the look-behind for
/// a Markdown `](` before it.
pub open spec fn strippable(t: Seq<char>) -> bool {
    forall|j: int| 0 <= j < spans(t).len() ==> lookbehind_ok(t, #[trigger] spans(t)[j].0)
}

/// The last position before `before` where `needle` fully occurs.
pub open spec fn rfind_before(t: Seq<char>, needle: Seq<char>, before: int) -> Option<int>
    decreases before + 1,
{
    if before < 0 {
        None
    } else if occurs_at(t, needle, before) {
        Some(before)
    } else {
        rfind_before(t, needle, before - 1)
    }
}

/// Lemma: what `rfind_before` finds is an occurrence.
pub proof fn lemma_rfind_before_some(t: Seq<char>, needle: Seq<char>, before: int)
    requires
        rfind_before(t, needle, before) is Some,
    ensures
        occurs_at(t, needle, rfind_before(t, needle, before)->0),
        rfind_before(t, needle, before)->0 <= before,
    decreases before + 1,
{
    if before >= 0 && !occurs_at(t, needle, before) {
        lemma_rfind_before_some(t, needle, before - 1);
    }
}

/// The end of a run of ASCII whitespace starting at `i`.
pub open spec fn ascii_ws_end(t: Seq<char>, i: int) -> int
    decreases t.len() - i,
{
    if 0 <= i < t.len() && is_ascii_ws(t[i]) {
        ascii_ws_end(t, i + 1)
    } else {
        i
    }
}

/// The Markdown image `![alt](url)` around the URL at `[us, ue)`, if there is
/// one: its start, its end (after the closing parenthesis, if present) and
/// the alt text.
pub open spec fn md_bounds(t: Seq<char>, us: int, ue: int) -> Option<(int, int, Seq<char>)> {
    if us < 2 || t.subrange(us - 2, us) != "]("@ {
        None
    } else {
        let alt_close = us - 2;
        match rfind_before(t.subrange(0, alt_close), "!["@, alt_close - 2) {
            None => None,
            Some(alt_open) => {
                let e = ascii_ws_end(t, ue);
                let end = if e < t.len() && t[e] == ')' { e + 1 } else { e };
                Some((alt_open, end, t.subrange(alt_open + 2, alt_close)))
            }
        }
    }
}

/// `s` without its (Unicode) whitespace characters.
pub open spec fn remove_ws(s: Seq<char>) -> Seq<char>
    decreases s.len(),
{
    if s.len() == 0 {
        s
    } else if is_ws(s.last()) {
        remove_ws(s.drop_last())
    } else {
        remove_ws(s.drop_last()).push(s.last())
    }
}

/// The text that replaces an embedded image.
pub open spec fn placeholder(alt: Option<Seq<char>>) -> Seq<char> {
    match alt {
        Some(name) => if name.len() > 0 {
            "!["@ + name + "](已作为视觉输入附加)"@
        } else {
            "[已作为视觉输入附加]"@
        },
        None => "[已作为视觉输入附加]"@,
    }
}

/// `imgs` with `url` added unless it is empty or already there.
pub open spec fn add_image(imgs: Seq<Seq<char>>, url: Seq<char>) -> Seq<Seq<char>> {
    if url.len() > 0 && !imgs.contains(url) {
        imgs.push(url)
    } else {
        imgs
    }
}

/// The stripped text, the images and the cursor after the first `i` spans.
pub open spec fn strip_state(t: Seq<char>, i: int) -> (Seq<char>, Seq<Seq<char>>, int)
    decreases i,
{
    if i <= 0 {
        (seq![], seq![], 0)
    } else {
        let prev = strip_state(t, i - 1);
        let us = spans(t)[i - 1].0;
        let ue = spans(t)[i - 1].1;
        let (rs, re, alt) = match md_bounds(t, us, ue) {
            Some(b) => (b.0, b.1, Some(b.2)),
            None => (us, ue, None),
        };
        if rs < prev.2 {
            prev
        } else {
            (
                prev.0 + t.subrange(prev.2, rs) + placeholder(alt),
                add_image(prev.1, remove_ws(t.subrange(us, ue))),
                re,
            )
        }
    }
}

/// What stripping embedded data images from `t` gives: the text with each
/// image replaced by a placeholder, and the distinct non-empty image URLs in
/// order of appearance.
pub open spec fn strip_spec(t: Seq<char>) -> (Seq<char>, Seq<Seq<char>>) {
    let n = spans(t).len() as int;
    if n == 0 {
        (t, seq![])
    } else {
        let s = strip_state(t, n);
        (s.0 + t.subrange(s.2, t.len() as int), s.1)
    }
}

/// `add_image` over a list of URLs, each first stripped of whitespace.
pub open spec fn collect_images(acc: Seq<Seq<char>>, urls: Seq<Seq<char>>) -> Seq<Seq<char>>
    decreases urls.len(),
{
    if urls.len() == 0 {
        acc
    } else {
        collect_images(add_image(acc, remove_ws(urls[0])), urls.drop_first())
    }
}

/// Lemma: a data URL ends after it starts, and no later than the text's end.
pub proof fn lemma_consume_after(t: Seq<char>, start: int)
    requires
        0 <= start,
        consume_spec(t, start) is Some,
    ensures
        start < consume_spec(t, start)->0 <= t.len(),
{
    lemma_find_from_some(t, base64_marker(), start);
    let h = find_from(t, base64_marker(), start)->0;
    lemma_payload_end_bounds(t, h + base64_marker().len());
}

/// Lemma: the payload run ends between its start and the text's end.
pub proof fn lemma_payload_end_bounds(t: Seq<char>, i: int)
    requires
        0 <= i <= t.len(),
    ensures
        i <= payload_end(t, i) <= t.len(),
        forall|k: int| i <= k < payload_end(t, i) ==> is_payload_char(t[k]),
        payload_end(t, i) < t.len() ==> !is_payload_char(t[payload_end(t, i)]),
    decreases t.len() - i,
{
    if i < t.len() && is_payload_char(t[i]) {
        lemma_payload_end_bounds(t, i + 1);
    }
}

} // verus!

verus! {

fn is_payload_char_exec(c: char) -> (r: bool)
    ensures
        r == is_payload_char(c),
{
    ('a' <= c && c <= 'z') || ('A' <= c && c <= 'Z') || ('0' <= c && c <= '9') || c == '+' || c
        == '/' || c == '=' || c == ' ' || c == '\t' || c == '\n' || c == '\x0C' || c == '\r'
}

fn is_ascii_ws_exec(c: char) -> (r: bool)
    ensures
        r == is_ascii_ws(c),
{
    c == ' ' || c == '\t' || c == '\n' || c == '\x0C' || c == '\r'
}

/// The end of the data image URL that starts at `start`, if it is one.
fn consume_data_url(t: &[char], start: usize) -> (r: Option<usize>)
    requires
        start <= t.len(),
    ensures
        r matches Some(e) ==> consume_spec(t@, start as int) == Some(e as int),
        r is None ==> consume_spec(t@, start as int) is None,
{
    let b64 = chars_of(";base64,");
    proof {
        reveal_strlit(";base64,");
    }
    let found = find_from_exec(t, b64.as_slice(), start);
    let h = match found {
        None => {
            return None;
        },
        Some(h) => h,
    };
    proof {
        lemma_find_from_some(t@, base64_marker(), start as int);
    }
    let prefix = range_vec(t, start, h);
    let data = chars_of("data:image/");
    if !occurs_at_exec(prefix.as_slice(), data.as_slice(), 0) {
        return None;
    }
    let payload_start = h + b64.len();
    if payload_start >= t.len() {
        return None;
    }
    let mut end = payload_start;
    while end < t.len() && is_payload_char_exec(t[end])
        invariant
            payload_start <= end <= t.len(),
            payload_end(t@, payload_start as int) == payload_end(t@, end as int),
        decreases t.len() - end,
    {
        end += 1;
    }
    if end == payload_start {
        None
    } else {
        Some(end)
    }
}

/// The spans `(start, end)` of all embedded data image URLs, in order.
fn find_data_image_spans(t: &[char]) -> (r: Vec<(usize, usize)>)
    ensures
        spans_view(r@) == spans(t@),
{
    let data = chars_of("data:image/");
    proof {
        reveal_strlit("data:image/");
    }
    let mut out: Vec<(usize, usize)> = Vec::new();
    let mut from: usize = 0;
    loop
        invariant
            from <= t.len(),
            data@ == data_marker(),
            data_marker().len() == 11,
            spans_view(out@) + spans_from(t@, from as int) == spans(t@),
        ensures
            spans_view(out@) == spans(t@),
        decreases t.len() + 1 - from,
    {
        let found = find_from_exec(t, data.as_slice(), from);
        match found {
            None => {
                assert(spans_from(t@, from as int) == Seq::<(int, int)>::empty());
                assert(spans_view(out@) + Seq::<(int, int)>::empty() == spans_view(out@));
                break ;
            },
            Some(start) => {
                proof {
                    lemma_find_from_some(t@, data_marker(), from as int);
                }
                match consume_data_url(t, start) {
                    None => {
                        from = start + 1;
                    },
                    Some(end) => {
                        proof {
                            lemma_consume_after(t@, start as int);
                        }
                        let ghost old_out = out@;
                        out.push((start, end));
                        assert(spans_view(out@) == spans_view(old_out).push((start as int, end as int)));
                        assert(spans_from(t@, from as int) == seq![(start as int, end as int)] + spans_from(t@, end as int));
                        assert(spans_view(out@) + spans_from(t@, end as int) =~= spans_view(old_out) + spans_from(t@, from as int));
                        from = end;
                    },
                }
            },
        }
    }
    out
}

/// The integer view of a list of spans.
pub open spec fn spans_view(v: Seq<(usize, usize)>) -> Seq<(int, int)> {
    v.map_values(|p: (usize, usize)| (p.0 as int, p.1 as int))
}

} // verus!

verus! {

/// The Markdown image around the URL at `[us, ue)`: `(start, end, alt)`.
fn markdown_image_bounds(t: &[char], us: usize, ue: usize) -> (r: Option<(usize, usize, Vec<char>)>)
    requires
        us <= ue <= t.len(),
    ensures
        r matches Some(b) ==> md_bounds(t@, us as int, ue as int) == Some(
            (b.0 as int, b.1 as int, b.2@),
        ),
        r is None ==> md_bounds(t@, us as int, ue as int) is None,
{
    proof {
        reveal_strlit("](");
        reveal_strlit("![");
    }
    if us < 2 || t[us - 2] != ']' || t[us - 1] != '(' {
        proof {
            if us >= 2 {
                assert(t@.subrange(us - 2, us as int)[0] == t@[us - 2]);
                assert(t@.subrange(us - 2, us as int)[1] == t@[us - 1]);
            }
        }
        return None;
    }
    assert(t@.subrange(us - 2, us as int) =~= "]("@);
    let alt_close = us - 2;
    let ghost sub = t@.subrange(0, alt_close as int);
    // Search backwards for the last "![" that ends at or before `alt_close`.
    let mut k: usize = if alt_close >= 1 { alt_close - 1 } else { 0 };
    let mut found: Option<usize> = None;
    while k > 0
        invariant_except_break
            found is None,
        invariant
            k < alt_close || k == 0,
            k + 1 <= alt_close || k == 0,
            alt_close + 2 == us,
            us <= t.len(),
            sub == t@.subrange(0, alt_close as int),
            "!["@.len() == 2,
            rfind_before(sub, "!["@, alt_close - 2) == rfind_before(sub, "!["@, k - 1),
        ensures
            found matches Some(i) ==> rfind_before(sub, "!["@, alt_close - 2) == Some(i as int),
            found is None ==> rfind_before(sub, "!["@, alt_close - 2) is None,
        decreases k,
    {
        let i = k - 1;
        proof {
            reveal_strlit("![");
        }
        if t[i] == '!' && t[i + 1] == '[' {
            assert(sub.subrange(i as int, i + 2) =~= "!["@);
            found = Some(i);
            break ;
        }
        assert(!occurs_at(sub, "!["@, i as int)) by {
            if occurs_at(sub, "!["@, i as int) {
                assert(sub.subrange(i as int, i + 2)[0] == sub[i as int]);
                assert(sub.subrange(i as int, i + 2)[1] == sub[i + 1]);
            }
        }
        k = i;
    }
    let alt_open = match found {
        None => {
            return None;
        },
        Some(i) => i,
    };
    proof {
        lemma_rfind_before_some(sub, "!["@, alt_close - 2);
    }
    let alt = range_vec(t, alt_open + 2, alt_close);
    let mut e = ue;
    while e < t.len() && is_ascii_ws_exec(t[e])
        invariant
            ue <= e <= t.len(),
            ascii_ws_end(t@, ue as int) == ascii_ws_end(t@, e as int),
        decreases t.len() - e,
    {
        e += 1;
    }
    let end = if e < t.len() && t[e] == ')' {
        e + 1
    } else {
        e
    };
    Some((alt_open, end, alt))
}

/// The URL with its whitespace characters removed.
fn normalize_data_url(raw: &[char]) -> (r: Vec<char>)
    ensures
        r@ == remove_ws(raw@),
{
    let mut r: Vec<char> = Vec::new();
    let mut i: usize = 0;
    while i < raw.len()
        invariant
            i <= raw.len(),
            r@ == remove_ws(raw@.subrange(0, i as int)),
        decreases raw.len() - i,
    {
        let c = raw[i];
        assert(raw@.subrange(0, i + 1).drop_last() == raw@.subrange(0, i as int));
        if !char_is_ws(c) {
            r.push(c);
        }
        i += 1;
    }
    assert(raw@.subrange(0, raw.len() as int) == raw@);
    r
}

} // verus!

verus! {

/// Lemma: spans found from `from` lie in order inside the text, each after `from`.
pub proof fn lemma_spans_from_bounds(t: Seq<char>, from: int)
    requires
        0 <= from,
    ensures
        forall|j: int|
            0 <= j < spans_from(t, from).len() ==> from <= (#[trigger] spans_from(t, from)[j]).0
                < spans_from(t, from)[j].1 <= t.len(),
    decreases t.len() + 1 - from,
{
    match find_from(t, data_marker(), from) {
        None => {},
        Some(start) => {
            lemma_find_from_some(t, data_marker(), from);
            reveal_strlit("data:image/");
            match consume_spec(t, start) {
                None => {
                    lemma_spans_from_bounds(t, start + 1);
                    assert(spans_from(t, from) == spans_from(t, start + 1));
                },
                Some(end) => {
                    lemma_consume_after(t, start);
                    lemma_spans_from_bounds(t, end);
                    let rest = spans_from(t, end);
                    assert(spans_from(t, from) == seq![(start, end)] + rest);
                    assert forall|j: int| 0 <= j < spans_from(t, from).len() implies from <= (
                    #[trigger] spans_from(t, from)[j]).0 < spans_from(t, from)[j].1 <= t.len() by {
                        if j > 0 {
                            assert(spans_from(t, from)[j] == rest[j - 1]);
                        }
                    }
                },
            }
        },
    }
}

/// Lemma: the end of a whitespace run lies between its start and the text's end.
pub proof fn lemma_ascii_ws_end_bounds(t: Seq<char>, i: int)
    requires
        0 <= i <= t.len(),
    ensures
        i <= ascii_ws_end(t, i) <= t.len(),
    decreases t.len() - i,
{
    if i < t.len() && is_ascii_ws(t[i]) {
        lemma_ascii_ws_end_bounds(t, i + 1);
    }
}

/// Lemma: a Markdown image around `[us, ue)` starts before `us` and ends
/// between `ue` and the text's end.
pub proof fn lemma_md_bounds(t: Seq<char>, us: int, ue: int)
    requires
        0 <= us <= ue <= t.len(),
        md_bounds(t, us, ue) is Some,
    ensures
        md_bounds(t, us, ue).unwrap().0 < us,
        ue <= md_bounds(t, us, ue).unwrap().1 <= t.len(),
{
    reveal_strlit("![");
    let alt_close = us - 2;
    lemma_rfind_before_some(t.subrange(0, alt_close), "!["@, alt_close - 2);
    lemma_ascii_ws_end_bounds(t, ue);
}

fn push_placeholder(out: &mut String, alt: &Option<Vec<char>>)
    ensures
        final(out)@ == old(out)@ + placeholder(
            match alt {
                Some(v) => Some(v@),
                None => None,
            },
        ),
{
    match alt {
        Some(name) => {
            if name.len() > 0 {
                push_str(out, "![");
                push_chars(out, name.as_slice());
                push_str(out, "](已作为视觉输入附加)");
                assert(final(out)@ =~= old(out)@ + placeholder(Some(name@)));
            } else {
                push_str(out, "[已作为视觉输入附加]");
            }
        },
        None => {
            push_str(out, "[已作为视觉输入附加]");
        },
    }
}

/// Replaces each embedded data image URL of `text` (with its Markdown image
/// syntax, when present) by a placeholder, and returns the distinct
/// non-empty URLs, whitespace removed, in order of appearance.
pub fn extract_and_strip_data_images(text: &str) -> (r: (String, Vec<String>))
    requires
        strippable(text@),
    ensures
        r.0@ == strip_spec(text@).0,
        strings_view(r.1@) == strip_spec(text@).1,
{
    let t = chars_of(text);
    let found = find_data_image_spans(t.as_slice());
    if found.len() == 0 {
        return (owned(text), Vec::new());
    }
    proof {
        lemma_spans_from_bounds(t@, 0);
    }
    let mut images: Vec<String> = Vec::new();
    let mut out = String::new();
    let mut cursor: usize = 0;
    let mut j: usize = 0;
    while j < found.len()
        invariant
            t@ == text@,
            spans_view(found@) == spans(t@),
            j <= found.len(),
            cursor <= t.len(),
            strip_state(t@, j as int) == (out@, strings_view(images@), cursor as int),
            forall|k: int|
                0 <= k < spans(t@).len() ==> 0 <= (#[trigger] spans(t@)[k]).0 < spans(t@)[k].1
                    <= t.len(),
        decreases found.len() - j,
    {
        let (us, ue) = found[j];
        assert(spans(t@)[j as int] == (us as int, ue as int));
        let b = markdown_image_bounds(t.as_slice(), us, ue);
        proof {
            if b is Some {
                lemma_md_bounds(t@, us as int, ue as int);
            }
        }
        let (rs, re, alt) = match b {
            Some(x) => (x.0, x.1, Some(x.2)),
            None => (us, ue, None),
        };
        if rs < cursor {
            j += 1;
        } else {
            push_range(&mut out, t.as_slice(), cursor, rs);
            push_placeholder(&mut out, &alt);
            let raw = range_vec(t.as_slice(), us, ue);
            let url = normalize_data_url(raw.as_slice());
            let url_s = string_of(url.as_slice());
            let ghost old_images = images@;
            if url.len() > 0 && !strings_contain(&images, &url_s) {
                images.push(url_s);
                assert(strings_view(images@) =~= strings_view(old_images).push(url@));
            }
            cursor = re;
            j += 1;
        }
    }
    push_range(&mut out, t.as_slice(), cursor, t.len());
    (out, images)
}

/// The outcome of resolving inbound vision input.
#[derive(Debug, Clone, PartialEq, Eq)]
pub struct ResolvedInboundVision {
    pub text: String,
    pub images: Vec<String>,
    pub dropped_unsupported: usize,
}

/// What resolving vision input gives: the text, the images and the count of
/// images dropped because the provider has no vision support.
pub open spec fn resolve_spec(text: Seq<char>, extra: Seq<Seq<char>>, provider_supports: bool) -> (
    Seq<char>,
    Seq<Seq<char>>,
    nat,
) {
    let stripped = strip_spec(text);
    let images = collect_images(seq![], extra + stripped.1);
    if images.len() == 0 {
        (text, seq![], 0)
    } else if !provider_supports {
        (text, seq![], images.len())
    } else {
        (stripped.0, images, 0)
    }
}

/// Merges the extra (desktop) images with the data images embedded in
/// `text`, each without whitespace and deduplicated; the text loses its
/// embedded payloads only when the provider supports vision, and otherwise
/// all images are dropped and counted.
pub fn resolve_inbound_vision(text: &str, extra_images: Vec<String>, provider_supports: bool) -> (r:
    ResolvedInboundVision)
    requires
        strippable(text@),
    ensures
        (r.text@, strings_view(r.images@), r.dropped_unsupported as nat) == resolve_spec(
            text@,
            strings_view(extra_images@),
            provider_supports,
        ),
{
    let (stripped, embedded) = extract_and_strip_data_images(text);
    let mut all = extra_images;
    let ghost extra_view = strings_view(all@);
    let mut k: usize = 0;
    while k < embedded.len()
        invariant
            k <= embedded.len(),
            strings_view(all@) == extra_view + strings_view(embedded@).subrange(0, k as int),
        decreases embedded.len() - k,
    {
        let ghost before = all@;
        all.push(embedded[k].clone());
        assert(strings_view(all@) =~= strings_view(before).push(embedded@[k as int]@));
        assert(strings_view(embedded@).subrange(0, k + 1) =~= strings_view(embedded@).subrange(
            0,
            k as int,
        ).push(embedded@[k as int]@));
        k += 1;
    }
    assert(strings_view(embedded@).subrange(0, embedded.len() as int) =~= strings_view(embedded@));
    let mut images: Vec<String> = Vec::new();
    let mut i: usize = 0;
    assert(strings_view(images@) =~= Seq::<Seq<char>>::empty());
    assert(strings_view(all@).subrange(0, all.len() as int) =~= strings_view(all@));
    while i < all.len()
        invariant
            i <= all.len(),
            collect_images(seq![], strings_view(all@)) == collect_images(
                strings_view(images@),
                strings_view(all@).subrange(i as int, all.len() as int),
            ),
        decreases all.len() - i,
    {
        let ghost rest = strings_view(all@).subrange(i as int, all.len() as int);
        assert(rest[0] == all@[i as int]@);
        assert(rest.drop_first() =~= strings_view(all@).subrange(i + 1, all.len() as int));
        let raw = chars_of(all[i].as_str());
        let url = normalize_data_url(raw.as_slice());
        let url_s = string_of(url.as_slice());
        let ghost old_images = images@;
        if url.len() > 0 && !strings_contain(&images, &url_s) {
            images.push(url_s);
            assert(strings_view(images@) =~= strings_view(old_images).push(url@));
        }
        i += 1;
    }
    assert(strings_view(all@).subrange(all.len() as int, all.len() as int) =~= Seq::<
        Seq<char>,
    >::empty());
    if images.len() == 0 {
        return ResolvedInboundVision { text: owned(text), images, dropped_unsupported: 0 };
    }
    if !provider_supports {
        let n = images.len();
        return ResolvedInboundVision {
            text: owned(text),
            images: Vec::new(),
            dropped_unsupported: n,
        };
    }
    ResolvedInboundVision { text: stripped, images, dropped_unsupported: 0 }
}

} // verus!
