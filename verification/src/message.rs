//! Inbound messages as the gateway reads them: the channel, the sender, the
//! session, the text and the metadata values that the logic looks at.
use vstd::prelude::*;
use crate::session::ChannelKind;
use crate::text::str_is;

verus! {

/// A metadata value, as far as the gateway reads it.
pub enum MetaValue {
    Bool(bool),
    Str(String),
    /// A number, with its value when it is a non-negative integer that fits
    /// in `u64` (what `as_u64` gives).
    Num(Option<u64>),
    /// An array, with each item's text when the item is a string.
    Array(Vec<Option<String>>),
    /// Null or an object.
    Other,
}

/// An inbound message. `metadata` holds the entries of its metadata object,
/// in order.
pub struct InboundMessage {
    pub channel: ChannelKind,
    pub user_id: Option<String>,
    pub session_id: Option<String>,
    pub text: String,
    pub metadata: Vec<(String, MetaValue)>,
}

/// Where a reply goes.
pub struct ReplyTarget {
    pub channel: ChannelKind,
    pub chat_id: String,
    pub message_id: Option<String>,
    pub user_id: Option<String>,
}

/// The value of the first metadata entry named `key`.
pub open spec fn meta_lookup(m: Seq<(String, MetaValue)>, key: Seq<char>) -> Option<MetaValue>
    decreases m.len(),
{
    if m.len() == 0 {
        None
    } else if m[0].0@ == key {
        Some(m[0].1)
    } else {
        meta_lookup(m.drop_first(), key)
    }
}

/// The text of the metadata entry named `key`, when it is a string.
pub open spec fn meta_get(m: Seq<(String, MetaValue)>, key: Seq<char>) -> Option<Seq<char>> {
    match meta_lookup(m, key) {
        Some(MetaValue::Str(s)) => Some(s@),
        _ => None,
    }
}

/// The position of the first metadata entry named `key`.
pub fn metadata_index(m: &Vec<(String, MetaValue)>, key: &str) -> (r: Option<usize>)
    ensures
        r matches Some(i) ==> i < m@.len() && m@[i as int].0@ == key@ && meta_lookup(m@, key@)
            == Some(m@[i as int].1) && forall|j: int| 0 <= j < i ==> m@[j].0@ != key@,
        r is None ==> meta_lookup(m@, key@) is None,
{
    let mut i: usize = 0;
    assert(m@.subrange(0, m@.len() as int) =~= m@);
    while i < m.len()
        invariant
            i <= m.len(),
            meta_lookup(m@, key@) == meta_lookup(m@.subrange(i as int, m@.len() as int), key@),
            forall|j: int| 0 <= j < i ==> m@[j].0@ != key@,
        decreases m.len() - i,
    {
        let ghost rest = m@.subrange(i as int, m@.len() as int);
        assert(rest.drop_first() =~= m@.subrange(i + 1, m@.len() as int));
        assert(rest[0] == m@[i as int]);
        if str_is(m[i].0.as_str(), key) {
            return Some(i);
        }
        i += 1;
    }
    None
}

/// The text of the metadata entry named `key`, when it is a string.
pub fn metadata_text(m: &Vec<(String, MetaValue)>, key: &str) -> (r: Option<String>)
    ensures
        r matches Some(v) ==> meta_get(m@, key@) == Some(v@),
        r is None ==> meta_get(m@, key@) is None,
{
    match metadata_index(m, key) {
        Some(i) => match &m[i].1 {
            MetaValue::Str(s) => Some(s.clone()),
            _ => None,
        },
        None => None,
    }
}

/// Looking up a key after an entry is added at the end: an earlier entry
/// wins, else the new one when it has the key.
pub proof fn lemma_lookup_push(m: Seq<(String, MetaValue)>, e: (String, MetaValue), k: Seq<char>)
    ensures
        meta_lookup(m.push(e), k) == if meta_lookup(m, k) is Some {
            meta_lookup(m, k)
        } else if e.0@ == k {
            Some(e.1)
        } else {
            None
        },
    decreases m.len(),
{
    if m.len() > 0 {
        assert(m.push(e)[0] == m[0]);
        assert(m.push(e).drop_first() =~= m.drop_first().push(e));
        lemma_lookup_push(m.drop_first(), e, k);
    } else {
        assert(m.push(e)[0] == e);
        assert(m.push(e).drop_first() =~= m);
        assert(meta_lookup(m, k) is None);
    }
}

/// Looking up a key after the first entry of `e`'s key is replaced by `e`.
pub proof fn lemma_lookup_update(m: Seq<(String, MetaValue)>, i: int, e: (String, MetaValue), k: Seq<char>)
    requires
        0 <= i < m.len(),
        m[i].0@ == e.0@,
        forall|j: int| 0 <= j < i ==> m[j].0@ != e.0@,
    ensures
        meta_lookup(m.update(i, e), k) == if k == e.0@ {
            Some(e.1)
        } else {
            meta_lookup(m, k)
        },
    decreases m.len(),
{
    if i == 0 {
        assert(m.update(i, e).drop_first() =~= m.drop_first());
    } else {
        assert(m.update(i, e).drop_first() =~= m.drop_first().update(i - 1, e));
        lemma_lookup_update(m.drop_first(), i - 1, e, k);
    }
}

/// Sets the metadata entry `key` to `value`, as a map insert does: the first
/// entry of that name is replaced, or a new entry is added at the end.
pub fn metadata_insert(m: &mut Vec<(String, MetaValue)>, key: &str, value: MetaValue)
    ensures
        meta_lookup(final(m)@, key@) == Some(value),
        forall|k: Seq<char>| k != key@ ==> #[trigger] meta_lookup(final(m)@, k) == meta_lookup(old(m)@, k),
{
    let entry = (crate::text::owned(key), value);
    match metadata_index(m, key) {
        Some(i) => {
            proof {
                assert forall|k: Seq<char>| true implies meta_lookup(m@.update(i as int, entry), k) == (
                if k == key@ {
                    Some(entry.1)
                } else {
                    meta_lookup(m@, k)
                }) by {
                    lemma_lookup_update(m@, i as int, entry, k);
                }
            }
            m.set(i, entry);
        },
        None => {
            proof {
                assert forall|k: Seq<char>| true implies meta_lookup(m@.push(entry), k) == (if k
                    == key@ {
                    Some(entry.1)
                } else {
                    meta_lookup(m@, k)
                }) by {
                    lemma_lookup_push(m@, entry, k);
                    if k != key@ && meta_lookup(m@, k) is None {
                    }
                }
            }
            m.push(entry);
        },
    }
}

} // verus!
