//! Three-way orders on the values the gateway sorts by, and the lemmas that
//! make them total preorders.
use vstd::prelude::*;

verus! {

/// The outcome of comparing two values.
#[derive(Debug, Clone, Copy, PartialEq, Eq, Structural)]
pub enum Order3 {
    Less,
    Equal,
    Greater,
}

/// The opposite outcome.
pub open spec fn flip(o: Order3) -> Order3 {
    match o {
        Order3::Less => Order3::Greater,
        Order3::Equal => Order3::Equal,
        Order3::Greater => Order3::Less,
    }
}

/// Integers in their natural order.
pub open spec fn int_order(a: int, b: int) -> Order3 {
    if a < b {
        Order3::Less
    } else if a > b {
        Order3::Greater
    } else {
        Order3::Equal
    }
}

/// Character sequences in lexicographic order of code points (the order of
/// `str` comparison, since UTF-8 keeps code point order).
pub open spec fn lex(a: Seq<char>, b: Seq<char>) -> Order3
    decreases a.len(),
{
    if a.len() == 0 {
        if b.len() == 0 {
            Order3::Equal
        } else {
            Order3::Less
        }
    } else if b.len() == 0 {
        Order3::Greater
    } else if a[0] < b[0] {
        Order3::Less
    } else if a[0] > b[0] {
        Order3::Greater
    } else {
        lex(a.drop_first(), b.drop_first())
    }
}

/// Optional sequences: absent before present, then lexicographic.
pub open spec fn opt_lex(a: Option<Seq<char>>, b: Option<Seq<char>>) -> Order3 {
    match (a, b) {
        (None, None) => Order3::Equal,
        (None, Some(_)) => Order3::Less,
        (Some(_), None) => Order3::Greater,
        (Some(x), Some(y)) => lex(x, y),
    }
}

/// Lemma: lexicographic order is a total order.
pub proof fn lemma_lex(a: Seq<char>, b: Seq<char>, c: Seq<char>)
    ensures
        lex(a, b) == flip(lex(b, a)),
        lex(a, b) == Order3::Equal <==> a == b,
        lex(a, b) == Order3::Less && lex(b, c) == Order3::Less ==> lex(a, c) == Order3::Less,
        lex(a, a) == Order3::Equal,
    decreases a.len(),
{
    if a.len() > 0 && b.len() > 0 && c.len() > 0 {
        lemma_lex(a.drop_first(), b.drop_first(), c.drop_first());
        if a[0] == b[0] && lex(a.drop_first(), b.drop_first()) == Order3::Equal {
            assert(a[0] == b[0]);
            assert(a =~= seq![a[0]] + a.drop_first());
            assert(b =~= seq![b[0]] + b.drop_first());
        }
    } else if a.len() > 0 && b.len() > 0 {
        lemma_lex(a.drop_first(), b.drop_first(), b.drop_first());
        if a[0] == b[0] && lex(a.drop_first(), b.drop_first()) == Order3::Equal {
            assert(a[0] == b[0]);
            assert(a =~= seq![a[0]] + a.drop_first());
            assert(b =~= seq![b[0]] + b.drop_first());
        }
    } else if a.len() > 0 {
        lemma_lex(a.drop_first(), a.drop_first(), a.drop_first());
    }
    if a.len() > 0 && a == b {
        lemma_lex(a.drop_first(), a.drop_first(), a.drop_first());
    }
    if a.len() == 0 && b.len() == 0 {
        assert(a =~= b);
    }
}

/// Lemma: `opt_lex` is a total order.
pub proof fn lemma_opt_lex(a: Option<Seq<char>>, b: Option<Seq<char>>, c: Option<Seq<char>>)
    ensures
        opt_lex(a, b) == flip(opt_lex(b, a)),
        opt_lex(a, b) == Order3::Equal <==> a == b,
        opt_lex(a, b) == Order3::Less && opt_lex(b, c) == Order3::Less ==> opt_lex(a, c)
            == Order3::Less,
{
    match (a, b, c) {
        (Some(x), Some(y), Some(z)) => {
            lemma_lex(x, y, z);
        },
        (Some(x), Some(y), None) => {
            lemma_lex(x, y, y);
        },
        (Some(x), None, Some(z)) => {
            lemma_lex(x, z, z);
        },
        (None, Some(y), Some(z)) => {
            lemma_lex(y, z, z);
        },
        _ => {},
    }
}

/// Three-way comparison of character sequences.
pub fn lex_exec(a: &[char], b: &[char]) -> (r: Order3)
    ensures
        r == lex(a@, b@),
{
    let mut i: usize = 0;
    assert(a@.subrange(0, a.len() as int) =~= a@);
    assert(b@.subrange(0, b.len() as int) =~= b@);
    while i < a.len() && i < b.len()
        invariant
            i <= a.len(),
            i <= b.len(),
            lex(a@, b@) == lex(a@.subrange(i as int, a.len() as int), b@.subrange(i as int, b.len() as int)),
        decreases a.len() - i,
    {
        let ghost sa = a@.subrange(i as int, a.len() as int);
        let ghost sb = b@.subrange(i as int, b.len() as int);
        assert(sa[0] == a@[i as int] && sb[0] == b@[i as int]);
        if a[i] < b[i] {
            return Order3::Less;
        }
        if a[i] > b[i] {
            return Order3::Greater;
        }
        assert(sa.drop_first() =~= a@.subrange(i + 1, a.len() as int));
        assert(sb.drop_first() =~= b@.subrange(i + 1, b.len() as int));
        i += 1;
    }
    if i == a.len() {
        if i == b.len() {
            Order3::Equal
        } else {
            Order3::Less
        }
    } else {
        Order3::Greater
    }
}

} // verus!
