//! Decimal text of integers, as `{}` prints them.
use vstd::prelude::*;
use crate::text::push_char;

verus! {

/// The decimal digit character for `d < 10`.
pub open spec fn digit_char(d: nat) -> char {
    ((48 + d) as u32) as char
}

/// Decimal representation of a natural number, without leading zeros.
pub open spec fn dec(n: nat) -> Seq<char>
    decreases n,
{
    if n < 10 {
        seq![digit_char(n)]
    } else {
        dec(n / 10).push(digit_char(n % 10))
    }
}

/// Decimal representation of an integer, with a leading '-' when negative.
pub open spec fn idec(n: int) -> Seq<char> {
    if n < 0 {
        seq!['-'] + dec((-n) as nat)
    } else {
        dec(n as nat)
    }
}

/// `k` zero characters.
pub open spec fn zeros(k: int) -> Seq<char> {
    Seq::new(if k > 0 { k as nat } else { 0 }, |i: int| '0')
}

/// `n` in decimal, zero-padded to at least `w` characters, the sign counted in
/// the width and written before the zeros (the `{:0w}` format).
pub open spec fn padded(n: int, w: int) -> Seq<char> {
    if n < 0 {
        seq!['-'] + zeros(w - 1 - dec((-n) as nat).len()) + dec((-n) as nat)
    } else {
        zeros(w - dec(n as nat).len()) + dec(n as nat)
    }
}

/// Lemma: a decimal representation is never empty.
pub proof fn lemma_dec_len(n: nat)
    ensures
        dec(n).len() >= 1,
        n < 10 ==> dec(n).len() == 1,
        10 <= n < 100 ==> dec(n).len() == 2,
    decreases n,
{
    if n >= 10 {
        lemma_dec_len(n / 10);
    }
}

fn digit(d: u64) -> (c: char)
    requires
        d < 10,
    ensures
        c == digit_char(d as nat),
{
    let b: u8 = 48 + d as u8;
    b as char
}

/// Appends the decimal representation of `n`.
pub fn push_dec(s: &mut String, n: u64)
    ensures
        final(s)@ == old(s)@ + dec(n as nat),
    decreases n,
{
    if n >= 10 {
        push_dec(s, n / 10);
    }
    push_char(s, digit(n % 10));
    proof {
        if n >= 10 {
            assert(old(s)@ + dec(n as nat) =~= old(s)@ + dec((n / 10) as nat) + seq![digit_char((n % 10) as nat)]);
        } else {
            assert(old(s)@ + dec(n as nat) =~= old(s)@ + seq![digit_char((n % 10) as nat)]);
        }
    }
}

fn abs_i64(n: i64) -> (r: u64)
    ensures
        r as int == if n < 0 { -n } else { n as int },
{
    if n < 0 {
        if n == i64::MIN {
            9223372036854775808u64
        } else {
            (-n) as u64
        }
    } else {
        n as u64
    }
}

/// Appends the decimal representation of a signed integer.
pub fn push_idec(s: &mut String, n: i64)
    ensures
        final(s)@ == old(s)@ + idec(n as int),
{
    if n < 0 {
        push_char(s, '-');
    }
    let a = abs_i64(n);
    push_dec(s, a);
    assert(old(s)@ + idec(n as int) =~= if n < 0 { old(s)@.push('-') + dec(a as nat) } else { old(s)@ + dec(a as nat) });
}

fn dec_len(n: u64) -> (r: u64)
    ensures
        r == dec(n as nat).len(),
    decreases n,
{
    proof {
        lemma_dec_len(n as nat);
    }
    if n < 10 {
        1
    } else {
        let k = dec_len(n / 10);
        assert(dec(n as nat).len() == dec((n / 10) as nat).len() + 1);
        proof {
            lemma_dec_len_bound((n / 10) as nat);
        }
        k + 1
    }
}

proof fn lemma_dec_len_bound(n: nat)
    ensures
        dec(n).len() <= n + 1,
    decreases n,
{
    if n >= 10 {
        lemma_dec_len_bound(n / 10);
    }
}

fn push_zeros(s: &mut String, k: usize)
    ensures
        final(s)@ == old(s)@ + zeros(k as int),
{
    let ghost start = s@;
    let mut i: usize = 0;
    while i < k
        invariant
            i <= k,
            s@ == start + zeros(i as int),
        decreases k - i,
    {
        push_char(s, '0');
        assert(zeros(i + 1) =~= zeros(i as int).push('0'));
        i += 1;
    }
}

/// Appends `n` zero-padded to width `w` (the `{:0w}` format).
pub fn push_padded(s: &mut String, n: i64, w: usize)
    ensures
        final(s)@ == old(s)@ + padded(n as int, w as int),
{
    let a = abs_i64(n);
    let len = dec_len(a);
    if n < 0 {
        push_char(s, '-');
        if w as u64 > 1 && w as u64 - 1 > len {
            push_zeros(s, (w as u64 - 1 - len) as usize);
        } else {
            push_zeros(s, 0);
        }
    } else {
        if w as u64 > len {
            push_zeros(s, (w as u64 - len) as usize);
        } else {
            push_zeros(s, 0);
        }
    }
    push_dec(s, a);
    assert(zeros(0) =~= Seq::<char>::empty());
    assert(old(s)@ + padded(n as int, w as int) =~= if n < 0 {
        old(s)@.push('-') + zeros(w - 1 - len) + dec(a as nat)
    } else {
        old(s)@ + zeros(w - len) + dec(a as nat)
    });
}

} // verus!

verus! {

/// The decimal representation of `n` as a string.
pub fn dec_string(n: u64) -> (r: String)
    ensures
        r@ == dec(n as nat),
{
    let mut s = String::new();
    push_dec(&mut s, n);
    assert(s@ =~= dec(n as nat));
    s
}

} // verus!
