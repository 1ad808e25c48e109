//! Byte strings: the few operations on text that the rest is built from.

use vstd::prelude::*;

verus! {

/// Appends `src` to `dst`.
pub fn append_bytes(dst: &mut Vec<u8>, src: &[u8])
    ensures
        final(dst)@ == old(dst)@ + src@,
{
    let mut i: usize = 0;
    while i < src.len()
        invariant
            i <= src@.len(),
            dst@ == old(dst)@ + src@.subrange(0, i as int),
        decreases src@.len() - i,
    {
        dst.push(src[i]);
        i += 1;
        assert(dst@ =~= old(dst)@ + src@.subrange(0, i as int));
    }
    assert(src@.subrange(0, i as int) =~= src@);
}

/// A copy of `src[start..end]`.
pub fn copy_range(src: &[u8], start: usize, end: usize) -> (r: Vec<u8>)
    requires
        start <= end <= src@.len(),
    ensures
        r@ == src@.subrange(start as int, end as int),
{
    let mut out: Vec<u8> = Vec::new();
    let mut i: usize = start;
    while i < end
        invariant
            start <= i <= end <= src@.len(),
            out@ == src@.subrange(start as int, i as int),
        decreases end - i,
    {
        out.push(src[i]);
        i += 1;
        assert(out@ =~= src@.subrange(start as int, i as int));
    }
    out
}

/// Whether two byte strings hold the same bytes.
pub fn bytes_equal(a: &[u8], b: &[u8]) -> (r: bool)
    ensures
        r == (a@ == b@),
{
    if a.len() != b.len() {
        return false;
    }
    let mut i: usize = 0;
    while i < a.len()
        invariant
            a@.len() == b@.len(),
            i <= a@.len(),
            forall|k: int| 0 <= k < i ==> a@[k] == b@[k],
        decreases a@.len() - i,
    {
        if a[i] != b[i] {
            return false;
        }
        i += 1;
    }
    assert(a@ =~= b@);
    true
}

/// The decimal digits of a natural number, most significant first.
pub open spec fn decimal_digits(n: nat) -> Seq<u8>
    decreases n,
{
    if n < 10 {
        seq![(48 + n) as u8]
    } else {
        decimal_digits(n / 10).push((48 + n % 10) as u8)
    }
}

/// An integer in decimal, with a leading `-` when negative.
pub open spec fn decimal_text(n: int) -> Seq<u8> {
    if n < 0 {
        seq![45u8] + decimal_digits((-n) as nat)
    } else {
        decimal_digits(n as nat)
    }
}

/// `s` read from its end.
pub open spec fn reversed(s: Seq<u8>) -> Seq<u8> {
    Seq::new(s.len(), |i: int| s[s.len() - 1 - i])
}

/// Appends `n` in decimal to `dst`.
pub fn append_decimal(dst: &mut Vec<u8>, n: i128)
    requires
        n > i128::MIN,
    ensures
        final(dst)@ == old(dst)@ + decimal_text(n as int),
{
    let mut m: u128 = 0;
    if n < 0 {
        dst.push(45u8);
        m = (0 - n) as u128;
    } else {
        m = n as u128;
    }
    let ghost start = dst@;
    let ghost whole = m;
    let mut low: Vec<u8> = Vec::new();
    while m >= 10
        invariant
            decimal_digits(whole as nat) == decimal_digits(m as nat) + reversed(low@),
        decreases m,
    {
        let d: u8 = (48 + m % 10) as u8;
        proof {
            assert(reversed(low@.push(d)) =~= seq![d] + reversed(low@));
            assert(decimal_digits(m as nat) == decimal_digits((m / 10) as nat).push(d));
            assert(decimal_digits((m / 10) as nat).push(d) + reversed(low@)
                =~= decimal_digits((m / 10) as nat) + reversed(low@.push(d)));
        }
        low.push(d);
        m = m / 10;
    }
    dst.push((48 + m) as u8);
    let mut i: usize = low.len();
    while i > 0
        invariant
            i <= low@.len(),
            dst@ == start + decimal_digits(m as nat) + reversed(low@).subrange(
                0,
                low@.len() - i,
            ),
        decreases i,
    {
        i -= 1;
        dst.push(low[i]);
        assert(dst@ =~= start + decimal_digits(m as nat) + reversed(low@).subrange(
            0,
            low@.len() - i,
        ));
    }
    assert(reversed(low@).subrange(0, low@.len() as int) =~= reversed(low@));
    assert(dst@ =~= start + (decimal_digits(m as nat) + reversed(low@)));
    assert(dst@ =~= old(dst)@ + decimal_text(n as int));
}

/// Whether `src[a..a + a_len]` and `src[b..b + b_len]` hold the same bytes.
pub fn ranges_equal(src: &[u8], a: usize, a_len: usize, b: usize, b_len: usize) -> (r: bool)
    requires
        a + a_len <= src@.len(),
        b + b_len <= src@.len(),
    ensures
        r == (src@.subrange(a as int, a + a_len) == src@.subrange(b as int, b + b_len)),
{
    let _ = src.len();
    if a_len != b_len {
        assert(src@.subrange(a as int, a + a_len).len() != src@.subrange(b as int, b + b_len).len());
        return false;
    }
    let mut i: usize = 0;
    while i < a_len
        invariant
            a_len == b_len,
            a + a_len <= src@.len() <= usize::MAX,
            b + b_len <= src@.len(),
            i <= a_len,
            forall|k: int|
                0 <= k < i ==> #[trigger] src@.subrange(a as int, a + a_len)[k] == src@.subrange(
                    b as int,
                    b + b_len,
                )[k],
        decreases a_len - i,
    {
        if src[a + i] != src[b + i] {
            assert(src@.subrange(a as int, a + a_len)[i as int] != src@.subrange(
                b as int,
                b + b_len,
            )[i as int]);
            return false;
        }
        i += 1;
    }
    assert(src@.subrange(a as int, a + a_len) =~= src@.subrange(b as int, b + b_len));
    true
}

} // verus!
