//! Byte-level building blocks: little-endian integers, length prefixes and
//! comparisons.

use vstd::prelude::*;

verus! {

/// The two low-order bytes of `x`, least significant first.
pub open spec fn le2(x: int) -> Seq<u8> {
    seq![(x % 256) as u8, (x / 256 % 256) as u8]
}

/// The four low-order bytes of `x`, least significant first.
pub open spec fn le4(x: int) -> Seq<u8> {
    seq![
        (x % 256) as u8,
        (x / 256 % 256) as u8,
        (x / 65536 % 256) as u8,
        (x / 16777216 % 256) as u8,
    ]
}

/// The eight low-order bytes of `x`, least significant first.
pub open spec fn le8(x: int) -> Seq<u8> {
    le4(x) + le4(x / 0x1_0000_0000)
}

/// The integer that the bytes spell, least significant first.
pub open spec fn le_nat(s: Seq<u8>) -> nat
    decreases s.len(),
{
    if s.len() == 0 {
        0
    } else {
        s[0] as nat + 256 * le_nat(s.drop_first())
    }
}

/// An optional byte string as a byte string, empty where there is none.
pub open spec fn or_empty(bytes: Option<Seq<u8>>) -> Seq<u8> {
    match bytes {
        Some(b) => b,
        None => Seq::empty(),
    }
}

/// Splits a block off the front of `s` whose length stands before it in two bytes.
pub open spec fn split_prefixed2(s: Seq<u8>) -> Option<(Seq<u8>, Seq<u8>)> {
    let n = le_nat(s.take(2));
    if s.len() < 2 || s.len() < 2 + n {
        None
    } else {
        Some((s.subrange(2, 2 + n as int), s.skip(2 + n as int)))
    }
}

/// Splits a block off the front of `s` whose length stands before it in four bytes.
pub open spec fn split_prefixed4(s: Seq<u8>) -> Option<(Seq<u8>, Seq<u8>)> {
    let n = le_nat(s.take(4));
    if s.len() < 4 || s.len() < 4 + n {
        None
    } else {
        Some((s.subrange(4, 4 + n as int), s.skip(4 + n as int)))
    }
}

/// `block` behind its length in two bytes.
pub open spec fn prefixed2(block: Seq<u8>) -> Seq<u8> {
    le2(block.len() as int) + block
}

/// `block` behind its length in four bytes.
pub open spec fn prefixed4(block: Seq<u8>) -> Seq<u8> {
    le4(block.len() as int) + block
}

pub proof fn lemma_le_nat_2(s: Seq<u8>)
    requires
        s.len() == 2,
    ensures
        le_nat(s) == s[0] as nat + 256 * s[1] as nat,
{
    reveal_with_fuel(le_nat, 3);
}

pub proof fn lemma_le_nat_4(s: Seq<u8>)
    requires
        s.len() == 4,
    ensures
        le_nat(s) == s[0] as nat + 256 * s[1] as nat + 65536 * s[2] as nat + 16777216
            * s[3] as nat,
{
    reveal_with_fuel(le_nat, 5);
}

proof fn lemma_digits_4(x: int)
    requires
        0 <= x < 0x1_0000_0000,
    ensures
        x % 256 + 256 * (x / 256 % 256) + 65536 * (x / 65536 % 256) + 16777216 * (x / 16777216
            % 256) == x,
{
    let a = x / 256;
    let b = a / 256;
    let c = b / 256;
    assert(b == x / 65536);
    assert(c == x / 16777216);
    assert(c < 256);
    assert(x == 256 * a + x % 256);
    assert(a == 256 * b + a % 256);
    assert(b == 256 * c + b % 256);
}

/// Two little-endian bytes spell the integer they were made from.
pub proof fn le2_round_trip(x: int)
    requires
        0 <= x < 0x1_0000,
    ensures
        le_nat(le2(x)) == x,
{
    lemma_le_nat_2(le2(x));
}

/// Four little-endian bytes spell the integer they were made from.
pub proof fn le4_round_trip(x: int)
    requires
        0 <= x < 0x1_0000_0000,
    ensures
        le_nat(le4(x)) == x,
{
    lemma_le_nat_4(le4(x));
    lemma_digits_4(x);
}

/// Eight little-endian bytes spell the integer they were made from.
pub proof fn le8_round_trip(x: int)
    requires
        0 <= x < 0x1_0000_0000_0000_0000,
    ensures
        le_nat(le8(x)) == x,
{
    let high = x / 0x1_0000_0000;
    let low = x % 0x1_0000_0000;
    assert(x == high * 0x1_0000_0000 + low);
    assert(le4(x) =~= le4(low)) by {
        assert(x % 256 == low % 256);
        assert(x / 256 % 256 == low / 256 % 256);
        assert(x / 65536 % 256 == low / 65536 % 256);
        assert(x / 16777216 % 256 == low / 16777216 % 256);
    }
    le4_round_trip(low);
    le4_round_trip(high);
    let s = le8(x);
    lemma_le_nat_4(le4(low));
    lemma_le_nat_4(le4(high));
    let t = s.drop_first().drop_first().drop_first().drop_first();
    assert(t =~= le4(high));
    reveal_with_fuel(le_nat, 5);
}

/// A block written behind a two-byte length is read back, with what follows it.
pub proof fn lemma_split_prefixed2(block: Seq<u8>, rest: Seq<u8>)
    requires
        block.len() < 0x1_0000,
    ensures
        split_prefixed2(prefixed2(block) + rest) == Some((block, rest)),
{
    let s = prefixed2(block) + rest;
    assert(s.take(2) =~= le2(block.len() as int));
    le2_round_trip(block.len() as int);
    assert(s.subrange(2, 2 + block.len() as int) =~= block);
    assert(s.skip(2 + block.len() as int) =~= rest);
}

/// A block written behind a four-byte length is read back, with what follows it.
pub proof fn lemma_split_prefixed4(block: Seq<u8>, rest: Seq<u8>)
    requires
        block.len() < 0x1_0000_0000,
    ensures
        split_prefixed4(prefixed4(block) + rest) == Some((block, rest)),
{
    let s = prefixed4(block) + rest;
    assert(s.take(4) =~= le4(block.len() as int));
    le4_round_trip(block.len() as int);
    assert(s.subrange(4, 4 + block.len() as int) =~= block);
    assert(s.skip(4 + block.len() as int) =~= rest);
}

/// Zero bytes at the end add nothing to what the bytes spell.
pub proof fn lemma_le_nat_zero_tail(s: Seq<u8>, zeros: Seq<u8>)
    requires
        forall|i: int| 0 <= i < zeros.len() ==> zeros[i] == 0,
    ensures
        le_nat(s + zeros) == le_nat(s),
    decreases s.len() + zeros.len(),
{
    if s.len() > 0 {
        assert((s + zeros).drop_first() =~= s.drop_first() + zeros);
        lemma_le_nat_zero_tail(s.drop_first(), zeros);
    } else if zeros.len() > 0 {
        assert((s + zeros).drop_first() =~= s + zeros.drop_first());
        lemma_le_nat_zero_tail(s, zeros.drop_first());
    }
}

/// `n` bytes spell less than the `n`th power of 256.
pub proof fn lemma_le_nat_bound_16(s: Seq<u8>)
    requires
        s.len() == 16,
    ensures
        le_nat(s) < 0x1_0000_0000_0000_0000_0000_0000_0000_0000int,
{
    reveal_with_fuel(le_nat, 17);
}

/// Appends the bytes of `s`.
pub fn append_slice(out: &mut Vec<u8>, s: &[u8])
    ensures
        final(out)@ == old(out)@ + s@,
{
    out.extend_from_slice(s);
    assert(out@ =~= old(out)@ + s@);
}

/// Appends the two low-order bytes of `x`.
pub fn push_le2(out: &mut Vec<u8>, x: u64)
    ensures
        final(out)@ == old(out)@ + le2(x as int),
{
    out.push((x % 256) as u8);
    out.push((x / 256 % 256) as u8);
    assert(out@ =~= old(out)@ + le2(x as int));
}

/// Appends the four low-order bytes of `x`.
pub fn push_le4(out: &mut Vec<u8>, x: u64)
    ensures
        final(out)@ == old(out)@ + le4(x as int),
{
    out.push((x % 256) as u8);
    out.push((x / 256 % 256) as u8);
    out.push((x / 65536 % 256) as u8);
    out.push((x / 16777216 % 256) as u8);
    assert(out@ =~= old(out)@ + le4(x as int));
}

/// Appends the eight bytes of `x`.
pub fn push_le8(out: &mut Vec<u8>, x: u64)
    ensures
        final(out)@ == old(out)@ + le8(x as int),
{
    push_le4(out, x);
    push_le4(out, x / 0x1_0000_0000);
    assert(out@ =~= old(out)@ + le8(x as int));
}

/// Appends `block` behind its length in two bytes.
pub fn push_prefixed2(out: &mut Vec<u8>, block: &[u8])
    ensures
        final(out)@ == old(out)@ + prefixed2(block@),
{
    push_le2(out, block.len() as u64);
    append_slice(out, block);
    assert(out@ =~= old(out)@ + prefixed2(block@));
}

/// Appends `block` behind its length in four bytes.
pub fn push_prefixed4(out: &mut Vec<u8>, block: &[u8])
    ensures
        final(out)@ == old(out)@ + prefixed4(block@),
{
    push_le4(out, block.len() as u64);
    append_slice(out, block);
    assert(out@ =~= old(out)@ + prefixed4(block@));
}

/// Reads a block behind a two-byte length, and what follows it.
pub fn read_prefixed2(s: &[u8]) -> (r: Option<(&[u8], &[u8])>)
    ensures
        match r {
            Some((block, rest)) => split_prefixed2(s@) == Some((block@, rest@)),
            None => split_prefixed2(s@) is None,
        },
{
    if s.len() < 2 {
        return None;
    }
    let n: usize = s[0] as usize + 256 * s[1] as usize;
    proof {
        lemma_le_nat_2(s@.take(2));
    }
    if s.len() - 2 < n {
        return None;
    }
    let block = vstd::slice::slice_subrange(s, 2, 2 + n);
    let rest = vstd::slice::slice_subrange(s, 2 + n, s.len());
    Some((block, rest))
}

/// Reads a block behind a four-byte length, and what follows it.
pub fn read_prefixed4(s: &[u8]) -> (r: Option<(&[u8], &[u8])>)
    ensures
        match r {
            Some((block, rest)) => split_prefixed4(s@) == Some((block@, rest@)),
            None => split_prefixed4(s@) is None,
        },
{
    if s.len() < 4 {
        return None;
    }
    let n: u64 = s[0] as u64 + 256 * s[1] as u64 + 65536 * s[2] as u64 + 16777216 * s[3] as u64;
    proof {
        lemma_le_nat_4(s@.take(4));
    }
    if ((s.len() - 4) as u64) < n {
        return None;
    }
    let n: usize = n as usize;
    let block = vstd::slice::slice_subrange(s, 4, 4 + n);
    let rest = vstd::slice::slice_subrange(s, 4 + n, s.len());
    Some((block, rest))
}

/// Whether two byte strings are the same.
pub fn same_bytes(a: &[u8], b: &[u8]) -> (r: bool)
    ensures
        r == (a@ == b@),
{
    if a.len() != b.len() {
        return false;
    }
    let mut i: usize = 0;
    while i < a.len()
        invariant
            a@.len() == b@.len(),
            i <= a@.len(),
            forall|j: int| 0 <= j < i ==> a@[j] == b@[j],
        decreases a@.len() - i,
    {
        if a[i] != b[i] {
            return false;
        }
        i += 1;
    }
    assert(a@ =~= b@);
    true
}

/// The bytes of a slice of length `N`, as an array.
pub fn to_array<const N: usize>(s: &[u8]) -> (r: [u8; N])
    requires
        s@.len() == N,
    ensures
        r@ == s@,
{
    let mut out: [u8; N] = [0u8; N];
    let mut i: usize = 0;
    while i < N
        invariant
            s@.len() == N,
            i <= N,
            forall|j: int| 0 <= j < i ==> out@[j] == s@[j],
        decreases N - i,
    {
        out[i] = s[i];
        i += 1;
    }
    assert(out@ =~= s@);
    out
}

/// A copy of a byte string.
pub fn to_vec(s: &[u8]) -> (r: Vec<u8>)
    ensures
        r@ == s@,
{
    let mut out: Vec<u8> = Vec::new();
    append_slice(&mut out, s);
    assert(out@ =~= s@);
    out
}

} // verus!
