//! Big-endian byte encodings of unsigned integers.
//!
//! The wire format stores every integer (frame length prefix, token words,
//! array lengths, offsets) as a fixed-width big-endian byte string. This
//! module defines the mathematical encoding and its inverse, proves they
//! invert each other, and provides the executable readers and writers.

use vstd::prelude::*;

verus! {

/// 256 raised to the power `n`: the number of values an `n`-byte string can hold.
pub open spec fn pow256(n: nat) -> nat
    decreases n,
{
    if n == 0 {
        1
    } else {
        256 * pow256((n - 1) as nat)
    }
}

/// The `n`-byte big-endian encoding of `v % pow256(n)`.
pub open spec fn be_bytes(v: nat, n: nat) -> Seq<u8>
    decreases n,
{
    if n == 0 {
        Seq::empty()
    } else {
        be_bytes(v / 256, (n - 1) as nat) + seq![(v % 256) as u8]
    }
}

/// The unsigned integer a byte string denotes when read big-endian.
pub open spec fn be_val(s: Seq<u8>) -> nat
    decreases s.len(),
{
    if s.len() == 0 {
        0
    } else {
        256 * be_val(s.drop_last()) + s.last() as nat
    }
}

/// The concrete values of `pow256` at the widths the readers use.
pub proof fn lemma_pow256_small()
    ensures
        pow256(4) == 0x100000000,
        pow256(7) == 0x100000000000000,
        pow256(8) == 0x10000000000000000,
{
    assert(pow256(0) == 1);
    assert(pow256(1) == 256);
    assert(pow256(2) == 0x10000);
    assert(pow256(3) == 0x1000000);
    assert(pow256(4) == 0x100000000);
    assert(pow256(5) == 0x10000000000);
    assert(pow256(6) == 0x1000000000000);
    assert(pow256(7) == 0x100000000000000);
    assert(pow256(8) == 0x10000000000000000);
}

pub proof fn lemma_pow256_pos(n: nat)
    ensures
        pow256(n) >= 1,
    decreases n,
{
    if n > 0 {
        lemma_pow256_pos((n - 1) as nat);
    }
}

pub proof fn lemma_pow256_increases(i: nat, j: nat)
    requires
        i <= j,
    ensures
        pow256(i) <= pow256(j),
    decreases j,
{
    if i < j {
        lemma_pow256_increases(i, (j - 1) as nat);
        lemma_pow256_pos((j - 1) as nat);
    }
}

pub proof fn lemma_be_bytes_len(v: nat, n: nat)
    ensures
        be_bytes(v, n).len() == n,
    decreases n,
{
    if n > 0 {
        lemma_be_bytes_len(v / 256, (n - 1) as nat);
    }
}

/// Reading back the big-endian encoding of a representable value returns it.
pub proof fn lemma_be_val_of_be_bytes(v: nat, n: nat)
    requires
        v < pow256(n),
    ensures
        be_val(be_bytes(v, n)) == v,
    decreases n,
{
    if n == 0 {
    } else {
        let prefix = be_bytes(v / 256, (n - 1) as nat);
        lemma_be_bytes_len(v / 256, (n - 1) as nat);
        let s = be_bytes(v, n);
        assert(s.drop_last() =~= prefix);
        assert(s.last() == (v % 256) as u8);
        assert(v / 256 < pow256((n - 1) as nat)) by (nonlinear_arith)
            requires
                v < pow256(n),
                pow256(n) == 256 * pow256((n - 1) as nat),
        ;
        lemma_be_val_of_be_bytes(v / 256, (n - 1) as nat);
        assert(256 * (v / 256) + v % 256 == v) by (nonlinear_arith);
    }
}

/// A big-endian value splits at any position `k` into a high and a low part.
pub proof fn lemma_be_val_split(s: Seq<u8>, k: int)
    requires
        0 <= k <= s.len(),
    ensures
        be_val(s) == be_val(s.take(k)) * pow256((s.len() - k) as nat) + be_val(s.skip(k)),
    decreases s.len() - k,
{
    if k == s.len() {
        assert(s.take(k) =~= s);
        assert(s.skip(k) =~= Seq::<u8>::empty());
        assert(be_val(Seq::<u8>::empty()) == 0);
        assert(pow256(0) == 1);
        assert(be_val(s) * 1 == be_val(s)) by (nonlinear_arith);
    } else {
        let d = s.drop_last();
        lemma_be_val_split(d, k);
        assert(d.take(k) =~= s.take(k));
        assert(d.skip(k) =~= s.skip(k).drop_last());
        assert(s.skip(k).last() == s.last());
        let hi = be_val(s.take(k));
        let lo = be_val(d.skip(k));
        let m = pow256((s.len() - 1 - k) as nat);
        assert(pow256((s.len() - k) as nat) == 256 * m);
        assert(be_val(s.skip(k)) == 256 * lo + s.last());
        assert(be_val(s) == 256 * be_val(d) + s.last());
        assert(be_val(d) == hi * m + lo);
        assert(256 * (hi * m + lo) + s.last() == hi * (256 * m) + (256 * lo + s.last() as nat))
            by (nonlinear_arith);
        assert(be_val(s) == 256 * (hi * m + lo) + s.last());
        assert(hi * pow256((s.len() - k) as nat) == hi * (256 * m)) by (nonlinear_arith)
            requires
                pow256((s.len() - k) as nat) == 256 * m,
        ;
        assert(be_val(s) == hi * pow256((s.len() - k) as nat) + be_val(s.skip(k)));
    }
}

/// Leading zero bytes do not change the value.
pub proof fn lemma_be_val_leading_zeros(s: Seq<u8>, k: int)
    requires
        0 <= k <= s.len(),
        forall|j: int| 0 <= j < k ==> s[j] == 0,
    ensures
        be_val(s) == be_val(s.skip(k)),
{
    lemma_be_val_split(s, k);
    lemma_be_val_zero_prefix(s.take(k));
}

proof fn lemma_be_val_zero_prefix(s: Seq<u8>)
    requires
        forall|j: int| 0 <= j < s.len() ==> s[j] == 0,
    ensures
        be_val(s) == 0,
    decreases s.len(),
{
    if s.len() > 0 {
        lemma_be_val_zero_prefix(s.drop_last());
    }
}

/// A nonzero byte at position `j` forces the value past `pow256(len - 1 - j)`.
pub proof fn lemma_be_val_high_byte(s: Seq<u8>, j: int)
    requires
        0 <= j < s.len(),
        s[j] != 0,
    ensures
        be_val(s) >= pow256((s.len() - 1 - j) as nat),
{
    lemma_be_val_split(s, j + 1);
    let t = s.take(j + 1);
    assert(t.last() == s[j]);
    assert(be_val(t) >= 1);
    let m = pow256((s.len() - 1 - j) as nat);
    assert(be_val(t) * m >= 1 * m) by (nonlinear_arith)
        requires
            be_val(t) >= 1,
            m >= 0,
    ;
}

/// Appends the `n`-byte big-endian encoding of `v` (`n <= 32`; bytes above
/// the value's width come out zero, as the encoding demands).
pub fn push_be_bytes(out: &mut Vec<u8>, v: u64, n: usize)
    ensures
        final(out)@ == old(out)@ + be_bytes(v as nat, n as nat),
    decreases n,
{
    if n == 0 {
        assert(out@ =~= old(out)@ + be_bytes(v as nat, 0));
    } else {
        push_be_bytes(out, v / 256, n - 1);
        out.push((v % 256) as u8);
        assert(out@ =~= old(out)@ + be_bytes(v as nat, n as nat));
    }
}

/// Reads `k <= 8` bytes at `at` as one big-endian unsigned integer.
pub fn read_be_u64(b: &Vec<u8>, at: usize, k: usize) -> (v: u64)
    requires
        at + k <= b@.len(),
        k <= 8,
    ensures
        v as nat == be_val(b@.subrange(at as int, at + k)),
{
    let blen = b.len();
    let mut v: u64 = 0;
    let mut i: usize = 0;
    proof {
        assert(b@.subrange(at as int, at as int) =~= Seq::<u8>::empty());
    }
    while i < k
        invariant
            0 <= i <= k,
            k <= 8,
            at + k <= b@.len(),
            b@.len() == blen,
            v as nat == be_val(b@.subrange(at as int, at + i)),
            v < pow256(i as nat),
        decreases k - i,
    {
        proof {
            lemma_pow256_increases(i as nat, 7);
            lemma_pow256_small();
            let cur = b@.subrange(at as int, at + i);
            let next = b@.subrange(at as int, at + i + 1);
            assert(next.drop_last() =~= cur);
            assert(next.last() == b@[at + i]);
        }
        v = v * 256 + (b[at + i] as u64);
        i = i + 1;
    }
    v
}

/// Reads the 32-byte word at `at` as an unsigned integer, refusing one that
/// does not fit in 64 bits (such a word can never denote an offset or a
/// length inside an addressable buffer).
pub fn read_word_u64(b: &Vec<u8>, at: usize) -> (r: Option<u64>)
    requires
        at + 32 <= b@.len(),
    ensures
        match r {
            Some(v) => v as nat == be_val(b@.subrange(at as int, at + 32)),
            None => be_val(b@.subrange(at as int, at + 32)) > u64::MAX,
        },
{
    let blen = b.len();
    let ghost w = b@.subrange(at as int, at + 32);
    let mut i: usize = 0;
    while i < 24
        invariant
            0 <= i <= 24,
            at + 32 <= b@.len(),
            b@.len() == blen,
            w == b@.subrange(at as int, at + 32),
            forall|j: int| 0 <= j < i ==> w[j] == 0,
        decreases 24 - i,
    {
        if b[at + i] != 0 {
            proof {
                assert(w[i as int] == b@[at + i]);
                lemma_be_val_high_byte(w, i as int);
                lemma_pow256_increases(8, (31 - i) as nat);
                lemma_pow256_small();
            }
            return None;
        }
        i = i + 1;
    }
    let v = read_be_u64(b, at + 24, 8);
    proof {
        lemma_be_val_leading_zeros(w, 24);
        assert(w.skip(24) =~= b@.subrange(at + 24, at + 32));
    }
    Some(v)
}

} // verus!
