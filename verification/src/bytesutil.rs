//! Little-endian integer serialization used by the envelope payload format.

use vstd::prelude::*;

verus! {

/// 256 to the power `n`.
pub open spec fn pow256(n: nat) -> nat
    decreases n,
{
    if n == 0 {
        1
    } else {
        256 * pow256((n - 1) as nat)
    }
}

/// The `n` little-endian bytes of a number (high bits beyond `n` bytes drop).
pub open spec fn le_bytes_of(v: nat, n: nat) -> Seq<u8>
    decreases n,
{
    if n == 0 {
        seq![]
    } else {
        seq![(v % 256) as u8] + le_bytes_of(v / 256, (n - 1) as nat)
    }
}

/// The number denoted by little-endian bytes.
pub open spec fn le_value_of(s: Seq<u8>) -> nat
    decreases s.len(),
{
    if s.len() == 0 {
        0
    } else {
        (s[0] + 256 * le_value_of(s.drop_first())) as nat
    }
}

/// `le_bytes_of` always yields exactly `n` bytes.
pub proof fn lemma_le_bytes_len(v: nat, n: nat)
    ensures
        le_bytes_of(v, n).len() == n,
    decreases n,
{
    if n > 0 {
        lemma_le_bytes_len(v / 256, (n - 1) as nat);
    }
}

/// A little-endian byte string denotes less than 256 to its length.
pub proof fn lemma_le_value_bound(s: Seq<u8>)
    ensures
        le_value_of(s) < pow256(s.len()),
    decreases s.len(),
{
    if s.len() == 0 {
    } else {
        lemma_le_value_bound(s.drop_first());
        assert(le_value_of(s) < pow256(s.len())) by (nonlinear_arith)
            requires
                le_value_of(s) == s[0] + 256 * le_value_of(s.drop_first()),
                s[0] < 256,
                le_value_of(s.drop_first()) < pow256((s.len() - 1) as nat),
                pow256(s.len()) == 256 * pow256((s.len() - 1) as nat),
        {}
    }
}

/// Encoding then decoding a number below `pow256(n)` is the identity.
pub proof fn lemma_le_round_trip(v: nat, n: nat)
    requires
        v < pow256(n),
    ensures
        le_value_of(le_bytes_of(v, n)) == v,
    decreases n,
{
    if n == 0 {
        assert(pow256(0) == 1);
    } else {
        assert(v / 256 < pow256((n - 1) as nat)) by (nonlinear_arith)
            requires
                v < pow256(n),
                pow256(n) == 256 * pow256((n - 1) as nat),
        {}
        lemma_le_round_trip(v / 256, (n - 1) as nat);
        let s = le_bytes_of(v, n);
        assert(s.drop_first() =~= le_bytes_of(v / 256, (n - 1) as nat));
    }
}

/// `pow256(8)` is two to the sixty-fourth.
pub proof fn lemma_pow256_8()
    ensures
        pow256(4) == 0x1_0000_0000,
        pow256(8) == 0x1_0000_0000_0000_0000,
{
    assert(pow256(0) == 1);
    assert(pow256(1) == 256);
    assert(pow256(2) == 0x1_0000);
    assert(pow256(3) == 0x100_0000);
    assert(pow256(4) == 0x1_0000_0000);
    assert(pow256(5) == 0x100_0000_0000);
    assert(pow256(6) == 0x1_0000_0000_0000);
    assert(pow256(7) == 0x100_0000_0000_0000);
    assert(pow256(8) == 0x1_0000_0000_0000_0000);
}

/// Append the `n` little-endian bytes of `v`.
pub fn push_uint_le(out: &mut Vec<u8>, v: u64, n: usize)
    ensures
        final(out)@ == old(out)@ + le_bytes_of(v as nat, n as nat),
{
    let mut x: u64 = v;
    let mut i: usize = 0;
    while i < n
        invariant
            i <= n,
            old(out)@ + le_bytes_of(v as nat, n as nat) == out@ + le_bytes_of(
                x as nat,
                (n - i) as nat,
            ),
        decreases n - i,
    {
        out.push((x % 256) as u8);
        x = x / 256;
        proof {
            assert(old(out)@ + le_bytes_of(v as nat, n as nat) =~= out@ + le_bytes_of(
                x as nat,
                (n - i - 1) as nat,
            ));
        }
        i = i + 1;
    }
    proof {
        assert(le_bytes_of(x as nat, 0) =~= Seq::<u8>::empty());
        assert(final(out)@ =~= old(out)@ + le_bytes_of(v as nat, n as nat));
    }
}

/// Read `n <= 8` little-endian bytes at `offset` as a number.
pub fn read_uint_le(data: &[u8], offset: usize, n: usize) -> (r: u64)
    requires
        n <= 8,
        offset + n <= data@.len(),
    ensures
        r as nat == le_value_of(data@.subrange(offset as int, offset as int + n as int)),
{
    proof {
        lemma_pow256_8();
        lemma_pow256_monotone();
    }
    let total = data.len();
    let mut val: u64 = 0;
    let mut j: usize = n;
    proof {
        assert(data@.subrange(offset as int + n as int, offset as int + n as int)
            =~= Seq::<u8>::empty());
    }
    while j > 0
        invariant
            j <= n <= 8,
            offset + n <= data@.len(),
            data@.len() == total,
            val as nat == le_value_of(data@.subrange(offset as int + j as int, offset as int
                + n as int)),
            (val as nat) < pow256((n - j) as nat),
        decreases j,
    {
        j = j - 1;
        let b = data[offset + j];
        proof {
            lemma_pow256_8();
            lemma_pow256_monotone();
            assert((val as nat) * 256 + b < pow256((n - j) as nat)) by (nonlinear_arith)
                requires
                    (val as nat) < pow256((n - j - 1) as nat),
                    b < 256,
                    pow256((n - j) as nat) == 256 * pow256((n - j - 1) as nat),
            {}
            assert(pow256((n - j) as nat) <= pow256(8)) by {
                lemma_pow256_le((n - j) as nat, 8);
            }
        }
        val = val * 256 + (b as u64);
        proof {
            let s = data@.subrange(offset as int + j as int, offset as int + n as int);
            assert(s[0] == data@[offset as int + j as int]);
            assert(s.drop_first() =~= data@.subrange(offset as int + j as int + 1, offset as int
                + n as int));
            assert(val as nat == s[0] + 256 * le_value_of(s.drop_first()));
        }
    }
    val
}

/// `pow256` does not decrease.
proof fn lemma_pow256_le(a: nat, b: nat)
    requires
        a <= b,
    ensures
        pow256(a) <= pow256(b),
    decreases b,
{
    if a < b {
        lemma_pow256_le(a, (b - 1) as nat);
        lemma_pow256_pos((b - 1) as nat);
        assert(pow256(b) == 256 * pow256((b - 1) as nat));
        assert(pow256(b) >= pow256((b - 1) as nat)) by (nonlinear_arith)
            requires
                pow256(b) == 256 * pow256((b - 1) as nat),
                pow256((b - 1) as nat) >= 1,
        {}
    }
}

/// `pow256` is positive.
proof fn lemma_pow256_pos(n: nat)
    ensures
        pow256(n) >= 1,
    decreases n,
{
    if n > 0 {
        lemma_pow256_pos((n - 1) as nat);
    }
}

/// Helper fact: positivity for all small arguments used above.
proof fn lemma_pow256_monotone()
    ensures
        forall|a: nat, b: nat| a <= b ==> #[trigger] pow256(a) <= #[trigger] pow256(b),
{
    assert forall|a: nat, b: nat| a <= b implies #[trigger] pow256(a) <= #[trigger] pow256(b) by {
        lemma_pow256_le(a, b);
    }
}

/// Copy a 32-byte slice into an array.
pub fn bytes32_from_slice(s: &[u8]) -> (r: [u8; 32])
    requires
        s@.len() == 32,
    ensures
        r@ == s@,
{
    let r: [u8; 32] = [
        s[0], s[1], s[2], s[3], s[4], s[5], s[6], s[7], s[8], s[9], s[10], s[11], s[12], s[13],
        s[14], s[15], s[16], s[17], s[18], s[19], s[20], s[21], s[22], s[23], s[24], s[25], s[26],
        s[27], s[28], s[29], s[30], s[31],
    ];
    proof {
        assert(r@ =~= s@);
    }
    r
}

/// Copy a 16-byte slice into an array.
pub fn bytes16_from_slice(s: &[u8]) -> (r: [u8; 16])
    requires
        s@.len() == 16,
    ensures
        r@ == s@,
{
    let r: [u8; 16] = [
        s[0], s[1], s[2], s[3], s[4], s[5], s[6], s[7], s[8], s[9], s[10], s[11], s[12], s[13],
        s[14], s[15],
    ];
    proof {
        assert(r@ =~= s@);
    }
    r
}

/// Copy a 12-byte slice into an array.
pub fn bytes12_from_slice(s: &[u8]) -> (r: [u8; 12])
    requires
        s@.len() == 12,
    ensures
        r@ == s@,
{
    let r: [u8; 12] = [
        s[0], s[1], s[2], s[3], s[4], s[5], s[6], s[7], s[8], s[9], s[10], s[11],
    ];
    proof {
        assert(r@ =~= s@);
    }
    r
}

} // verus!
