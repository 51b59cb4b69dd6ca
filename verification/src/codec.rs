use parity_scale_codec::{Compact, Encode};
use vstd::prelude::*;

verus! {

/// The `n` lowest bytes of `v`, least significant first.
pub open spec fn le_bytes(v: nat, n: nat) -> Seq<u8>
    decreases n,
{
    if n == 0 {
        Seq::empty()
    } else {
        seq![(v % 256) as u8] + le_bytes(v / 256, (n - 1) as nat)
    }
}

/// `256^n`: one more than the largest value `n` bytes can hold.
pub open spec fn byte_bound(n: nat) -> nat
    decreases n,
{
    if n == 0 {
        1
    } else {
        256 * byte_bound((n - 1) as nat)
    }
}

/// How many bytes it takes to write `v`: zero for zero.
pub open spec fn byte_len(v: nat) -> nat
    decreases v,
{
    if v == 0 {
        0
    } else {
        1 + byte_len(v / 256)
    }
}

/// The SCALE compact encoding of an unsigned integer: one byte for values below `2^6`,
/// two for values below `2^14`, four for values below `2^30` (each holding `4 * v` plus the
/// mode in its two low bits), and otherwise a byte announcing the length followed by the
/// value's bytes.
pub open spec fn compact_encoding(v: nat) -> Seq<u8> {
    if v < 0x40 {
        seq![(v * 4) as u8]
    } else if v < 0x4000 {
        le_bytes(v * 4 + 1, 2)
    } else if v < 0x4000_0000 {
        le_bytes(v * 4 + 2, 4)
    } else {
        seq![(3 + (byte_len(v) - 4) * 4) as u8] + le_bytes(v, byte_len(v))
    }
}

/// What BLAKE2b with a 256-bit output gives for `data`.
pub uninterp spec fn blake2_256_of(data: Seq<u8>) -> Seq<u8>;

/// `le_bytes(v, n)` has `n` bytes.
pub proof fn lemma_le_bytes_len(v: nat, n: nat)
    ensures
        le_bytes(v, n).len() == n,
    decreases n,
{
    if n > 0 {
        lemma_le_bytes_len(v / 256, (n - 1) as nat);
    }
}

/// Values below `256^n` have distinct `n`-byte encodings.
pub proof fn lemma_le_bytes_injective(x: nat, y: nat, n: nat)
    requires
        x < byte_bound(n),
        y < byte_bound(n),
        le_bytes(x, n) == le_bytes(y, n),
    ensures
        x == y,
    decreases n,
{
    if n > 0 {
        let m = (n - 1) as nat;
        let b = byte_bound(m);
        assert(le_bytes(x, n) == seq![(x % 256) as u8] + le_bytes(x / 256, m));
        assert(le_bytes(y, n) == seq![(y % 256) as u8] + le_bytes(y / 256, m));
        assert(le_bytes(x, n)[0] == (x % 256) as u8);
        assert(le_bytes(y, n)[0] == (y % 256) as u8);
        assert(x % 256 == y % 256);
        assert(le_bytes(x / 256, m) =~= le_bytes(x, n).drop_first());
        assert(le_bytes(y / 256, m) =~= le_bytes(y, n).drop_first());
        assert(x / 256 < b) by (nonlinear_arith)
            requires
                x < 256 * b,
        ;
        assert(y / 256 < b) by (nonlinear_arith)
            requires
                y < 256 * b,
        ;
        lemma_le_bytes_injective(x / 256, y / 256, m);
    }
}

/// Every value fits in `byte_len(v)` bytes.
pub proof fn lemma_byte_len_bound(v: nat)
    ensures
        v < byte_bound(byte_len(v)),
    decreases v,
{
    if v > 0 {
        lemma_byte_len_bound(v / 256);
        let b = byte_bound(byte_len(v / 256));
        assert(v < 256 * b) by (nonlinear_arith)
            requires
                v / 256 < b,
        ;
    }
}

/// Values of at least `2^30` take at least four bytes.
pub proof fn lemma_byte_len_at_least_four(v: nat)
    requires
        v >= 0x4000_0000,
    ensures
        byte_len(v) >= 4,
{
    let v1 = v / 256;
    let v2 = v1 / 256;
    let v3 = v2 / 256;
    assert(v3 > 0);
    assert(byte_len(v3) >= 1);
    assert(byte_len(v2) >= 2);
    assert(byte_len(v1) >= 3);
}

/// The compact encoding tells values apart.
pub proof fn lemma_compact_encoding_injective(a: nat, b: nat)
    requires
        compact_encoding(a) == compact_encoding(b),
    ensures
        a == b,
{
    let ea = compact_encoding(a);
    lemma_le_bytes_len(a * 4 + 1, 2);
    lemma_le_bytes_len(b * 4 + 1, 2);
    lemma_le_bytes_len(a * 4 + 2, 4);
    lemma_le_bytes_len(b * 4 + 2, 4);
    lemma_le_bytes_len(a, byte_len(a));
    lemma_le_bytes_len(b, byte_len(b));
    if a >= 0x4000_0000 {
        lemma_byte_len_at_least_four(a);
    }
    if b >= 0x4000_0000 {
        lemma_byte_len_at_least_four(b);
    }
    if a < 0x40 {
        assert(ea[0] == (a * 4) as u8);
    } else if a < 0x4000 {
        assert(byte_bound(2) == 0x10000) by {
            reveal_with_fuel(byte_bound, 3);
        }
        lemma_le_bytes_injective(a * 4 + 1, b * 4 + 1, 2);
    } else if a < 0x4000_0000 {
        assert(byte_bound(4) == 0x1_0000_0000) by {
            reveal_with_fuel(byte_bound, 5);
        }
        lemma_le_bytes_injective(a * 4 + 2, b * 4 + 2, 4);
    } else {
        let n = byte_len(a);
        assert(ea.len() == 1 + n);
        if b < 0x4000_0000 {
            assert(compact_encoding(b).len() <= 4);
        }
        assert(compact_encoding(b).len() == 1 + byte_len(b));
        assert(byte_len(b) == n);
        lemma_byte_len_bound(a);
        lemma_byte_len_bound(b);
        assert(le_bytes(a, n) =~= ea.drop_first());
        assert(le_bytes(b, n) =~= compact_encoding(b).drop_first());
        lemma_le_bytes_injective(a, b, n);
    }
}

/// The number whose bytes, least significant first, are `s`.
pub open spec fn le_value(s: Seq<u8>) -> nat
    decreases s.len(),
{
    if s.len() == 0 {
        0
    } else {
        s[0] as nat + 256 * le_value(s.drop_first())
    }
}

/// Reading back the `n` bytes of a value below `256^n` gives the value.
pub proof fn lemma_le_value_of_le_bytes(x: nat, n: nat)
    requires
        x < byte_bound(n),
    ensures
        le_value(le_bytes(x, n)) == x,
    decreases n,
{
    lemma_le_bytes_len(x, n);
    if n > 0 {
        let m = (n - 1) as nat;
        let b = byte_bound(m);
        let bytes = le_bytes(x, n);
        assert(bytes == seq![(x % 256) as u8] + le_bytes(x / 256, m));
        assert(bytes.drop_first() =~= le_bytes(x / 256, m));
        assert(bytes[0] == (x % 256) as u8);
        assert(x / 256 < b) by (nonlinear_arith)
            requires
                x < 256 * b,
        ;
        lemma_le_value_of_le_bytes(x / 256, m);
    }
}

/// The last of the `byte_len(v)` bytes of a non-zero value is not zero.
pub proof fn lemma_le_bytes_top_nonzero(v: nat)
    requires
        v > 0,
    ensures
        byte_len(v) >= 1,
        le_bytes(v, byte_len(v))[byte_len(v) - 1] != 0,
    decreases v,
{
    let n = byte_len(v);
    let m = (n - 1) as nat;
    lemma_le_bytes_len(v, n);
    lemma_le_bytes_len(v / 256, m);
    let bytes = le_bytes(v, n);
    assert(bytes == seq![(v % 256) as u8] + le_bytes(v / 256, m));
    if v / 256 == 0 {
        assert(byte_len(0) == 0);
        assert(n == 1);
        assert(v % 256 == v);
        assert(bytes[0] == (v % 256) as u8);
        assert((v % 256) as u8 != 0);
    } else {
        lemma_le_bytes_top_nonzero(v / 256);
        assert(byte_len(v / 256) == m);
        assert(bytes[n - 1] == le_bytes(v / 256, m)[m - 1]);
    }
}

/// A value below `256^n` takes at most `n` bytes.
pub proof fn lemma_byte_len_at_most(v: nat, n: nat)
    requires
        v < byte_bound(n),
    ensures
        byte_len(v) <= n,
    decreases n,
{
    if v > 0 {
        let m = (n - 1) as nat;
        assert(n > 0);
        let b = byte_bound(m);
        assert(v / 256 < b) by (nonlinear_arith)
            requires
                v < 256 * b,
        ;
        lemma_byte_len_at_most(v / 256, m);
    }
}

/// `parity_scale_codec::Encode::encode` on a `u64`: its eight bytes, least significant
/// first.
#[verifier::external_body]
pub(crate) fn encode_u64(v: u64) -> (bytes: Vec<u8>)
    ensures
        bytes@ == le_bytes(v as nat, 8),
{
    v.encode()
}

/// `parity_scale_codec::Encode::encode` on `Compact(v)` for a `u128`: the compact
/// encoding of `v`.
#[verifier::external_body]
pub(crate) fn encode_compact_u128(v: u128) -> (bytes: Vec<u8>)
    ensures
        bytes@ == compact_encoding(v as nat),
{
    Compact(v).encode()
}

/// `sp_core_hashing::blake2_256`: the 32-byte BLAKE2b digest of `data`. Nothing is said
/// of the digest but that it is a function of `data`.
#[verifier::external_body]
pub(crate) fn blake2_256(data: &[u8]) -> (hash: [u8; 32])
    ensures
        hash@ == blake2_256_of(data@),
{
    sp_core_hashing::blake2_256(data)
}

} // verus!
