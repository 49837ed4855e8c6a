//! Deterministic derivation of a neuron pair's id.
//!
//! The id is computed by concatenating the admin identity bytes, the
//! big-endian bytes of the source neuron id and the target neuron id bytes,
//! splitting the result into 8-byte chunks (the last chunk zero-padded on
//! the right), reading each chunk as a big-endian unsigned 64-bit integer,
//! and summing the chunks with wrap-around on overflow. Re-deriving the id
//! for the same triple always yields the same value, which is what makes
//! registration idempotent.

use vstd::prelude::*;
use vstd::arithmetic::div_mod::{lemma_add_mod_noop, lemma_mod_bound, lemma_small_mod};
use vstd::calc;

verus! {

/// One more than `u64::MAX`: the modulus of wrap-around 64-bit addition.
pub open spec fn u64_modulus() -> int {
    0x1_0000_0000_0000_0000
}

/// The big-endian value of a byte sequence.
pub open spec fn be_value(s: Seq<u8>) -> int
    decreases s.len(),
{
    if s.len() == 0 {
        0
    } else {
        be_value(s.drop_last()) * 256 + s.last()
    }
}

/// A chunk of at most 8 bytes is read as if zero-padded on the right to
/// exactly 8 bytes.
pub open spec fn zero_pad8(s: Seq<u8>) -> Seq<u8> {
    s + Seq::new((8 - s.len()) as nat, |i: int| 0u8)
}

/// The value of one (possibly short) chunk.
pub open spec fn chunk_value(s: Seq<u8>) -> int {
    be_value(zero_pad8(s))
}

/// The wrap-around sum of the values of the 8-byte chunks of `s`.
pub open spec fn chunk_sum(s: Seq<u8>) -> int
    decreases s.len(),
{
    if s.len() == 0 {
        0
    } else {
        let k: int = if s.len() >= 8 {
            8
        } else {
            s.len() as int
        };
        (chunk_value(s.take(k)) + chunk_sum(s.skip(k))) % u64_modulus()
    }
}

/// The 8 bytes of `x`, most significant first.
pub open spec fn spec_u64_be_bytes(x: u64) -> Seq<u8> {
    seq![
        ((x >> 56) & 0xff) as u8,
        ((x >> 48) & 0xff) as u8,
        ((x >> 40) & 0xff) as u8,
        ((x >> 32) & 0xff) as u8,
        ((x >> 24) & 0xff) as u8,
        ((x >> 16) & 0xff) as u8,
        ((x >> 8) & 0xff) as u8,
        (x & 0xff) as u8,
    ]
}

/// The bytes a pair id is derived from.
pub open spec fn pair_id_bytes(admin: Seq<u8>, nns_neuron_id: u64, wtn_neuron_id: Seq<u8>) -> Seq<
    u8,
> {
    admin + spec_u64_be_bytes(nns_neuron_id) + wtn_neuron_id
}

/// The id of the pair formed by an admin identity and the two neuron ids.
pub open spec fn spec_pair_id(admin: Seq<u8>, nns_neuron_id: u64, wtn_neuron_id: Seq<u8>) -> u64 {
    chunk_sum(pair_id_bytes(admin, nns_neuron_id, wtn_neuron_id)) as u64
}

proof fn lemma_chunk_sum_bounds(s: Seq<u8>)
    ensures
        0 <= chunk_sum(s) < u64_modulus(),
    decreases s.len(),
{
    if s.len() == 0 {
    } else {
        let k: int = if s.len() >= 8 {
            8
        } else {
            s.len() as int
        };
        lemma_chunk_sum_bounds(s.skip(k));
        lemma_mod_bound(chunk_value(s.take(k)) + chunk_sum(s.skip(k)), u64_modulus());
    }
}

spec fn pow256(n: nat) -> int
    decreases n,
{
    if n == 0 {
        1
    } else {
        256 * pow256((n - 1) as nat)
    }
}

proof fn lemma_pow256_8()
    ensures
        pow256(8) == u64_modulus(),
{
    reveal_with_fuel(pow256, 9);
    assert(pow256(8) == u64_modulus());
}

/// Reads `bytes[start..end]` (at most 8 bytes) as a big-endian integer,
/// zero-padded on the right to 8 bytes.
fn u64_from_bytes(bytes: &Vec<u8>, start: usize, end: usize) -> (r: u64)
    requires
        start <= end <= bytes@.len(),
        end - start <= 8,
    ensures
        r as int == chunk_value(bytes@.subrange(start as int, end as int)),
{
    let ghost sub = bytes@.subrange(start as int, end as int);
    let ghost padded = zero_pad8(sub);
    assert(padded.len() == 8);
    let mut acc: u64 = 0;
    let mut j: usize = 0;
    while j < 8
        invariant
            0 <= j <= 8,
            start <= end <= bytes@.len(),
            end - start <= 8,
            sub == bytes@.subrange(start as int, end as int),
            padded == zero_pad8(sub),
            acc as int == be_value(padded.take(j as int)),
            (acc as int) < pow256(j as nat),
        decreases 8 - j,
    {
        let b: u8 = if j < end - start {
            bytes[start + j]
        } else {
            0
        };
        assert(b == padded[j as int]);
        proof {
            lemma_pow256_8();
            assert(pow256(j as nat) * 256 == pow256((j + 1) as nat));
            assert(acc as int * 256 + 255 < pow256((j + 1) as nat)) by {
                assert(acc as int <= pow256(j as nat) - 1);
                assert((pow256(j as nat) - 1) * 256 + 255 < pow256(j as nat) * 256) by (nonlinear_arith);
                assert(acc as int * 256 <= (pow256(j as nat) - 1) * 256) by (nonlinear_arith)
                    requires
                        acc as int <= pow256(j as nat) - 1,
                ;
            }
            assert(pow256((j + 1) as nat) <= pow256(8)) by {
                lemma_pow256_monotone((j + 1) as nat, 8);
            }
        }
        acc = acc * 256 + (b as u64);
        proof {
            assert(padded.take(j + 1).drop_last() =~= padded.take(j as int));
            assert(padded.take(j + 1).last() == padded[j as int]);
        }
        j = j + 1;
    }
    proof {
        assert(padded.take(8) =~= padded);
    }
    acc
}

proof fn lemma_pow256_monotone(a: nat, b: nat)
    requires
        a <= b,
    ensures
        pow256(a) <= pow256(b),
        pow256(a) >= 1,
    decreases b,
{
    if a == b {
        lemma_pow256_pos(a);
    } else {
        lemma_pow256_monotone(a, (b - 1) as nat);
    }
}

proof fn lemma_pow256_pos(a: nat)
    ensures
        pow256(a) >= 1,
    decreases a,
{
    if a > 0 {
        lemma_pow256_pos((a - 1) as nat);
    }
}

/// Derives the id of the pair `{admin, nns_neuron_id, wtn_neuron_id}`.
pub fn compute_pair_id(admin: &Vec<u8>, nns_neuron_id: u64, wtn_neuron_id: &[u8; 32]) -> (r: u64)
    ensures
        r == spec_pair_id(admin@, nns_neuron_id, wtn_neuron_id@),
{
    let mut bytes: Vec<u8> = Vec::new();
    let mut i: usize = 0;
    while i < admin.len()
        invariant
            0 <= i <= admin@.len(),
            bytes@ == admin@.take(i as int),
        decreases admin@.len() - i,
    {
        bytes.push(admin[i]);
        assert(bytes@ =~= admin@.take(i + 1));
        i = i + 1;
    }
    assert(bytes@ =~= admin@);

    let x = nns_neuron_id;
    proof {
        assert(((x >> 56) & 0xff) < 256 && ((x >> 48) & 0xff) < 256 && ((x >> 40) & 0xff) < 256
            && ((x >> 32) & 0xff) < 256 && ((x >> 24) & 0xff) < 256 && ((x >> 16) & 0xff) < 256 && (
        (x >> 8) & 0xff) < 256 && (x & 0xff) < 256) by (bit_vector);
    }
    bytes.push(((x >> 56) & 0xff) as u8);
    bytes.push(((x >> 48) & 0xff) as u8);
    bytes.push(((x >> 40) & 0xff) as u8);
    bytes.push(((x >> 32) & 0xff) as u8);
    bytes.push(((x >> 24) & 0xff) as u8);
    bytes.push(((x >> 16) & 0xff) as u8);
    bytes.push(((x >> 8) & 0xff) as u8);
    bytes.push((x & 0xff) as u8);
    assert(bytes@ =~= admin@ + spec_u64_be_bytes(nns_neuron_id));

    let mut w: usize = 0;
    while w < 32
        invariant
            0 <= w <= 32,
            bytes@ == admin@ + spec_u64_be_bytes(nns_neuron_id) + wtn_neuron_id@.take(w as int),
        decreases 32 - w,
    {
        bytes.push(wtn_neuron_id[w]);
        assert(bytes@ =~= admin@ + spec_u64_be_bytes(nns_neuron_id) + wtn_neuron_id@.take(
            w + 1,
        ));
        w = w + 1;
    }
    assert(wtn_neuron_id@.take(32) =~= wtn_neuron_id@);
    let ghost all = pair_id_bytes(admin@, nns_neuron_id, wtn_neuron_id@);
    assert(bytes@ =~= all);

    let mut id: u64 = 0;
    let mut start: usize = 0;
    proof {
        assert(all.skip(0) =~= all);
        lemma_chunk_sum_bounds(all);
        lemma_small_mod(chunk_sum(all) as nat, u64_modulus() as nat);
    }
    while start < bytes.len()
        invariant
            0 <= start <= bytes@.len(),
            bytes@ == all,
            (id as int + chunk_sum(all.skip(start as int))) % u64_modulus() == chunk_sum(all),
        decreases bytes@.len() - start,
    {
        let end: usize = if bytes.len() - start >= 8 {
            start + 8
        } else {
            bytes.len()
        };
        let c = u64_from_bytes(&bytes, start, end);
        proof {
            let rest = all.skip(start as int);
            let k: int = if rest.len() >= 8 {
                8
            } else {
                rest.len() as int
            };
            assert(k == end - start);
            assert(rest.take(k) =~= all.subrange(start as int, end as int));
            assert(rest.skip(k) =~= all.skip(end as int));
            // rest's chunk sum unfolds to this chunk plus the remainder
            assert(chunk_sum(rest) == (chunk_value(rest.take(k)) + chunk_sum(rest.skip(k)))
                % u64_modulus());
            lemma_wrap_step(id as int, c as int, chunk_sum(all.skip(end as int)), chunk_sum(all));
        }
        id = id.wrapping_add(c);
        start = end;
    }
    proof {
        assert(all.skip(all.len() as int) =~= Seq::<u8>::empty());
        lemma_chunk_sum_bounds(all);
        lemma_small_mod(id as nat, u64_modulus() as nat);
    }
    id
}

/// One fold step of the wrap-around sum: adding the next chunk to the
/// accumulator modulo 2^64 preserves the running total.
proof fn lemma_wrap_step(acc: int, c: int, rest: int, total: int)
    requires
        0 <= acc < u64_modulus(),
        0 <= c < u64_modulus(),
        0 <= rest < u64_modulus(),
        (acc + (c + rest) % u64_modulus()) % u64_modulus() == total,
    ensures
        ((if acc + c > u64::MAX {
            acc + c - u64_modulus()
        } else {
            acc + c
        }) + rest) % u64_modulus() == total,
{
    let m = u64_modulus();
    let wrapped: int = if acc + c > u64::MAX {
        acc + c - m
    } else {
        acc + c
    };
    assert(wrapped == (acc + c) % m) by {
        lemma_mod_bound(acc + c, m);
        if acc + c > u64::MAX {
            assert((acc + c) % m == (acc + c - m) % m) by {
                vstd::arithmetic::div_mod::lemma_mod_sub_multiples_vanish(acc + c, m);
            }
            lemma_small_mod((acc + c - m) as nat, m as nat);
        } else {
            lemma_small_mod((acc + c) as nat, m as nat);
        }
    }
    calc! {
        (==)
        (wrapped + rest) % m; {
            lemma_add_mod_noop(acc + c, rest, m);
        }
        (acc + c + rest) % m; {
            lemma_add_mod_noop(acc, c + rest, m);
            lemma_small_mod(acc as nat, m as nat);
        }
        (acc % m + (c + rest) % m) % m; {
            lemma_small_mod(acc as nat, m as nat);
        }
        (acc + (c + rest) % m) % m;
    }
}

} // verus!
