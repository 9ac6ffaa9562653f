//! The upload frame: the bytes a chunked upload accumulates begin with
//! two big-endian 64-bit ids — the owner and the destination folder —
//! followed by the file's bytes.

use vstd::prelude::*;

verus! {

/// The big-endian unsigned value of a byte string.
pub open spec fn be_u64(s: Seq<u8>) -> nat
    decreases s.len(),
{
    if s.len() == 0 {
        0
    } else {
        (be_u64(s.drop_last()) * 256 + s.last()) as nat
    }
}

/// The big-endian value of an 8-byte string, reinterpreted as a signed
/// 64-bit integer.
pub open spec fn be_i64(s: Seq<u8>) -> i64 {
    (be_u64(s) as u64) as i64
}

/// A big-endian value fits in as many bits as it has bytes.
proof fn lemma_be_u64_bound(s: Seq<u8>, bound: nat)
    requires
        vstd::arithmetic::power::pow(256, s.len() as nat) <= bound,
    ensures
        be_u64(s) < bound,
    decreases s.len(),
{
    vstd::arithmetic::power::lemma_pow_positive(256, s.len() as nat);
    if s.len() == 0 {
    } else {
        let p = vstd::arithmetic::power::pow(256, (s.len() - 1) as nat);
        vstd::arithmetic::power::lemma_pow_positive(256, (s.len() - 1) as nat);
        assert(vstd::arithmetic::power::pow(256, s.len() as nat) == p * 256) by {
            vstd::arithmetic::power::lemma_pow1(256);
            vstd::arithmetic::power::lemma_pow_adds(256, (s.len() - 1) as nat, 1);
        }
        lemma_be_u64_bound(s.drop_last(), p as nat);
        assert(be_u64(s.drop_last()) * 256 + s.last() < p * 256) by (nonlinear_arith)
            requires
                be_u64(s.drop_last()) < p,
                s.last() < 256,
                0 < p,
        ;
        assert(p * 256 <= bound);
    }
}

/// Eight bytes of big-endian weight make exactly 64 bits.
proof fn lemma_pow256_8()
    ensures
        vstd::arithmetic::power::pow(256, 8) == 0x10000000000000000,
{
    vstd::arithmetic::power::lemma_pow1(256);
    vstd::arithmetic::power::lemma_pow_adds(256, 1, 1);
    assert(vstd::arithmetic::power::pow(256, 2) == 0x10000);
    vstd::arithmetic::power::lemma_pow_adds(256, 2, 2);
    assert(vstd::arithmetic::power::pow(256, 4) == 0x100000000);
    vstd::arithmetic::power::lemma_pow_adds(256, 4, 4);
}

/// Reads the big-endian value of 8 bytes at `at`.
fn read_be_u64(bytes: &Vec<u8>, at: usize) -> (r: u64)
    requires
        at + 8 <= bytes@.len(),
    ensures
        r as nat == be_u64(bytes@.subrange(at as int, at + 8)),
{
    let ghost whole = bytes@.subrange(at as int, at as int + 8);
    let blen = bytes.len();
    let mut acc: u64 = 0;
    let mut j: usize = 0;
    proof {
        vstd::arithmetic::power::lemma_pow0(256);
    }
    while j < 8
        invariant
            blen == bytes@.len(),
            at + 8 <= blen,
            j <= 8,
            whole == bytes@.subrange(at as int, at as int + 8),
            acc as nat == be_u64(whole.take(j as int)),
            (acc as nat) < vstd::arithmetic::power::pow(256, j as nat),
        decreases 8 - j,
    {
        proof {
            vstd::arithmetic::power::lemma_pow_positive(256, j as nat);
            let p = vstd::arithmetic::power::pow(256, j as nat);
            assert(vstd::arithmetic::power::pow(256, (j + 1) as nat) == p * 256) by {
                vstd::arithmetic::power::lemma_pow1(256);
                vstd::arithmetic::power::lemma_pow_adds(256, j as nat, 1);
            }
            assert(acc as nat * 256 + 255 < p * 256) by (nonlinear_arith)
                requires
                    (acc as nat) < p,
                    0 < p,
            ;
            assert(p * 256 <= vstd::arithmetic::power::pow(256, 8)) by {
                vstd::arithmetic::power::lemma_pow_increases(256, (j + 1) as nat, 8);
            }
            lemma_pow256_8();
        }
        let b = bytes[at + j];
        acc = acc * 256 + (b as u64);
        proof {
            assert(whole.take(j + 1).drop_last() =~= whole.take(j as int));
            assert(whole.take(j + 1).last() == whole[j as int]);
            assert(whole[j as int] == bytes@[at + j]);
        }
        j += 1;
    }
    proof {
        assert(whole.take(8) =~= whole);
    }
    acc
}

/// Splits an upload frame into the owner id, the destination folder id,
/// and the file bytes; a frame shorter than its 16-byte header is
/// rejected.
pub fn split_upload_frame(bytes: &Vec<u8>) -> (r: Option<(i64, i64, Vec<u8>)>)
    ensures
        match r {
            Some((uid, did, rest)) => bytes@.len() >= 16 && uid == be_i64(
                bytes@.subrange(0, 8),
            ) && did == be_i64(bytes@.subrange(8, 16)) && rest@ == bytes@.skip(16),
            None => bytes@.len() < 16,
        },
{
    if bytes.len() < 16 {
        return None;
    }
    let uid = read_be_u64(bytes, 0) as i64;
    let did = read_be_u64(bytes, 8) as i64;
    let mut rest: Vec<u8> = Vec::new();
    let mut t: usize = 16;
    while t < bytes.len()
        invariant
            16 <= t <= bytes@.len(),
            rest@ == bytes@.subrange(16, t as int),
        decreases bytes@.len() - t,
    {
        rest.push(bytes[t]);
        proof {
            assert(rest@ =~= bytes@.subrange(16, t + 1));
        }
        t += 1;
    }
    proof {
        assert(rest@ =~= bytes@.skip(16));
    }
    Some((uid, did, rest))
}

} // verus!
