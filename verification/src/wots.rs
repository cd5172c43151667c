//! One-time-signature public-key reconstruction: each signature element
//! is an intermediate chain value, advanced forward to its chain end by
//! the digits of the value being authenticated; the chain ends
//! concatenated form the candidate public key.

use vstd::prelude::*;
use vstd::slice::*;
use crate::address::Address;
use crate::address::with_chain;
use crate::address::with_hash;
use crate::context::SpxCtx;
use crate::params::SPX_N;
use crate::params::SPX_WOTS_BYTES;
use crate::params::SPX_WOTS_LEN;
use crate::params::SPX_WOTS_LEN1;
use crate::params::SPX_WOTS_LEN2;
use crate::thash_robust::thash;
use crate::thash_robust::thash_s;

verus! {

/// Winternitz digit `k` of a byte string: its nibbles, high first.
pub open spec fn base_w_digit(m: Seq<u8>, k: int) -> u32 {
    if k % 2 == 0 {
        ((m[k / 2] >> 4u8) & 0xfu8) as u32
    } else {
        (m[k / 2] & 0xfu8) as u32
    }
}

/// A nibble is at most 15.
pub proof fn lemma_digit_bound(b: u8)
    ensures
        ((b >> 4u8) & 0xfu8) <= 15,
        (b & 0xfu8) <= 15,
{
    assert(((b >> 4u8) & 0xfu8) <= 15 && (b & 0xfu8) <= 15) by (bit_vector);
}

/// The checksum over the first `i` message digits: how many chain
/// steps they leave unused.
pub open spec fn wots_csum(digits: Seq<u32>, i: int) -> int
    decreases i,
{
    if i <= 0 {
        0
    } else {
        wots_csum(digits, i - 1) + (15 - digits[i - 1])
    }
}

/// All 35 chain digits of a 16-byte value: its 32 nibbles followed by
/// the three digits of the left-aligned checksum.
pub open spec fn chain_lengths_s(msg: Seq<u8>) -> Seq<u32> {
    let msg_digits = Seq::new(SPX_WOTS_LEN1 as nat, |k: int| base_w_digit(msg, k));
    let cs = (wots_csum(msg_digits, SPX_WOTS_LEN1 as int) * 16) as u32;
    let cb = seq![(cs >> 8u32) as u8, cs as u8];
    msg_digits + Seq::new(SPX_WOTS_LEN2 as nat, |k: int| base_w_digit(cb, k))
}

/// The chain value advanced from position `i` to position `stop`,
/// hashing once per step with the step written into the address.
pub open spec fn chain_s(x: Seq<u8>, i: int, stop: int, seed: Seq<u8>, addr: Seq<u8>) -> Seq<u8>
    decreases stop - i,
{
    if i >= stop {
        x
    } else {
        chain_s(thash_s(x, 1, seed, with_hash(addr, i as u32)), i + 1, stop, seed, addr)
    }
}

/// The candidate WOTS+ public key recovered from a signature and the
/// value `msg` it authenticates: every chain advanced to its end.
pub open spec fn wots_pk_s(sig: Seq<u8>, msg: Seq<u8>, seed: Seq<u8>, addr: Seq<u8>) -> Seq<u8> {
    let lengths = chain_lengths_s(msg);
    Seq::new(
        SPX_WOTS_BYTES as nat,
        |b: int|
            chain_s(
                sig.subrange(SPX_N as int * (b / 16), SPX_N as int * (b / 16) + SPX_N as int),
                lengths[b / 16] as int,
                15,
                seed,
                with_chain(addr, (b / 16) as u32),
            )[b % 16],
    )
}

/// Splits a byte string into 4-bit digits, most significant nibble of
/// each byte first.
#[verifier::loop_isolation(false)]
pub fn base_w(input: &[u8], out_len: usize) -> (out: Vec<u32>)
    requires
        out_len <= 2 * input@.len(),
    ensures
        out@.len() == out_len,
        forall|k: int| 0 <= k < out_len ==> out@[k] == base_w_digit(input@, k),
        forall|k: int| 0 <= k < out_len ==> out@[k] <= 15,
{
    let mut out: Vec<u32> = Vec::new();
    let mut k: usize = 0;
    while k < out_len
        invariant
            k <= out_len,
            out@.len() == k,
            forall|t: int| 0 <= t < k ==> out@[t] == base_w_digit(input@, t),
            forall|t: int| 0 <= t < k ==> out@[t] <= 15,
        decreases out_len - k,
    {
        let b = *slice_index_get(input, k / 2);
        let d: u32 = if k % 2 == 0 {
            ((b >> 4u8) & 0xfu8) as u32
        } else {
            (b & 0xfu8) as u32
        };
        proof {
            lemma_digit_bound(b);
        }
        out.push(d);
        k = k + 1;
    }
    out
}

/// Computes all 35 chain digits of a 16-byte value: 32 message digits
/// and 3 checksum digits.
#[verifier::loop_isolation(false)]
pub fn chain_lengths(msg: &[u8]) -> (out: Vec<u32>)
    requires
        msg@.len() == SPX_N,
    ensures
        out@ == chain_lengths_s(msg@),
        out@.len() == SPX_WOTS_LEN,
        forall|k: int| 0 <= k < SPX_WOTS_LEN ==> out@[k] <= 15,
{
    let ghost msg_digits = Seq::new(SPX_WOTS_LEN1 as nat, |k: int| base_w_digit(msg@, k));
    let mut out = base_w(msg, SPX_WOTS_LEN1);
    proof {
        assert(out@ =~= msg_digits);
    }

    let mut csum: u32 = 0;
    let mut i: usize = 0;
    while i < SPX_WOTS_LEN1
        invariant
            i <= SPX_WOTS_LEN1,
            out@ == msg_digits,
            csum == wots_csum(msg_digits, i as int),
            csum <= 15 * i,
        decreases SPX_WOTS_LEN1 - i,
    {
        csum = csum + (15 - out[i]);
        i = i + 1;
    }

    let cs: u32 = csum << 4u32;
    proof {
        assert(cs == csum * 16 && (cs >> 8u32) == csum * 16 / 256) by (bit_vector)
            requires
                csum <= 480,
                cs == csum << 4u32,
        ;
    }
    let cb: Vec<u8> = vec![(cs >> 8u32) as u8, cs as u8];
    proof {
        assert(cb@ =~= seq![(cs >> 8u32) as u8, cs as u8]);
    }
    let csum_digits = base_w(cb.as_slice(), SPX_WOTS_LEN2);
    let mut j: usize = 0;
    while j < SPX_WOTS_LEN2
        invariant
            j <= SPX_WOTS_LEN2,
            csum_digits@.len() == SPX_WOTS_LEN2,
            forall|k: int| 0 <= k < SPX_WOTS_LEN2 ==> csum_digits@[k] == base_w_digit(cb@, k),
            forall|k: int| 0 <= k < SPX_WOTS_LEN2 ==> csum_digits@[k] <= 15,
            out@ == msg_digits + csum_digits@.take(j as int),
        decreases SPX_WOTS_LEN2 - j,
    {
        let d = csum_digits[j];
        out.push(d);
        proof {
            assert(msg_digits + csum_digits@.take(j as int) + seq![d] =~= msg_digits
                + csum_digits@.take(j as int + 1));
        }
        j = j + 1;
    }
    proof {
        assert(out@ =~= chain_lengths_s(msg@));
    }
    out
}

/// Advances a chain value `steps` positions forward from position
/// `start`.
#[verifier::loop_isolation(false)]
pub fn gen_chain(input: &[u8], start: u32, steps: u32, ctx: &SpxCtx, addr: &Address) -> (out: Vec<
    u8,
>)
    requires
        ctx.wf(),
        addr.wf(),
        input@.len() >= SPX_N,
        start + steps <= 15,
    ensures
        out@ == chain_s(
            input@.take(SPX_N as int),
            start as int,
            start + steps,
            ctx.pub_seed@,
            addr@,
        ),
        out@.len() == SPX_N,
{
    let mut val: Vec<u8> = Vec::new();
    val.extend_from_slice(slice_subrange(input, 0, SPX_N));
    proof {
        assert(val@ =~= input@.take(SPX_N as int));
    }

    let mut ab: Vec<u8> = Vec::new();
    ab.extend_from_slice(addr.bytes().as_slice());
    let mut a = Address { b: ab };
    proof {
        assert(a@ == addr@);
    }

    let stop = start + steps;
    let mut i = start;
    while i < stop
        invariant
            start <= i <= stop,
            stop <= 15,
            a.wf(),
            val@.len() == SPX_N,
            forall|t: int| 0 <= t < 22 && t != 21 ==> a@[t] == addr@[t],
            chain_s(val@, i as int, stop as int, ctx.pub_seed@, addr@) == chain_s(
                input@.take(SPX_N as int),
                start as int,
                stop as int,
                ctx.pub_seed@,
                addr@,
            ),
        decreases stop - i,
    {
        a.set_hash_addr(i);
        proof {
            assert(a@ =~= with_hash(addr@, i));
        }
        let nv = thash(val.as_slice(), 1, ctx, &a);
        proof {
            assert(val@.take(SPX_N as int) =~= val@);
        }
        val = nv;
        i = i + 1;
    }
    val
}

/// Recovers the candidate WOTS+ public key from a signature and the
/// `SPX_N`-byte value it authenticates.
#[verifier::loop_isolation(false)]
pub fn wots_pk_from_sig(sig: &[u8], msg: &[u8], ctx: &SpxCtx, addr: &Address) -> (pk: Vec<u8>)
    requires
        ctx.wf(),
        addr.wf(),
        sig@.len() >= SPX_WOTS_BYTES,
        msg@.len() == SPX_N,
    ensures
        pk@ == wots_pk_s(sig@.take(SPX_WOTS_BYTES as int), msg@, ctx.pub_seed@, addr@),
        pk@.len() == SPX_WOTS_BYTES,
{
    let ghost sig_t = sig@.take(SPX_WOTS_BYTES as int);
    let lengths = chain_lengths(msg);
    let mut pk: Vec<u8> = Vec::new();
    let mut i: usize = 0;
    while i < SPX_WOTS_LEN
        invariant
            i <= SPX_WOTS_LEN,
            lengths@ == chain_lengths_s(msg@),
            forall|k: int| 0 <= k < SPX_WOTS_LEN ==> lengths@[k] <= 15,
            pk@.len() == SPX_N * i,
            forall|b: int|
                0 <= b < SPX_N * i ==> pk@[b] == wots_pk_s(sig_t, msg@, ctx.pub_seed@, addr@)[b],
        decreases SPX_WOTS_LEN - i,
    {
        let mut ab: Vec<u8> = Vec::new();
        ab.extend_from_slice(addr.bytes().as_slice());
        let mut a = Address { b: ab };
        proof {
            assert(a@ == addr@);
        }
        a.set_chain_addr(i as u32);
        proof {
            assert(a@ =~= with_chain(addr@, i as u32));
        }
        let chunk = slice_subrange(sig, SPX_N * i, SPX_N * i + SPX_N);
        let start = lengths[i];
        let c = gen_chain(chunk, start, 15 - start, ctx, &a);
        proof {
            assert(chunk@.take(SPX_N as int) =~= sig_t.subrange(
                SPX_N * i as int,
                SPX_N * i as int + SPX_N as int,
            ));
        }
        let ghost base = pk@.len();
        pk.extend_from_slice(c.as_slice());
        proof {
            assert forall|b: int| base <= b < base + SPX_N implies pk@[b] == wots_pk_s(
                sig_t,
                msg@,
                ctx.pub_seed@,
                addr@,
            )[b] by {
                vstd::arithmetic::div_mod::lemma_fundamental_div_mod_converse(
                    b,
                    16,
                    i as int,
                    b - 16 * (i as int),
                );
            }
        }
        i = i + 1;
    }
    pk
}

} // verus!
