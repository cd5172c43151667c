//! The masked ("robust") tree-hash primitive: a pseudorandom bitmask is
//! derived from the public seed and the address, XORed into the input,
//! and the result is hashed under the seeded state.  This is the
//! variant the verifier is built with; the signer must use the same
//! one.

use vstd::prelude::*;
use vstd::slice::*;
use crate::address::Address;
use crate::context::SpxCtx;
use crate::params::SPX_N;
use crate::params::SPX_SM3_ADDR_BYTES;
use crate::sm3::inc_finalize_s;
use crate::sm3::lemma_be64_roundtrip;
use crate::sm3::mgf1_256;
use crate::sm3::mgf1_s;
use crate::sm3::be64_bytes;
use crate::sm3::seeded_state_s;
use crate::sm3::sm3_inc_finalize;

verus! {

/// The masked tree hash of `inblocks` input blocks under `seed` and
/// `addr`: mask the input with an expansion of `seed ‖ addr`, hash
/// `addr ‖ masked-input` from the seeded state, keep the first
/// `SPX_N` bytes.
pub open spec fn thash_s(input: Seq<u8>, inblocks: int, seed: Seq<u8>, addr: Seq<u8>) -> Seq<u8> {
    let bitmask = mgf1_s(seed + addr, SPX_N * inblocks);
    let masked = Seq::new((SPX_N * inblocks) as nat, |i: int| input[i] ^ bitmask[i]);
    inc_finalize_s(seeded_state_s(seed), addr + masked).take(SPX_N as int)
}

/// The seeded state is a full 40-byte state that has absorbed exactly
/// one block.
pub proof fn lemma_seeded_state_shape(seed: Seq<u8>)
    requires
        seed.len() == SPX_N,
    ensures
        seeded_state_s(seed).len() == 40,
        crate::sm3::state_count(seeded_state_s(seed)) == 64,
{
    crate::sm3::lemma_iv_count();
    assert((seed + crate::utils::zeroes(48)).len() == 64);
    assert(seeded_state_s(seed).skip(32) =~= be64_bytes(64));
    lemma_be64_roundtrip(64);
}

/// Compresses `inblocks` consecutive `SPX_N`-byte blocks of `input`
/// into one `SPX_N`-byte node, masked.
#[verifier::loop_isolation(false)]
pub fn thash(input: &[u8], inblocks: usize, ctx: &SpxCtx, addr: &Address) -> (out: Vec<u8>)
    requires
        ctx.wf(),
        addr.wf(),
        input@.len() >= SPX_N * inblocks,
        1 <= inblocks <= 64,
    ensures
        out@ == thash_s(
            input@.take((SPX_N * inblocks) as int),
            inblocks as int,
            ctx.pub_seed@,
            addr@,
        ),
        out@.len() == SPX_N,
{
    let n: usize = SPX_N * inblocks;
    let ghost msg_in = input@.take(n as int);

    let mut seedbuf: Vec<u8> = Vec::new();
    seedbuf.extend_from_slice(ctx.pub_seed.as_slice());
    seedbuf.extend_from_slice(addr.bytes().as_slice());
    proof {
        assert(seedbuf@.take((SPX_N + SPX_SM3_ADDR_BYTES) as int) =~= ctx.pub_seed@ + addr@);
    }
    let bitmask = mgf1_256(seedbuf.as_slice(), n);

    let mut msg: Vec<u8> = Vec::new();
    msg.extend_from_slice(addr.bytes().as_slice());
    let mut i: usize = 0;
    while i < n
        invariant
            i <= n,
            msg@.len() == SPX_SM3_ADDR_BYTES + i,
            msg@.take(SPX_SM3_ADDR_BYTES as int) == addr@,
            forall|t: int|
                0 <= t < i ==> msg@[SPX_SM3_ADDR_BYTES + t] == (msg_in[t] ^ bitmask@[t]),
        decreases n - i,
    {
        let v = *slice_index_get(input, i) ^ bitmask[i];
        msg.push(v);
        proof {
            assert(msg@.take(SPX_SM3_ADDR_BYTES as int) =~= addr@);
        }
        i = i + 1;
    }

    let mut st: Vec<u8> = Vec::new();
    st.extend_from_slice(ctx.state_seeded.as_slice());
    proof {
        assert(st@ =~= ctx.state_seeded@);
        lemma_seeded_state_shape(ctx.pub_seed@);
    }
    let mlen = msg.len();
    let digest = sm3_inc_finalize(&mut st, msg.as_slice(), mlen);
    let mut out: Vec<u8> = Vec::new();
    out.extend_from_slice(slice_subrange(digest.as_slice(), 0, SPX_N));
    proof {
        let bm = mgf1_s(ctx.pub_seed@ + addr@, SPX_N * inblocks as int);
        let masked = Seq::new((SPX_N * inblocks as int) as nat, |t: int| msg_in[t] ^ bm[t]);
        assert(msg@.take(mlen as int) =~= msg@);
        assert(msg@ =~= addr@ + masked);
        assert(out@ =~= inc_finalize_s(seeded_state_s(ctx.pub_seed@), addr@ + masked).take(
            SPX_N as int,
        ));
    }
    out
}

} // verus!
