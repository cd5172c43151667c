//! The unmasked ("simple") tree-hash primitive: the address and the
//! input are hashed directly from the seeded state.  Kept as the
//! alternative build policy; the verifier proper is built on the
//! masked variant.

use vstd::prelude::*;
use vstd::slice::*;
use crate::address::Address;
use crate::context::SpxCtx;
use crate::params::SPX_N;
use crate::params::SPX_SM3_ADDR_BYTES;
use crate::sm3::inc_finalize_s;
use crate::sm3::seeded_state_s;
use crate::sm3::sm3_inc_finalize;
use crate::thash_robust::lemma_seeded_state_shape;

verus! {

/// The unmasked tree hash of `inblocks` input blocks under `seed` and
/// `addr`: hash `addr ‖ input` from the seeded state, keep the first
/// `SPX_N` bytes.
pub open spec fn thash_s(input: Seq<u8>, inblocks: int, seed: Seq<u8>, addr: Seq<u8>) -> Seq<u8> {
    inc_finalize_s(seeded_state_s(seed), addr + input.take(SPX_N * inblocks)).take(SPX_N as int)
}

/// Compresses `inblocks` consecutive `SPX_N`-byte blocks of `input`
/// into one `SPX_N`-byte node, unmasked.
#[verifier::loop_isolation(false)]
pub fn thash(input: &[u8], inblocks: usize, ctx: &SpxCtx, addr: &Address) -> (out: Vec<u8>)
    requires
        ctx.wf(),
        addr.wf(),
        input@.len() >= SPX_N * inblocks,
        1 <= inblocks <= 64,
    ensures
        out@ == thash_s(input@, inblocks as int, ctx.pub_seed@, addr@),
        out@.len() == SPX_N,
{
    let n: usize = SPX_N * inblocks;
    let mut msg: Vec<u8> = Vec::new();
    msg.extend_from_slice(addr.bytes().as_slice());
    msg.extend_from_slice(slice_subrange(input, 0, n));

    let mut st: Vec<u8> = Vec::new();
    st.extend_from_slice(ctx.state_seeded.as_slice());
    proof {
        assert(st@ =~= ctx.state_seeded@);
        lemma_seeded_state_shape(ctx.pub_seed@);
    }
    let mlen = msg.len();
    let digest = sm3_inc_finalize(&mut st, msg.as_slice(), mlen);
    let mut out: Vec<u8> = Vec::new();
    out.extend_from_slice(slice_subrange(digest.as_slice(), 0, SPX_N));
    proof {
        assert(msg@.take(mlen as int) =~= msg@);
        assert(msg@ =~= addr@ + input@.take(SPX_N * inblocks as int));
        assert(out@ =~= inc_finalize_s(
            seeded_state_s(ctx.pub_seed@),
            addr@ + input@.take(SPX_N * inblocks as int),
        ).take(SPX_N as int));
    }
    out
}

} // verus!
