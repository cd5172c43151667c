//! Message digest and index derivation: hashes the randomizer, the
//! public key and the message into an inner digest, then expands it
//! into the FORS message digest and the hypertree leaf and tree
//! indices.

use vstd::prelude::*;
use vstd::slice::*;
use crate::context::SpxCtx;
use crate::params::SPX_DGST_BYTES;
use crate::params::SPX_FORS_MSG_BYTES;
use crate::params::SPX_N;
use crate::params::SPX_PK_BYTES;
use crate::params::SPX_SM3_OUTPUT_BYTES;
use crate::sm3::lemma_inc_compose;
use crate::sm3::lemma_iv_count;
use crate::sm3::iv_state;
use crate::sm3::mgf1_256_2;
use crate::sm3::mgf1_s;
use crate::sm3::seed_state;
use crate::sm3::sm3_s;
use crate::sm3::sm3_inc_blocks;
use crate::sm3::sm3_inc_finalize;
use crate::sm3::sm3_inc_init;
use crate::utils::be_uint;
use crate::utils::bytes_to_ull;

verus! {

/// Expands a mask of `outlen` bytes from a fixed 64-byte seed; the
/// call sites seed it with randomizer, public seed and inner digest.
pub fn mgf1_X(input: &[u8], outlen: usize) -> (out: Vec<u8>)
    requires
        input@.len() >= 2 * SPX_N + SPX_SM3_OUTPUT_BYTES,
        outlen <= u32::MAX,
    ensures
        out@ == mgf1_s(input@.take((2 * SPX_N + SPX_SM3_OUTPUT_BYTES) as int), outlen as int),
{
    mgf1_256_2(input, outlen)
}

/// Prepares the hash machinery for one verification: primes the
/// context state with the public seed.
pub fn initialize_hash_function(ctx: &mut SpxCtx)
    requires
        old(ctx).pub_seed@.len() == SPX_N,
    ensures
        final(ctx).pub_seed@ == old(ctx).pub_seed@,
        final(ctx).wf(),
{
    seed_state(ctx);
}

/// The expanded digest material derived from a randomizer, a public
/// key and a message.
pub open spec fn hash_message_buf(r: Seq<u8>, pk: Seq<u8>, m: Seq<u8>) -> Seq<u8> {
    mgf1_s(
        r.take(SPX_N as int) + pk.take(SPX_N as int) + sm3_s(
            r.take(SPX_N as int) + pk.take(SPX_PK_BYTES as int) + m,
        ),
        SPX_DGST_BYTES as int,
    )
}

/// The FORS message digest: the leading bytes of the expansion.
pub open spec fn hash_message_digest(r: Seq<u8>, pk: Seq<u8>, m: Seq<u8>) -> Seq<u8> {
    hash_message_buf(r, pk, m).take(SPX_FORS_MSG_BYTES as int)
}

/// The hypertree position: the next eight bytes of the expansion,
/// big-endian, masked to the tree bits.
pub open spec fn hash_message_tree(r: Seq<u8>, pk: Seq<u8>, m: Seq<u8>) -> u64 {
    be_uint(hash_message_buf(r, pk, m).skip(SPX_FORS_MSG_BYTES as int), 8)
        & 0x7fff_ffff_ffff_ffffu64
}

/// The leaf position within the bottom subtree: the following byte of
/// the expansion, masked to the leaf bits.
pub open spec fn hash_message_leaf(r: Seq<u8>, pk: Seq<u8>, m: Seq<u8>) -> u32 {
    (be_uint(hash_message_buf(r, pk, m).skip((SPX_FORS_MSG_BYTES + 8) as int), 1) as u32)
        & 0x7u32
}

/// Derives the FORS message digest and the hypertree tree and leaf
/// indices from the randomizer `r`, the public key and the message.
/// The message is streamed in whole blocks, so it is hashed once.
#[verifier::loop_isolation(false)]
pub fn hash_message(r: &[u8], pk: &[u8], m: &[u8]) -> (out: (Vec<u8>, u64, u32))
    requires
        r@.len() >= SPX_N,
        pk@.len() == SPX_PK_BYTES,
        m@.len() + 48 <= u64::MAX,
    ensures
        out.0@ == hash_message_digest(r@, pk@, m@),
        out.0@.len() == SPX_FORS_MSG_BYTES,
        out.1 == hash_message_tree(r@, pk@, m@),
        out.2 == hash_message_leaf(r@, pk@, m@),
{
    let ghost whole = r@.take(SPX_N as int) + pk@.take(SPX_PK_BYTES as int) + m@;
    let mlen = m.len();
    let mut state: Vec<u8> = Vec::new();
    sm3_inc_init(&mut state);
    proof {
        lemma_iv_count();
    }

    let mut inbuf: Vec<u8> = Vec::new();
    inbuf.extend_from_slice(slice_subrange(r, 0, SPX_N));
    inbuf.extend_from_slice(slice_subrange(pk, 0, SPX_PK_BYTES));

    let inner: Vec<u8>;
    if mlen < SPX_N {
        inbuf.extend_from_slice(slice_subrange(m, 0, mlen));
        let blen = inbuf.len();
        inner = sm3_inc_finalize(&mut state, inbuf.as_slice(), blen);
        proof {
            assert(inbuf@.take(blen as int) =~= whole);
        }
    } else {
        inbuf.extend_from_slice(slice_subrange(m, 0, SPX_N));
        proof {
            assert(inbuf@.take(64) =~= inbuf@);
        }
        sm3_inc_blocks(&mut state, inbuf.as_slice(), 1);
        proof {
            assert(state@.skip(32) =~= crate::sm3::be64_bytes(64));
            crate::sm3::lemma_be64_roundtrip(64);
        }
        let rest = slice_subrange(m, SPX_N, mlen);
        inner = sm3_inc_finalize(&mut state, rest, mlen - SPX_N);
        proof {
            lemma_inc_compose(iv_state(), inbuf@, rest@);
            assert(rest@.take((mlen - SPX_N) as int) =~= rest@);
            assert(inbuf@ + rest@ =~= whole);
        }
    }
    proof {
        assert(inner@ == sm3_s(whole));
    }

    let mut seedbuf: Vec<u8> = Vec::new();
    seedbuf.extend_from_slice(slice_subrange(r, 0, SPX_N));
    seedbuf.extend_from_slice(slice_subrange(pk, 0, SPX_N));
    seedbuf.extend_from_slice(inner.as_slice());
    proof {
        assert(seedbuf@.take((2 * SPX_N + SPX_SM3_OUTPUT_BYTES) as int) =~= seedbuf@);
        assert(seedbuf@ =~= r@.take(SPX_N as int) + pk@.take(SPX_N as int) + sm3_s(whole));
    }
    let buf = mgf1_X(seedbuf.as_slice(), SPX_DGST_BYTES);

    let mut digest: Vec<u8> = Vec::new();
    digest.extend_from_slice(slice_subrange(buf.as_slice(), 0, SPX_FORS_MSG_BYTES));
    proof {
        assert(digest@ =~= hash_message_digest(r@, pk@, m@));
    }

    let tree_slice = slice_subrange(buf.as_slice(), SPX_FORS_MSG_BYTES, SPX_DGST_BYTES);
    let mut tree = bytes_to_ull(tree_slice, 8);
    tree = tree & 0x7fff_ffff_ffff_ffffu64;
    proof {
        assert(tree_slice@ =~= hash_message_buf(r@, pk@, m@).skip(SPX_FORS_MSG_BYTES as int));
    }

    let leaf_slice = slice_subrange(buf.as_slice(), SPX_FORS_MSG_BYTES + 8, SPX_DGST_BYTES);
    let leaf32 = bytes_to_ull(leaf_slice, 1) as u32;
    let leaf_idx = leaf32 & 0x7u32;
    proof {
        assert(leaf_slice@ =~= hash_message_buf(r@, pk@, m@).skip((SPX_FORS_MSG_BYTES + 8) as int));
    }
    (digest, tree, leaf_idx)
}

} // verus!
