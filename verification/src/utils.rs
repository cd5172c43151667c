//! Byte-level helpers and the Merkle path recomputation shared by the
//! FORS trees and the hypertree layers.

use vstd::prelude::*;
use vstd::slice::*;
use crate::address::Address;
use crate::address::with_height;
use crate::address::with_index;
use crate::context::SpxCtx;
use crate::params::SPX_N;
use crate::thash_robust::thash;
use crate::thash_robust::thash_s;

verus! {

/// A sequence of `n` zero bytes.
pub open spec fn zeroes(n: int) -> Seq<u8> {
    Seq::new(n as nat, |i: int| 0u8)
}

/// The big-endian integer held in the first `nbytes` bytes of `s`.
pub open spec fn be_uint(s: Seq<u8>, nbytes: int) -> u64
    decreases nbytes,
{
    if nbytes <= 0 {
        0u64
    } else {
        (be_uint(s, nbytes - 1) << 8) | (s[nbytes - 1] as u64)
    }
}

/// Reads the first `nbytes` bytes of `input` as a big-endian integer.
pub fn bytes_to_ull(input: &[u8], nbytes: usize) -> (r: u64)
    requires
        nbytes <= input@.len(),
        nbytes <= 8,
    ensures
        r == be_uint(input@, nbytes as int),
{
    let mut r: u64 = 0;
    let mut i: usize = 0;
    while i < nbytes
        invariant
            i <= nbytes,
            nbytes <= input@.len(),
            nbytes <= 8,
            r == be_uint(input@, i as int),
        decreases nbytes - i,
    {
        r = (r << 8u64) | (*slice_index_get(input, i) as u64);
        i = i + 1;
    }
    r
}


/// The node obtained by hashing sibling pairs up the remaining levels:
/// `buffer` holds the two children of the node at level `i + 1`, whose
/// index is derived from `leaf_idx` and `idx_offset`; `auth` holds the
/// sibling nodes still to be consumed.
pub open spec fn root_from(
    buffer: Seq<u8>,
    leaf_idx: u32,
    idx_offset: u32,
    auth: Seq<u8>,
    i: int,
    height: int,
    seed: Seq<u8>,
    addr: Seq<u8>,
) -> Seq<u8>
    decreases height - i,
{
    let idx2 = leaf_idx >> 1u32;
    let off2 = idx_offset >> 1u32;
    let a2 = with_index(with_height(addr, (i + 1) as u32), (idx2 + off2) as u32);
    let h = thash_s(buffer, 2, seed, a2);
    if i + 1 >= height {
        h
    } else {
        let buf2 = if idx2 & 1 == 1 {
            auth.take(SPX_N as int) + h
        } else {
            h + auth.take(SPX_N as int)
        };
        root_from(buf2, idx2, off2, auth.skip(SPX_N as int), i + 1, height, seed, a2)
    }
}

/// The subtree root recomputed from a leaf, its index, and an
/// authentication path of `height` sibling nodes.
pub open spec fn compute_root_s(
    leaf: Seq<u8>,
    leaf_idx: u32,
    idx_offset: u32,
    auth: Seq<u8>,
    height: int,
    seed: Seq<u8>,
    addr: Seq<u8>,
) -> Seq<u8> {
    let buffer = if leaf_idx & 1 == 1 {
        auth.take(SPX_N as int) + leaf
    } else {
        leaf + auth.take(SPX_N as int)
    };
    root_from(buffer, leaf_idx, idx_offset, auth.skip(SPX_N as int), 0, height, seed, addr)
}

/// Recomputes a subtree root by walking from `leaf` up `tree_height`
/// levels, picking the left or right sibling from `auth_path` by the
/// bits of `leaf_idx`.
#[verifier::loop_isolation(false)]
pub fn compute_root(
    leaf: &[u8],
    leaf_idx: u32,
    idx_offset: u32,
    auth_path: &[u8],
    tree_height: u32,
    ctx: &SpxCtx,
    addr: &Address,
) -> (root: Vec<u8>)
    requires
        ctx.wf(),
        addr.wf(),
        leaf@.len() == SPX_N,
        auth_path@.len() >= tree_height * SPX_N,
        1 <= tree_height <= 32,
        leaf_idx < 0x80000000,
        idx_offset < 0x80000000,
    ensures
        root@ == compute_root_s(
            leaf@,
            leaf_idx,
            idx_offset,
            auth_path@.take((tree_height * SPX_N) as int),
            tree_height as int,
            ctx.pub_seed@,
            addr@,
        ),
        root@.len() == SPX_N,
{
    let ghost auth_t = auth_path@.take((tree_height * SPX_N) as int);
    let ghost goal = compute_root_s(
        leaf@,
        leaf_idx,
        idx_offset,
        auth_t,
        tree_height as int,
        ctx.pub_seed@,
        addr@,
    );

    let mut ab: Vec<u8> = Vec::new();
    ab.extend_from_slice(addr.bytes().as_slice());
    let mut a = Address { b: ab };
    proof {
        assert(a@ == addr@);
    }

    let mut buffer: Vec<u8> = Vec::new();
    if leaf_idx & 1 == 1 {
        buffer.extend_from_slice(slice_subrange(auth_path, 0, SPX_N));
        buffer.extend_from_slice(leaf);
        proof {
            assert(buffer@ =~= auth_t.take(SPX_N as int) + leaf@);
        }
    } else {
        buffer.extend_from_slice(leaf);
        buffer.extend_from_slice(slice_subrange(auth_path, 0, SPX_N));
        proof {
            assert(buffer@ =~= leaf@ + auth_t.take(SPX_N as int));
        }
    }
    proof {
        assert(auth_t.skip(SPX_N as int) =~= auth_t.skip(16));
    }

    let mut idx = leaf_idx;
    let mut off = idx_offset;
    let mut root: Vec<u8> = Vec::new();
    let mut i: u32 = 0;
    while i < tree_height
        invariant
            i <= tree_height,
            a.wf(),
            idx < 0x80000000,
            off < 0x80000000,
            i < tree_height ==> buffer@.len() == 2 * SPX_N,
            i < tree_height ==> goal == root_from(
                buffer@,
                idx,
                off,
                auth_t.skip(SPX_N * (i as int + 1)),
                i as int,
                tree_height as int,
                ctx.pub_seed@,
                a@,
            ),
            i == tree_height ==> (root@ == goal && root@.len() == SPX_N),
        decreases tree_height - i,
    {
        let ghost aprev = a@;
        let ghost rem = auth_t.skip(SPX_N * (i as int + 1));
        let idx2 = idx >> 1u32;
        let off2 = off >> 1u32;
        proof {
            assert(idx2 < 0x40000000 && off2 < 0x40000000) by (bit_vector)
                requires
                    idx2 == idx >> 1u32,
                    off2 == off >> 1u32,
                    idx < 0x80000000,
                    off < 0x80000000,
            ;
        }
        a.set_tree_height(i + 1);
        a.set_tree_index(idx2 + off2);
        proof {
            assert(a@ == with_index(with_height(aprev, (i + 1) as u32), (idx2 + off2) as u32));
        }
        let h = thash(buffer.as_slice(), 2, ctx, &a);
        proof {
            assert(buffer@.take((SPX_N * 2) as int) =~= buffer@);
        }
        if i + 1 < tree_height {
            let apos: usize = (SPX_N as u32 * (i + 1)) as usize;
            let chunk = slice_subrange(auth_path, apos, apos + SPX_N);
            proof {
                assert(chunk@ =~= rem.take(SPX_N as int));
                assert(rem.skip(SPX_N as int) =~= auth_t.skip(SPX_N * (i as int + 2)));
            }
            let mut nb: Vec<u8> = Vec::new();
            if idx2 & 1 == 1 {
                nb.extend_from_slice(chunk);
                nb.extend_from_slice(h.as_slice());
                proof {
                    assert(nb@ =~= rem.take(SPX_N as int) + h@);
                }
            } else {
                nb.extend_from_slice(h.as_slice());
                nb.extend_from_slice(chunk);
                proof {
                    assert(nb@ =~= h@ + rem.take(SPX_N as int));
                }
            }
            buffer = nb;
        } else {
            root = h;
        }
        idx = idx2;
        off = off2;
        i = i + 1;
    }
    root
}

} // verus!
