//! Global properties of the verifier, stated and proved against the
//! same models that the executable contracts use.

use vstd::prelude::*;
use vstd::arithmetic::div_mod::lemma_div_denominator;
use vstd::arithmetic::power2::lemma_pow2_unfold;
use vstd::arithmetic::power2::pow2;
use vstd::bits::lemma_u32_shr_is_div;
use crate::address::with_height;
use crate::address::with_index;
use crate::thash_robust::thash_s;
use crate::utils::compute_root_s;
use crate::utils::root_from;

verus! {

/// Tree hashing is deterministic: the contract of the masked `thash`
/// ties its result to `thash_s`, a function of the input, the seed and
/// the address alone, so any two results of calls on equal arguments
/// are equal.
pub proof fn lemma_thash_deterministic(
    r1: Seq<u8>,
    r2: Seq<u8>,
    input: Seq<u8>,
    inblocks: int,
    seed: Seq<u8>,
    addr: Seq<u8>,
)
    requires
        r1 == thash_s(input, inblocks, seed, addr),
        r2 == thash_s(input, inblocks, seed, addr),
    ensures
        r1 == r2,
{
}

/// The unmasked variant is deterministic in the same sense; the two
/// variants are each self-consistent, not cross-equal.
pub proof fn lemma_thash_simple_deterministic(
    r1: Seq<u8>,
    r2: Seq<u8>,
    input: Seq<u8>,
    inblocks: int,
    seed: Seq<u8>,
    addr: Seq<u8>,
)
    requires
        r1 == crate::thash_simple::thash_s(input, inblocks, seed, addr),
        r2 == crate::thash_simple::thash_s(input, inblocks, seed, addr),
    ensures
        r1 == r2,
{
}

/// Node `j` at height `level` of the Merkle tree over `leaves`, hashed
/// with the same height and index addressing that `compute_root_s`
/// uses: at each level the node index is offset by the tree offset
/// shifted down to that level.
pub open spec fn merkle_node(
    leaves: Seq<Seq<u8>>,
    level: int,
    j: int,
    off0: u32,
    seed: Seq<u8>,
    addr: Seq<u8>,
) -> Seq<u8>
    decreases level,
{
    if level <= 0 {
        leaves[j]
    } else {
        thash_s(
            merkle_node(leaves, level - 1, 2 * j, off0, seed, addr) + merkle_node(
                leaves,
                level - 1,
                2 * j + 1,
                off0,
                seed,
                addr,
            ),
            2,
            seed,
            with_index(
                with_height(addr, level as u32),
                (j + (off0 >> (level as u32))) as u32,
            ),
        )
    }
}

/// The authentication path of leaf `leaf_idx`: the sibling of the node
/// on the path at each height from `lo` up to `height`, concatenated.
pub open spec fn merkle_auth_path(
    leaves: Seq<Seq<u8>>,
    leaf_idx: u32,
    lo: int,
    height: int,
    off0: u32,
    seed: Seq<u8>,
    addr: Seq<u8>,
) -> Seq<u8>
    decreases height - lo,
{
    if lo >= height {
        Seq::empty()
    } else {
        merkle_node(leaves, lo, (((leaf_idx >> (lo as u32)) ^ 1) as int), off0, seed, addr)
            + merkle_auth_path(leaves, leaf_idx, lo + 1, height, off0, seed, addr)
    }
}

/// Every node of the tree has the node length.
pub proof fn lemma_merkle_node_len(
    leaves: Seq<Seq<u8>>,
    level: int,
    j: int,
    off0: u32,
    seed: Seq<u8>,
    addr: Seq<u8>,
)
    requires
        0 <= level,
        level == 0 ==> 0 <= j < leaves.len(),
        forall|t: int| 0 <= t < leaves.len() ==> (#[trigger] leaves[t]).len() == 16,
    ensures
        merkle_node(leaves, level, j, off0, seed, addr).len() == 16,
{
}

/// Shifting one more position composes: `(x >> a) >> 1 == x >> (a+1)`.
proof fn lemma_shr_compose(x: u32, a: u32)
    requires
        a < 31,
    ensures
        (x >> a) >> 1u32 == x >> ((a + 1) as u32),
{
    lemma_u32_shr_is_div(x, a);
    lemma_u32_shr_is_div(x >> a, 1);
    lemma_u32_shr_is_div(x, (a + 1) as u32);
    vstd::arithmetic::power2::lemma2_to64();
    lemma_pow2_unfold((a + 1) as nat);
    vstd::arithmetic::power2::lemma_pow2_pos(a as nat);
    lemma_div_denominator(x as int, pow2(a as nat) as int, 2);
}

/// How the exclusive-or with one relates a node index, its sibling and
/// their common parent.
proof fn lemma_pair_split(v: u32)
    ensures
        v & 1 == 1 ==> (v ^ 1) as int == 2 * ((v >> 1u32) as int) && v as int == 2 * ((v
            >> 1u32) as int) + 1,
        v & 1 == 0 ==> v as int == 2 * ((v >> 1u32) as int) && (v ^ 1) as int == 2 * ((v
            >> 1u32) as int) + 1,
        v & 1 == 0 || v & 1 == 1,
        v & 1 == 0 ==> v % 2 == 0,
        (v ^ 1) <= v + 1,
{
    assert((v & 1 == 1 ==> (v ^ 1) == 2 * (v >> 1u32) && v == 2 * (v >> 1u32) + 1) && (v & 1 == 0
        ==> v == 2 * (v >> 1u32) && (v ^ 1) == 2 * (v >> 1u32) + 1) && (v & 1 == 0 || v & 1 == 1)
        && (v & 1 == 0 ==> v % 2 == 0) && ((v ^ 1) <= v + 1)) by (bit_vector);
}

/// A node's sibling lies in the same level of the tree.
proof fn lemma_sibling_in_range(v: u32, cap: int)
    requires
        v < cap,
        cap % 2 == 0,
    ensures
        0 <= (v ^ 1) < cap,
{
    lemma_pair_split(v);
    if v & 1 == 0 {
        if v as int + 1 == cap {
            vstd::arithmetic::div_mod::lemma_add_mod_noop(v as int, 1, 2);
            assert(false);
        }
    }
}

/// Climbing from the pair of children held in the working buffer at
/// height `i` recovers the tree root, for any address that agrees with
/// the tree address below the height and index fields.
#[verifier::rlimit(100)]
proof fn lemma_root_from_level(
    leaves: Seq<Seq<u8>>,
    height: int,
    leaf_idx: u32,
    off0: u32,
    i: int,
    seed: Seq<u8>,
    addr: Seq<u8>,
    a: Seq<u8>,
)
    requires
        0 <= i < height <= 31,
        leaf_idx >> (height as u32) == 0,
        leaves.len() == pow2(height as nat),
        forall|t: int| 0 <= t < leaves.len() ==> (#[trigger] leaves[t]).len() == 16,
        a.len() == 22,
        addr.len() == 22,
        a.subrange(0, 17) == addr.subrange(0, 17),
    ensures
        root_from(
            merkle_node(leaves, i, 2 * (((leaf_idx >> (i as u32)) >> 1u32) as int), off0, seed, addr)
                + merkle_node(
                leaves,
                i,
                2 * (((leaf_idx >> (i as u32)) >> 1u32) as int) + 1,
                off0,
                seed,
                addr,
            ),
            leaf_idx >> (i as u32),
            off0 >> (i as u32),
            merkle_auth_path(leaves, leaf_idx, i + 1, height, off0, seed, addr),
            i,
            height,
            seed,
            a,
        ) == merkle_node(leaves, height, 0, off0, seed, addr),
    decreases height - i,
{
    let c = leaf_idx >> (i as u32);
    let idx2 = c >> 1u32;
    let offi = off0 >> (i as u32);
    let off2 = offi >> 1u32;
    lemma_shr_compose(leaf_idx, i as u32);
    lemma_shr_compose(off0, i as u32);
    assert(idx2 == leaf_idx >> ((i + 1) as u32));
    assert(off2 == off0 >> ((i + 1) as u32));

    let buffer = merkle_node(leaves, i, 2 * (idx2 as int), off0, seed, addr) + merkle_node(
        leaves,
        i,
        2 * (idx2 as int) + 1,
        off0,
        seed,
        addr,
    );
    let a2 = with_index(with_height(a, (i + 1) as u32), (idx2 + off2) as u32);
    let a2t = with_index(with_height(addr, (i + 1) as u32), ((idx2 as int) + off2) as u32);
    assert forall|t: int| 0 <= t < 17 implies a[t] == addr[t] by {
        assert(a.subrange(0, 17) == addr.subrange(0, 17));
        assert(a.subrange(0, 17)[t] == a[t]);
        assert(addr.subrange(0, 17)[t] == addr[t]);
    }
    assert(a2 =~= a2t);
    let h = thash_s(buffer, 2, seed, a2);
    assert(h == merkle_node(leaves, i + 1, idx2 as int, off0, seed, addr));

    // the index at the next height stays inside its level
    vstd::arithmetic::power2::lemma_pow2_pos(height as nat);
    lemma_u32_shr_is_div(leaf_idx, height as u32);
    vstd::arithmetic::div_mod::lemma_small_div_converse(
        leaf_idx as int,
        pow2(height as nat) as int,
    );
    assert(leaf_idx < pow2(height as nat));
    let cap = pow2((height - i - 1) as nat) as int;
    vstd::arithmetic::power2::lemma_pow2_adds((i + 1) as nat, (height - i - 1) as nat);
    vstd::arithmetic::power2::lemma_pow2_pos((height - i - 1) as nat);
    vstd::arithmetic::power2::lemma_pow2_pos((i + 1) as nat);
    lemma_u32_shr_is_div(leaf_idx, (i + 1) as u32);
    assert(idx2 < cap) by {
        vstd::arithmetic::div_mod::lemma_div_by_multiple_is_strongly_ordered(
            leaf_idx as int,
            pow2(height as nat) as int,
            cap,
            pow2((i + 1) as nat) as int,
        );
        vstd::arithmetic::div_mod::lemma_div_multiples_vanish(
            cap,
            pow2((i + 1) as nat) as int,
        );
    }

    if i + 1 < height {
        let sib = (idx2 ^ 1) as int;
        let tail = merkle_auth_path(leaves, leaf_idx, i + 2, height, off0, seed, addr);
        let auth = merkle_auth_path(leaves, leaf_idx, i + 1, height, off0, seed, addr);
        assert(auth == merkle_node(leaves, i + 1, sib, off0, seed, addr) + tail);
        lemma_pow2_unfold((height - i - 1) as nat);
        lemma_sibling_in_range(idx2, cap);
        lemma_merkle_node_len(leaves, i + 1, sib, off0, seed, addr);
        assert(auth.take(16) =~= merkle_node(leaves, i + 1, sib, off0, seed, addr));
        assert(auth.skip(16) =~= tail);

        lemma_pair_split(idx2);
        let buf2 = if idx2 & 1 == 1 {
            auth.take(16) + h
        } else {
            h + auth.take(16)
        };
        assert(buf2 == merkle_node(leaves, i + 1, 2 * ((idx2 >> 1u32) as int), off0, seed, addr)
            + merkle_node(leaves, i + 1, 2 * ((idx2 >> 1u32) as int) + 1, off0, seed, addr));
        assert(a2.subrange(0, 17) =~= addr.subrange(0, 17));
        lemma_root_from_level(leaves, height, leaf_idx, off0, i + 1, seed, addr, a2);
    } else {
        assert(idx2 == 0);
    }
}

/// Round trip of the Merkle path recomputation: for every leaf of a
/// tree, `compute_root_s` applied to that leaf, its index and its
/// authentication path recovers exactly the root of the tree the path
/// was drawn from.
#[verifier::rlimit(100)]
pub proof fn lemma_compute_root_roundtrip(
    leaves: Seq<Seq<u8>>,
    height: int,
    leaf_idx: u32,
    off0: u32,
    seed: Seq<u8>,
    addr: Seq<u8>,
)
    requires
        1 <= height <= 31,
        leaf_idx >> (height as u32) == 0,
        leaves.len() == pow2(height as nat),
        forall|t: int| 0 <= t < leaves.len() ==> (#[trigger] leaves[t]).len() == 16,
        addr.len() == 22,
    ensures
        compute_root_s(
            leaves[leaf_idx as int],
            leaf_idx,
            off0,
            merkle_auth_path(leaves, leaf_idx, 0, height, off0, seed, addr),
            height,
            seed,
            addr,
        ) == merkle_node(leaves, height, 0, off0, seed, addr),
{
    let auth = merkle_auth_path(leaves, leaf_idx, 0, height, off0, seed, addr);
    assert(leaf_idx >> 0u32 == leaf_idx && off0 >> 0u32 == off0) by (bit_vector);
    let sib = (leaf_idx ^ 1) as int;
    let tail = merkle_auth_path(leaves, leaf_idx, 1, height, off0, seed, addr);
    assert(auth == merkle_node(leaves, 0, sib, off0, seed, addr) + tail);

    vstd::arithmetic::power2::lemma_pow2_pos(height as nat);
    lemma_u32_shr_is_div(leaf_idx, height as u32);
    vstd::arithmetic::div_mod::lemma_small_div_converse(
        leaf_idx as int,
        pow2(height as nat) as int,
    );
    assert(leaf_idx < pow2(height as nat));
    lemma_pow2_unfold(height as nat);
    lemma_sibling_in_range(leaf_idx, pow2(height as nat) as int);
    assert(merkle_node(leaves, 0, sib, off0, seed, addr) == leaves[sib]);
    assert(auth.take(16) =~= leaves[sib]);
    assert(auth.skip(16) =~= tail);

    lemma_pair_split(leaf_idx);
    let buffer = if leaf_idx & 1 == 1 {
        auth.take(16) + leaves[leaf_idx as int]
    } else {
        leaves[leaf_idx as int] + auth.take(16)
    };
    assert(merkle_node(leaves, 0, leaf_idx as int, off0, seed, addr) == leaves[leaf_idx as int]);
    assert(buffer == merkle_node(leaves, 0, 2 * ((leaf_idx >> 1u32) as int), off0, seed, addr)
        + merkle_node(leaves, 0, 2 * ((leaf_idx >> 1u32) as int) + 1, off0, seed, addr));
    lemma_root_from_level(leaves, height, leaf_idx, off0, 0, seed, addr, addr);
}

} // verus!
