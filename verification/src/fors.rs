//! FORS public-key reconstruction: the message digest selects one leaf
//! per small Merkle tree; each tree root is rebuilt from the revealed
//! leaf secret and its authentication path, and the roots are hashed
//! together into the candidate FORS public key.

use vstd::prelude::*;
use vstd::slice::*;
use crate::address::Address;
use crate::address::keypair_copied;
use crate::address::with_height;
use crate::address::with_index;
use crate::address::with_type;
use crate::context::SpxCtx;
use crate::params::SPX_ADDR_TYPE_FORSPK;
use crate::params::SPX_ADDR_TYPE_FORSTREE;
use crate::params::SPX_FORS_BYTES;
use crate::params::SPX_FORS_HEIGHT;
use crate::params::SPX_FORS_MSG_BYTES;
use crate::params::SPX_FORS_TREES;
use crate::params::SPX_N;
use crate::params::SPX_SM3_ADDR_BYTES;
use crate::thash_robust::thash;
use crate::thash_robust::thash_s;
use crate::utils::compute_root;
use crate::utils::compute_root_s;
use crate::utils::zeroes;

verus! {

/// Bit `k` of the message digest, least significant bit of each byte
/// first.
pub open spec fn digest_bit(m: Seq<u8>, k: int) -> u32 {
    ((m[k / 8] >> ((k % 8) as u8)) & 1u8) as u32
}

/// The low `j` bits of FORS index starting at digest bit `base`,
/// assembled least significant bit first.
pub open spec fn fors_index_acc(m: Seq<u8>, base: int, j: int) -> u32
    decreases j,
{
    if j <= 0 {
        0u32
    } else {
        fors_index_acc(m, base, j - 1) ^ (digest_bit(m, base + j - 1) << ((j - 1) as u32))
    }
}

/// The leaf index of FORS tree `i`: `SPX_FORS_HEIGHT` consecutive
/// digest bits.
pub open spec fn fors_index(m: Seq<u8>, i: int) -> u32 {
    fors_index_acc(m, i * (SPX_FORS_HEIGHT as int), SPX_FORS_HEIGHT as int)
}

/// A single digest bit is zero or one.
pub proof fn lemma_bit_le_one(x: u8, s: u8)
    ensures
        ((x >> s) & 1u8) <= 1,
{
    assert(((x >> s) & 1u8) <= 1) by (bit_vector);
}

/// A FORS leaf index fits its tree: it is below `2^SPX_FORS_HEIGHT`.
pub proof fn lemma_fors_index_bound(m: Seq<u8>, i: int)
    ensures
        fors_index(m, i) < 64,
{
    let base = i * (SPX_FORS_HEIGHT as int);
    let b0 = digest_bit(m, base);
    let b1 = digest_bit(m, base + 1);
    let b2 = digest_bit(m, base + 2);
    let b3 = digest_bit(m, base + 3);
    let b4 = digest_bit(m, base + 4);
    let b5 = digest_bit(m, base + 5);
    lemma_bit_le_one(m[(base) / 8], ((base) % 8) as u8);
    lemma_bit_le_one(m[(base + 1) / 8], ((base + 1) % 8) as u8);
    lemma_bit_le_one(m[(base + 2) / 8], ((base + 2) % 8) as u8);
    lemma_bit_le_one(m[(base + 3) / 8], ((base + 3) % 8) as u8);
    lemma_bit_le_one(m[(base + 4) / 8], ((base + 4) % 8) as u8);
    lemma_bit_le_one(m[(base + 5) / 8], ((base + 5) % 8) as u8);
    assert(fors_index_acc(m, base, 0) == 0);
    assert(fors_index_acc(m, base, 1) == fors_index_acc(m, base, 0) ^ (b0 << 0u32));
    assert(fors_index_acc(m, base, 2) == fors_index_acc(m, base, 1) ^ (b1 << 1u32));
    assert(fors_index_acc(m, base, 3) == fors_index_acc(m, base, 2) ^ (b2 << 2u32));
    assert(fors_index_acc(m, base, 4) == fors_index_acc(m, base, 3) ^ (b3 << 3u32));
    assert(fors_index_acc(m, base, 5) == fors_index_acc(m, base, 4) ^ (b4 << 4u32));
    assert(fors_index_acc(m, base, 6) == fors_index_acc(m, base, 5) ^ (b5 << 5u32));
    let a6 = fors_index(m, i);
    assert(a6 == 0u32 ^ (b0 << 0u32) ^ (b1 << 1u32) ^ (b2 << 2u32) ^ (b3 << 3u32) ^ (b4 << 4u32)
        ^ (b5 << 5u32));
    assert((0u32 ^ (b0 << 0u32) ^ (b1 << 1u32) ^ (b2 << 2u32) ^ (b3 << 3u32) ^ (b4 << 4u32) ^ (b5
        << 5u32)) < 64) by (bit_vector)
        requires
            b0 <= 1,
            b1 <= 1,
            b2 <= 1,
            b3 <= 1,
            b4 <= 1,
            b5 <= 1,
    ;
}

/// Interprets the digest as `SPX_FORS_TREES` leaf indices of
/// `SPX_FORS_HEIGHT` bits each.
#[verifier::loop_isolation(false)]
pub fn message_to_indices(m: &[u8]) -> (out: Vec<u32>)
    requires
        m@.len() >= SPX_FORS_MSG_BYTES,
    ensures
        out@.len() == SPX_FORS_TREES,
        forall|i: int| 0 <= i < SPX_FORS_TREES ==> out@[i] == fors_index(m@, i),
        forall|i: int| 0 <= i < SPX_FORS_TREES ==> out@[i] < 64,
{
    let mut out: Vec<u32> = Vec::new();
    let mut offset: usize = 0;
    let mut i: usize = 0;
    while i < SPX_FORS_TREES
        invariant
            i <= SPX_FORS_TREES,
            offset == i * SPX_FORS_HEIGHT,
            out@.len() == i,
            forall|t: int| 0 <= t < i ==> out@[t] == fors_index(m@, t),
            forall|t: int| 0 <= t < i ==> out@[t] < 64,
        decreases SPX_FORS_TREES - i,
    {
        let ghost base = i as int * (SPX_FORS_HEIGHT as int);
        let mut idx: u32 = 0;
        let mut j: usize = 0;
        while j < SPX_FORS_HEIGHT
            invariant
                j <= SPX_FORS_HEIGHT,
                offset == i * SPX_FORS_HEIGHT + j,
                i < SPX_FORS_TREES,
                idx == fors_index_acc(m@, base, j as int),
            decreases SPX_FORS_HEIGHT - j,
        {
            let b = *slice_index_get(m, offset / 8);
            let bit = (b >> ((offset % 8) as u8)) & 1u8;
            idx = idx ^ ((bit as u32) << (j as u32));
            offset = offset + 1;
            j = j + 1;
        }
        proof {
            lemma_fors_index_bound(m@, i as int);
        }
        out.push(idx);
        i = i + 1;
    }
    out
}

/// The base address of the FORS trees of one keypair: position copied
/// from the surrounding address, type set to tree hashing.
pub open spec fn fors_tree_addr_base(fors_addr: Seq<u8>) -> Seq<u8> {
    with_type(keypair_copied(zeroes(SPX_SM3_ADDR_BYTES as int), fors_addr), SPX_ADDR_TYPE_FORSTREE)
}

/// The address under which the FORS roots are compressed.
pub open spec fn fors_pk_addr_s(fors_addr: Seq<u8>) -> Seq<u8> {
    with_type(keypair_copied(zeroes(SPX_SM3_ADDR_BYTES as int), fors_addr), SPX_ADDR_TYPE_FORSPK)
}

/// The root of FORS tree `i` recovered from the signature: the leaf
/// derived from the revealed secret, combined with the authentication
/// path.
pub open spec fn fors_root_i(
    sig: Seq<u8>,
    m: Seq<u8>,
    seed: Seq<u8>,
    fors_addr: Seq<u8>,
    i: int,
) -> Seq<u8> {
    let idx = fors_index(m, i);
    let off = (i * 64) as u32;
    let leaf_addr = with_index(with_height(fors_tree_addr_base(fors_addr), 0), (idx + off) as u32);
    let leaf = thash_s(sig.subrange(112 * i, 112 * i + 16), 1, seed, leaf_addr);
    compute_root_s(
        leaf,
        idx,
        off,
        sig.subrange(112 * i + 16, 112 * (i + 1)),
        SPX_FORS_HEIGHT as int,
        seed,
        leaf_addr,
    )
}

/// The candidate FORS public key: all tree roots compressed together.
pub open spec fn fors_pk_s(sig: Seq<u8>, m: Seq<u8>, seed: Seq<u8>, fors_addr: Seq<u8>) -> Seq<
    u8,
> {
    let roots = Seq::new(
        (SPX_FORS_TREES * SPX_N) as nat,
        |b: int| fors_root_i(sig, m, seed, fors_addr, b / 16)[b % 16],
    );
    thash_s(roots, SPX_FORS_TREES as int, seed, fors_pk_addr_s(fors_addr))
}

/// Hashes a revealed leaf secret into the corresponding tree leaf.
pub fn fors_sk_to_leaf(sk: &[u8], ctx: &SpxCtx, fors_leaf_addr: &Address) -> (leaf: Vec<u8>)
    requires
        ctx.wf(),
        fors_leaf_addr.wf(),
        sk@.len() >= SPX_N,
    ensures
        leaf@ == thash_s(sk@.take(SPX_N as int), 1, ctx.pub_seed@, fors_leaf_addr@),
        leaf@.len() == SPX_N,
{
    thash(sk, 1, ctx, fors_leaf_addr)
}

/// Derives the candidate FORS public key from a signature slice and a
/// message digest.
#[verifier::loop_isolation(false)]
#[verifier::rlimit(60)]
pub fn fors_pk_from_sig(sig: &[u8], m: &[u8], ctx: &SpxCtx, fors_addr: &Address) -> (pk: Vec<u8>)
    requires
        ctx.wf(),
        fors_addr.wf(),
        sig@.len() >= SPX_FORS_BYTES,
        m@.len() >= SPX_FORS_MSG_BYTES,
    ensures
        pk@ == fors_pk_s(sig@.take(SPX_FORS_BYTES as int), m@, ctx.pub_seed@, fors_addr@),
        pk@.len() == SPX_N,
{
    let ghost sig_t = sig@.take(SPX_FORS_BYTES as int);
    let ghost base_addr = fors_tree_addr_base(fors_addr@);

    let mut a = Address::new();
    a.copy_keypair_addr(fors_addr);
    a.set_type(SPX_ADDR_TYPE_FORSTREE);
    proof {
        assert(a@ == base_addr);
    }
    let mut pk_addr = Address::new();
    pk_addr.copy_keypair_addr(fors_addr);
    pk_addr.set_type(SPX_ADDR_TYPE_FORSPK);
    proof {
        assert(pk_addr@ == fors_pk_addr_s(fors_addr@));
    }

    let indices = message_to_indices(m);

    let mut roots: Vec<u8> = Vec::new();
    let mut i: usize = 0;
    while i < SPX_FORS_TREES
        invariant
            i <= SPX_FORS_TREES,
            a.wf(),
            indices@.len() == SPX_FORS_TREES,
            forall|t: int| 0 <= t < SPX_FORS_TREES ==> indices@[t] == fors_index(m@, t),
            forall|t: int| 0 <= t < SPX_FORS_TREES ==> indices@[t] < 64,
            forall|t: int| 0 <= t < 17 ==> a@[t] == base_addr[t],
            roots@.len() == SPX_N * i,
            forall|b: int|
                0 <= b < SPX_N * i ==> roots@[b] == fors_root_i(
                    sig_t,
                    m@,
                    ctx.pub_seed@,
                    fors_addr@,
                    b / 16,
                )[b % 16],
        decreases SPX_FORS_TREES - i,
    {
        let idx = indices[i];
        let idx_offset: u32 = (i as u32) * 64;
        a.set_tree_height(0);
        a.set_tree_index(idx + idx_offset);
        proof {
            assert(a@ =~= with_index(
                with_height(base_addr, 0),
                (fors_index(m@, i as int) + (i as int) * 64) as u32,
            ));
        }
        let sk = slice_subrange(sig, 112 * i, 112 * i + SPX_N);
        let leaf = fors_sk_to_leaf(sk, ctx, &a);
        proof {
            assert(sk@.take(SPX_N as int) =~= sig_t.subrange(
                112 * (i as int),
                112 * (i as int) + 16,
            ));
        }
        let auth = slice_subrange(sig, 112 * i + SPX_N, 112 * (i + 1));
        let root = compute_root(leaf.as_slice(), idx, idx_offset, auth, 6, ctx, &a);
        proof {
            assert(auth@.take(96) =~= sig_t.subrange(112 * (i as int) + 16, 112 * (i as int + 1)));
            assert(root@ == fors_root_i(sig_t, m@, ctx.pub_seed@, fors_addr@, i as int));
        }
        let ghost rbase = roots@.len();
        roots.extend_from_slice(root.as_slice());
        proof {
            assert forall|b: int| rbase <= b < rbase + SPX_N implies roots@[b] == fors_root_i(
                sig_t,
                m@,
                ctx.pub_seed@,
                fors_addr@,
                b / 16,
            )[b % 16] by {
                vstd::arithmetic::div_mod::lemma_fundamental_div_mod_converse(
                    b,
                    16,
                    i as int,
                    b - 16 * (i as int),
                );
            }
        }
        i = i + 1;
    }

    let pk = thash(roots.as_slice(), SPX_FORS_TREES, ctx, &pk_addr);
    proof {
        assert(roots@.take((SPX_N * SPX_FORS_TREES) as int) =~= roots@);
        assert(roots@ =~= Seq::new(
            (SPX_FORS_TREES * SPX_N) as nat,
            |b: int| fors_root_i(sig_t, m@, ctx.pub_seed@, fors_addr@, b / 16)[b % 16],
        ));
    }
    pk
}

} // verus!
