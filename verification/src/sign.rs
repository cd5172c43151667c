//! The verification orchestrator: derives digest and indices, recovers
//! the FORS root, walks the hypertree layer by layer, and compares the
//! final root to the one in the public key.

use vstd::prelude::*;
use vstd::slice::*;
use crate::address::Address;
use crate::address::keypair_copied;
use crate::address::with_keypair;
use crate::address::with_layer;
use crate::address::with_tree;
use crate::address::with_type;
use crate::api::SigError;
use crate::context::SpxCtx;
use crate::fors::fors_pk_from_sig;
use crate::fors::fors_pk_s;
use crate::hash::hash_message;
use crate::hash::hash_message_digest;
use crate::hash::hash_message_leaf;
use crate::hash::hash_message_tree;
use crate::hash::initialize_hash_function;
use crate::params::SPX_ADDR_TYPE_HASHTREE;
use crate::params::SPX_ADDR_TYPE_WOTS;
use crate::params::SPX_ADDR_TYPE_WOTSPK;
use crate::params::SPX_BYTES;
use crate::params::SPX_D;
use crate::params::SPX_FORS_BYTES;
use crate::params::SPX_N;
use crate::params::SPX_PK_BYTES;
use crate::params::SPX_SM3_ADDR_BYTES;
use crate::params::SPX_TREE_HEIGHT;
use crate::params::SPX_WOTS_BYTES;
use crate::params::SPX_WOTS_LEN;
use crate::thash_robust::thash;
use crate::thash_robust::thash_s;
use crate::utils::compute_root;
use crate::utils::compute_root_s;
use crate::utils::zeroes;
use crate::wots::wots_pk_from_sig;
use crate::wots::wots_pk_s;

verus! {

/// The canonical WOTS+ address of a keypair position.
pub open spec fn wots_addr_s(layer: u32, tree: u64, leaf: u32) -> Seq<u8> {
    with_keypair(
        with_tree(
            with_layer(with_type(zeroes(SPX_SM3_ADDR_BYTES as int), SPX_ADDR_TYPE_WOTS), layer),
            tree,
        ),
        leaf,
    )
}

/// The canonical tree address of a subtree position.
pub open spec fn tree_addr_s(layer: u32, tree: u64) -> Seq<u8> {
    with_tree(
        with_layer(with_type(zeroes(SPX_SM3_ADDR_BYTES as int), SPX_ADDR_TYPE_HASHTREE), layer),
        tree,
    )
}

/// The canonical address under which a WOTS+ public key is compressed.
pub open spec fn wots_pk_addr_s(layer: u32, tree: u64, leaf: u32) -> Seq<u8> {
    keypair_copied(
        with_type(zeroes(SPX_SM3_ADDR_BYTES as int), SPX_ADDR_TYPE_WOTSPK),
        wots_addr_s(layer, tree, leaf),
    )
}

/// The root recovered by walking hypertree layers `i..SPX_D` upward
/// from node `root` at position (`tree`, `leaf`): each layer converts
/// the node into a WOTS+ public key, compresses it into a subtree
/// leaf, and climbs the subtree with the next authentication path.
pub open spec fn layers_root(
    sig: Seq<u8>,
    root: Seq<u8>,
    tree: u64,
    leaf: u32,
    i: int,
    seed: Seq<u8>,
) -> Seq<u8>
    decreases SPX_D - i,
{
    if i >= SPX_D {
        root
    } else {
        let off = SPX_N as int + SPX_FORS_BYTES as int + i * (SPX_WOTS_BYTES as int
            + SPX_TREE_HEIGHT as int * SPX_N as int);
        let wsig = sig.subrange(off, off + SPX_WOTS_BYTES as int);
        let auth = sig.subrange(
            off + SPX_WOTS_BYTES as int,
            off + SPX_WOTS_BYTES as int + SPX_TREE_HEIGHT as int * SPX_N as int,
        );
        let wpk = wots_pk_s(wsig, root, seed, wots_addr_s(i as u32, tree, leaf));
        let leaf_node = thash_s(wpk, SPX_WOTS_LEN as int, seed, wots_pk_addr_s(i as u32, tree, leaf));
        let root2 = compute_root_s(
            leaf_node,
            leaf,
            0,
            auth,
            SPX_TREE_HEIGHT as int,
            seed,
            tree_addr_s(i as u32, tree),
        );
        layers_root(sig, root2, tree >> 3u64, (tree & 7u64) as u32, i + 1, seed)
    }
}

/// The hypertree root recomputed from a whole signature, a message and
/// a public key.
pub open spec fn spx_verify_root(sig: Seq<u8>, msg: Seq<u8>, pk: Seq<u8>) -> Seq<u8> {
    let seed = pk.take(SPX_N as int);
    let mhash = hash_message_digest(sig, pk, msg);
    let tree = hash_message_tree(sig, pk, msg);
    let leaf = hash_message_leaf(sig, pk, msg);
    let fors_root = fors_pk_s(
        sig.subrange(SPX_N as int, SPX_N as int + SPX_FORS_BYTES as int),
        mhash,
        seed,
        wots_addr_s(0, tree, leaf),
    );
    layers_root(sig, fors_root, tree, leaf, 0, seed)
}

/// A signature is valid when it has the fixed length and its
/// recomputed root equals the root half of the public key.
pub open spec fn spx_verify(sig: Seq<u8>, msg: Seq<u8>, pk: Seq<u8>) -> bool {
    sig.len() == SPX_BYTES && spx_verify_root(sig, msg, pk) == pk.skip(SPX_N as int)
}

/// Verifies a detached signature over `msg` under the public key `pk`.
/// Returns the input error exactly on a wrong-length signature, before
/// any hashing; otherwise accepts exactly the signatures whose
/// recomputed root matches the public key.
#[verifier::loop_isolation(false)]
#[verifier::rlimit(60)]
pub fn crypto_sign_verify(sig: &[u8], msg: &[u8], pk: &[u8]) -> (r: Result<(), SigError>)
    requires
        pk@.len() == SPX_PK_BYTES,
        msg@.len() + 48 <= u64::MAX,
    ensures
        r is Ok <==> spx_verify(sig@, msg@, pk@),
        sig@.len() != SPX_BYTES ==> r == Err::<(), SigError>(SigError::Input),
        sig@.len() == SPX_BYTES && !spx_verify(sig@, msg@, pk@) ==> r == Err::<(), SigError>(
            SigError::Verify,
        ),
{
    if sig.len() != SPX_BYTES {
        return Err(SigError::Input);
    }
    let ghost seed = pk@.take(SPX_N as int);

    let mut ctx = SpxCtx::default();
    let mut seedv: Vec<u8> = Vec::new();
    seedv.extend_from_slice(slice_subrange(pk, 0, SPX_N));
    ctx.pub_seed = seedv;
    proof {
        assert(ctx.pub_seed@ =~= seed);
    }
    initialize_hash_function(&mut ctx);

    let hm = hash_message(sig, pk, msg);
    let mhash = hm.0;
    let mut tree = hm.1;
    let mut idx_leaf = hm.2;
    proof {
        let lw = crate::utils::be_uint(
            crate::hash::hash_message_buf(sig@, pk@, msg@).skip(33),
            1,
        ) as u32;
        assert(lw & 0x7u32 <= 7) by (bit_vector);
        assert(idx_leaf <= 7);
    }

    let mut wots_addr = Address::new();
    wots_addr.set_type(SPX_ADDR_TYPE_WOTS);
    wots_addr.set_tree_addr(tree);
    wots_addr.set_keypair_addr(idx_leaf);
    proof {
        assert(wots_addr@ =~= wots_addr_s(0, tree, idx_leaf));
    }

    let mut root = fors_pk_from_sig(
        slice_subrange(sig, SPX_N, SPX_N + SPX_FORS_BYTES),
        mhash.as_slice(),
        &ctx,
        &wots_addr,
    );
    proof {
        assert(sig@.subrange(SPX_N as int, SPX_N as int + SPX_FORS_BYTES as int).take(
            SPX_FORS_BYTES as int,
        ) =~= sig@.subrange(SPX_N as int, SPX_N as int + SPX_FORS_BYTES as int));
        assert(root@ == fors_pk_s(
            sig@.subrange(SPX_N as int, SPX_N as int + SPX_FORS_BYTES as int),
            hash_message_digest(sig@, pk@, msg@),
            seed,
            wots_addr_s(0, tree, idx_leaf),
        ));
    }
    let ghost goal = spx_verify_root(sig@, msg@, pk@);
    proof {
        assert(goal == layers_root(sig@, root@, tree, idx_leaf, 0, seed));
    }

    let mut i: usize = 0;
    while i < SPX_D
        invariant
            i <= SPX_D,
            ctx.wf(),
            ctx.pub_seed@ == seed,
            root@.len() == SPX_N,
            idx_leaf <= 7,
            goal == layers_root(sig@, root@, tree, idx_leaf, i as int, seed),
        decreases SPX_D - i,
    {
        let mut tree_addr = Address::new();
        tree_addr.set_type(SPX_ADDR_TYPE_HASHTREE);
        tree_addr.set_layer_addr(i as u32);
        tree_addr.set_tree_addr(tree);
        proof {
            assert(tree_addr@ =~= tree_addr_s(i as u32, tree));
        }

        let mut wots_addr = Address::new();
        wots_addr.set_type(SPX_ADDR_TYPE_WOTS);
        wots_addr.set_layer_addr(i as u32);
        wots_addr.set_tree_addr(tree);
        wots_addr.set_keypair_addr(idx_leaf);
        proof {
            assert(wots_addr@ =~= wots_addr_s(i as u32, tree, idx_leaf));
        }

        let mut wots_pk_addr = Address::new();
        wots_pk_addr.set_type(SPX_ADDR_TYPE_WOTSPK);
        wots_pk_addr.copy_keypair_addr(&wots_addr);
        proof {
            assert(wots_pk_addr@ =~= wots_pk_addr_s(i as u32, tree, idx_leaf));
        }

        proof {
            assert(i * (SPX_WOTS_BYTES + SPX_TREE_HEIGHT * SPX_N) <= 21 * 608) by (nonlinear_arith)
                requires
                    i <= 21,
            ;
        }
        let off = SPX_N + SPX_FORS_BYTES + i * (SPX_WOTS_BYTES + SPX_TREE_HEIGHT * SPX_N);
        let wsig = slice_subrange(sig, off, off + SPX_WOTS_BYTES);
        let wots_pk = wots_pk_from_sig(wsig, root.as_slice(), &ctx, &wots_addr);
        proof {
            assert(wsig@.take(SPX_WOTS_BYTES as int) =~= sig@.subrange(
                off as int,
                off as int + SPX_WOTS_BYTES as int,
            ));
        }

        let leaf_node = thash(wots_pk.as_slice(), SPX_WOTS_LEN, &ctx, &wots_pk_addr);
        proof {
            assert(wots_pk@.take((SPX_N * SPX_WOTS_LEN) as int) =~= wots_pk@);
        }

        let auth = slice_subrange(
            sig,
            off + SPX_WOTS_BYTES,
            off + SPX_WOTS_BYTES + SPX_TREE_HEIGHT * SPX_N,
        );
        let new_root = compute_root(
            leaf_node.as_slice(),
            idx_leaf,
            0,
            auth,
            SPX_TREE_HEIGHT as u32,
            &ctx,
            &tree_addr,
        );
        proof {
            assert(auth@.take((SPX_TREE_HEIGHT * SPX_N) as int) =~= sig@.subrange(
                off as int + SPX_WOTS_BYTES as int,
                off as int + SPX_WOTS_BYTES as int + SPX_TREE_HEIGHT as int * SPX_N as int,
            ));
            assert(layers_root(sig@, root@, tree, idx_leaf, i as int, seed) == layers_root(
                sig@,
                new_root@,
                tree >> 3u64,
                (tree & 7u64) as u32,
                i as int + 1,
                seed,
            ));
        }
        root = new_root;
        let next_leaf = (tree & 7u64) as u32;
        proof {
            let tv = tree;
            assert((tv & 7u64) as u32 <= 7) by (bit_vector);
        }
        idx_leaf = next_leaf;
        tree = tree >> 3u64;
        i = i + 1;
    }

    let pub_root = slice_subrange(pk, SPX_N, SPX_PK_BYTES);
    let mut same = true;
    let mut b: usize = 0;
    while b < SPX_N
        invariant
            b <= SPX_N,
            root@.len() == SPX_N,
            pub_root@.len() == SPX_N,
            same <==> (forall|t: int| 0 <= t < b ==> root@[t] == pub_root@[t]),
        decreases SPX_N - b,
    {
        if root[b] != *slice_index_get(pub_root, b) {
            same = false;
        }
        b = b + 1;
    }
    proof {
        if same {
            assert(root@ =~= pub_root@);
        }
        assert(pub_root@ =~= pk@.skip(SPX_N as int));
    }
    if !same {
        return Err(SigError::Verify);
    }
    Ok(())
}

} // verus!
