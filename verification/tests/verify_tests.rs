//! End-to-end verification tests: a signature forest is built with the
//! library's own primitives so that the verifier must accept it, and
//! mutations of signature and key must be rejected.

use spx_sm3::address::Address;
use spx_sm3::api::{verify, vrfy, Keypair, SigError};
use spx_sm3::context::SpxCtx;
use spx_sm3::fors::{fors_sk_to_leaf, message_to_indices};
use spx_sm3::hash::{hash_message, initialize_hash_function};
use spx_sm3::params::{
    CRYPTO_BYTES, CRYPTO_SECRETKEYBYTES, SPX_ADDR_TYPE_FORSPK, SPX_ADDR_TYPE_FORSTREE,
    SPX_ADDR_TYPE_HASHTREE, SPX_ADDR_TYPE_WOTS, SPX_ADDR_TYPE_WOTSPK, SPX_D, SPX_FORS_HEIGHT,
    SPX_FORS_TREES, SPX_N, SPX_TREE_HEIGHT, SPX_WOTS_LEN,
};
use spx_sm3::thash_robust::thash;
use spx_sm3::utils::compute_root;
use spx_sm3::wots::{chain_lengths, gen_chain};

fn clone_addr(a: &Address) -> Address {
    Address { b: a.bytes().clone() }
}

fn make_ctx(seed: &[u8]) -> SpxCtx {
    let mut ctx = SpxCtx::default();
    ctx.pub_seed = seed.to_vec();
    initialize_hash_function(&mut ctx);
    ctx
}

/// Deterministic filler bytes standing in for secrets and for
/// authentication-path nodes that nothing constrains.
fn fill(tag: u64, len: usize) -> Vec<u8> {
    (0..len)
        .map(|i| (tag.wrapping_mul(2654435761).wrapping_add(i as u64 * 97) % 251) as u8)
        .collect()
}

fn wots_sk(layer: u32, tree: u64, kp: u32, j: usize) -> Vec<u8> {
    fill(
        (layer as u64) << 50 ^ tree << 10 ^ (kp as u64) << 6 ^ j as u64,
        SPX_N,
    )
}

fn wots_base_addr(layer: u32, tree: u64, kp: u32) -> Address {
    let mut a = Address::new();
    a.set_type(SPX_ADDR_TYPE_WOTS);
    a.set_layer_addr(layer);
    a.set_tree_addr(tree);
    a.set_keypair_addr(kp);
    a
}

/// The public leaf of one WOTS+ keypair: every chain run to its end,
/// the ends compressed under the keypair address.
fn wots_leaf(ctx: &SpxCtx, layer: u32, tree: u64, kp: u32) -> Vec<u8> {
    let base = wots_base_addr(layer, tree, kp);
    let mut pk = Vec::new();
    for j in 0..SPX_WOTS_LEN {
        let mut a = clone_addr(&base);
        a.set_chain_addr(j as u32);
        let end = gen_chain(&wots_sk(layer, tree, kp, j), 0, 15, ctx, &a);
        pk.extend_from_slice(&end);
    }
    let mut pk_addr = Address::new();
    pk_addr.set_type(SPX_ADDR_TYPE_WOTSPK);
    pk_addr.copy_keypair_addr(&base);
    thash(&pk, SPX_WOTS_LEN, ctx, &pk_addr)
}

/// A WOTS+ signature over `value`: each chain advanced to the digit
/// the verifier will start from.
fn wots_sign(ctx: &SpxCtx, value: &[u8], layer: u32, tree: u64, kp: u32) -> Vec<u8> {
    let lengths = chain_lengths(value);
    let base = wots_base_addr(layer, tree, kp);
    let mut sig = Vec::new();
    for j in 0..SPX_WOTS_LEN {
        let mut a = clone_addr(&base);
        a.set_chain_addr(j as u32);
        let v = gen_chain(&wots_sk(layer, tree, kp, j), 0, lengths[j], ctx, &a);
        sig.extend_from_slice(&v);
    }
    sig
}

fn tree_addr_for(layer: u32, tree: u64) -> Address {
    let mut a = Address::new();
    a.set_type(SPX_ADDR_TYPE_HASHTREE);
    a.set_layer_addr(layer);
    a.set_tree_addr(tree);
    a
}

/// All node levels of one honestly built subtree: level 0 holds the
/// eight WOTS+ leaves, level 3 the root alone.
fn subtree_levels(ctx: &SpxCtx, layer: u32, tree: u64) -> Vec<Vec<Vec<u8>>> {
    let mut level: Vec<Vec<u8>> = (0..8).map(|kp| wots_leaf(ctx, layer, tree, kp)).collect();
    let base = tree_addr_for(layer, tree);
    let mut levels = vec![level.clone()];
    for h in 1..=SPX_TREE_HEIGHT {
        let mut next = Vec::new();
        for j in 0..level.len() / 2 {
            let mut a = clone_addr(&base);
            a.set_tree_height(h as u32);
            a.set_tree_index(j as u32);
            let mut buf = level[2 * j].clone();
            buf.extend_from_slice(&level[2 * j + 1]);
            next.push(thash(&buf, 2, ctx, &a));
        }
        levels.push(next.clone());
        level = next;
    }
    levels
}

/// Builds a triple the verifier must accept: the top subtree is built
/// honestly so the root is known before the message digest fixes the
/// path, and every lower authentication path is chosen freely with its
/// subtree root recomputed the same way the verifier will.
fn forge(pk_seed: &[u8], r: &[u8], msg: &[u8]) -> (Vec<u8>, Vec<u8>) {
    let ctx = make_ctx(pk_seed);
    let top = subtree_levels(&ctx, (SPX_D - 1) as u32, 0);
    let pk_root = top[SPX_TREE_HEIGHT][0].clone();
    let mut pk = pk_seed.to_vec();
    pk.extend_from_slice(&pk_root);

    let (mhash, tree0, leaf0) = hash_message(r, &pk, msg);
    let mut sig = r.to_vec();

    // FORS part
    let wots_addr0 = wots_base_addr(0, tree0, leaf0);
    let indices = message_to_indices(&mhash);
    let mut fors_tree_addr = Address::new();
    fors_tree_addr.copy_keypair_addr(&wots_addr0);
    fors_tree_addr.set_type(SPX_ADDR_TYPE_FORSTREE);
    let mut roots = Vec::new();
    for i in 0..SPX_FORS_TREES {
        let sk = fill(4000 + i as u64, SPX_N);
        let auth = fill(5000 + i as u64, SPX_FORS_HEIGHT * SPX_N);
        let off = (i as u32) << SPX_FORS_HEIGHT;
        let mut a = clone_addr(&fors_tree_addr);
        a.set_tree_height(0);
        a.set_tree_index(indices[i] + off);
        let leaf = fors_sk_to_leaf(&sk, &ctx, &a);
        let root = compute_root(&leaf, indices[i], off, &auth, SPX_FORS_HEIGHT as u32, &ctx, &a);
        sig.extend_from_slice(&sk);
        sig.extend_from_slice(&auth);
        roots.extend_from_slice(&root);
    }
    let mut fors_pk_addr = Address::new();
    fors_pk_addr.copy_keypair_addr(&wots_addr0);
    fors_pk_addr.set_type(SPX_ADDR_TYPE_FORSPK);
    let mut root = thash(&roots, SPX_FORS_TREES, &ctx, &fors_pk_addr);

    // hypertree layers
    let mut tree = tree0;
    let mut leaf = leaf0;
    for layer in 0..SPX_D {
        sig.extend_from_slice(&wots_sign(&ctx, &root, layer as u32, tree, leaf));
        let leaf_node = wots_leaf(&ctx, layer as u32, tree, leaf);
        let ta = tree_addr_for(layer as u32, tree);
        if layer + 1 < SPX_D {
            let auth = fill(6000 + layer as u64, SPX_TREE_HEIGHT * SPX_N);
            root = compute_root(&leaf_node, leaf, 0, &auth, SPX_TREE_HEIGHT as u32, &ctx, &ta);
            sig.extend_from_slice(&auth);
        } else {
            // top layer: the honest siblings of the path
            assert_eq!(tree, 0);
            let mut auth = Vec::new();
            auth.extend_from_slice(&top[0][(leaf ^ 1) as usize]);
            auth.extend_from_slice(&top[1][((leaf >> 1) ^ 1) as usize]);
            auth.extend_from_slice(&top[2][((leaf >> 2) ^ 1) as usize]);
            root = compute_root(&leaf_node, leaf, 0, &auth, SPX_TREE_HEIGHT as u32, &ctx, &ta);
            assert_eq!(root, pk_root);
            sig.extend_from_slice(&auth);
        }
        leaf = (tree & 7) as u32;
        tree >>= 3;
    }
    assert_eq!(sig.len(), CRYPTO_BYTES);
    (pk, sig)
}

#[test]
fn accepts_constructed_signature() {
    // a known-answer construction: all-zero public seed
    let pk_seed = vec![0u8; SPX_N];
    let r = fill(7, SPX_N);
    let msg = b"post-quantum signatures over SM3".to_vec();
    let (pk, sig) = forge(&pk_seed, &r, &msg);
    assert!(vrfy(&sig, &msg, &pk).is_ok());

    let keypair = Keypair { public: pk, secret: vec![0u8; CRYPTO_SECRETKEYBYTES] };
    assert!(verify(&sig, &msg, &keypair).is_ok());
}

#[test]
fn rejects_flipped_signature_byte() {
    let pk_seed = vec![0u8; SPX_N];
    let r = fill(7, SPX_N);
    let msg = b"post-quantum signatures over SM3".to_vec();
    let (pk, mut sig) = forge(&pk_seed, &r, &msg);
    // byte 3 of the FORS portion
    sig[SPX_N + 3] ^= 0x33;
    assert!(matches!(vrfy(&sig, &msg, &pk), Err(SigError::Verify)));
    // byte 3 of the randomizer
    sig[SPX_N + 3] ^= 0x33;
    sig[3] ^= 0x01;
    assert!(matches!(vrfy(&sig, &msg, &pk), Err(SigError::Verify)));
}

#[test]
fn rejects_flipped_public_key_byte() {
    let pk_seed = vec![0u8; SPX_N];
    let r = fill(9, SPX_N);
    let msg = b"another message".to_vec();
    let (pk, sig) = forge(&pk_seed, &r, &msg);
    // a seed byte
    let mut pk_seed_flip = pk.clone();
    pk_seed_flip[3] = 0x33;
    assert!(matches!(vrfy(&sig, &msg, &pk_seed_flip), Err(SigError::Verify)));
    // a root byte
    let mut pk_root_flip = pk.clone();
    pk_root_flip[SPX_N + 3] ^= 0x80;
    assert!(matches!(vrfy(&sig, &msg, &pk_root_flip), Err(SigError::Verify)));
}

#[test]
fn rejects_flipped_message() {
    let pk_seed = vec![0u8; SPX_N];
    let r = fill(11, SPX_N);
    let msg = b"exact message".to_vec();
    let (pk, sig) = forge(&pk_seed, &r, &msg);
    let mut msg2 = msg.clone();
    msg2[0] ^= 0x01;
    assert!(matches!(vrfy(&sig, &msg2, &pk), Err(SigError::Verify)));
}

#[test]
fn wrong_length_is_input_error() {
    let pk = vec![0u8; 32];
    let msg = b"m".to_vec();
    assert!(matches!(vrfy(&[0u8; 100], &msg, &pk), Err(SigError::Input)));
    assert!(matches!(
        vrfy(&vec![0u8; CRYPTO_BYTES - 1], &msg, &pk),
        Err(SigError::Input)
    ));
    assert!(matches!(
        vrfy(&vec![0u8; CRYPTO_BYTES + 1], &msg, &pk),
        Err(SigError::Input)
    ));
    // a well-formed length with garbage content fails later, as a
    // verification error, not an input error
    assert!(matches!(
        vrfy(&vec![0u8; CRYPTO_BYTES], &msg, &pk),
        Err(SigError::Verify)
    ));
}
