//! Tests of the traversal primitives: addresses, tree hashing, chain
//! digits and Merkle path recomputation.

use spx_sm3::address::Address;
use spx_sm3::context::SpxCtx;
use spx_sm3::fors::{fors_sk_to_leaf, message_to_indices};
use spx_sm3::hash::initialize_hash_function;
use spx_sm3::params::{SPX_ADDR_TYPE_FORSTREE, SPX_ADDR_TYPE_HASHTREE, SPX_FORS_TREES, SPX_N};
use spx_sm3::thash_robust;
use spx_sm3::thash_simple;
use spx_sm3::utils::compute_root;
use spx_sm3::wots::{base_w, chain_lengths, gen_chain};

fn clone_addr(a: &Address) -> Address {
    Address { b: a.bytes().clone() }
}

fn make_ctx(seed_byte: u8) -> SpxCtx {
    let mut ctx = SpxCtx::default();
    ctx.pub_seed = vec![seed_byte; SPX_N];
    initialize_hash_function(&mut ctx);
    ctx
}

#[test]
fn address_bytes_layout() {
    let mut a = Address::new();
    assert_eq!(a.bytes().len(), 22);
    a.set_layer_addr(5);
    a.set_tree_addr(0x0102030405060708);
    a.set_type(3);
    a.set_keypair_addr(6);
    a.set_tree_height(2);
    a.set_tree_index(0x0A0B0C0D);
    let b = a.bytes();
    assert_eq!(b[0], 5);
    assert_eq!(&b[1..9], &[1, 2, 3, 4, 5, 6, 7, 8]);
    assert_eq!(b[9], 3);
    assert_eq!(b[13], 6);
    assert_eq!(b[17], 2);
    assert_eq!(&b[18..22], &[0x0A, 0x0B, 0x0C, 0x0D]);
}

#[test]
fn address_copies() {
    let mut src = Address::new();
    src.set_layer_addr(9);
    src.set_tree_addr(77);
    src.set_keypair_addr(4);
    let mut dst = Address::new();
    dst.set_type(2);
    dst.set_tree_index(123);
    dst.copy_subtree_addr(&src);
    assert_eq!(dst.bytes()[0], 9);
    assert_eq!(dst.bytes()[8], 77);
    assert_eq!(dst.bytes()[9], 2);
    assert_eq!(dst.bytes()[13], 0);
    let mut dst2 = Address::new();
    dst2.copy_keypair_addr(&src);
    assert_eq!(dst2.bytes()[8], 77);
    assert_eq!(dst2.bytes()[13], 4);
}

#[test]
fn thash_is_deterministic() {
    // identical context, address and input give bit-identical output,
    // in both tree-hash variants
    let ctx = make_ctx(0xAB);
    let mut a = Address::new();
    a.set_type(SPX_ADDR_TYPE_HASHTREE);
    a.set_tree_index(7);
    let input: Vec<u8> = (0..32u32).map(|i| i as u8).collect();
    let r1 = thash_robust::thash(&input, 2, &ctx, &a);
    let r2 = thash_robust::thash(&input, 2, &ctx, &a);
    assert_eq!(r1, r2);
    assert_eq!(r1.len(), SPX_N);
    let s1 = thash_simple::thash(&input, 2, &ctx, &a);
    let s2 = thash_simple::thash(&input, 2, &ctx, &a);
    assert_eq!(s1, s2);
    // the two variants are distinct policies
    assert_ne!(r1, s1);
}

#[test]
fn thash_depends_on_address() {
    let ctx = make_ctx(0x01);
    let input: Vec<u8> = vec![0x55; 16];
    let mut a1 = Address::new();
    a1.set_tree_index(1);
    let mut a2 = Address::new();
    a2.set_tree_index(2);
    assert_ne!(
        thash_robust::thash(&input, 1, &ctx, &a1),
        thash_robust::thash(&input, 1, &ctx, &a2)
    );
}

#[test]
fn base_w_splits_nibbles() {
    let digits = base_w(&[0xAB, 0x05], 4);
    assert_eq!(digits, vec![0xA, 0xB, 0x0, 0x5]);
}

#[test]
fn chain_lengths_checksum() {
    // all-zero value: 32 zero digits, checksum 32*15 = 480, shifted
    // left four bits = 0x1E00, giving digits 1, 14, 0
    let lengths = chain_lengths(&[0u8; 16]);
    assert_eq!(lengths.len(), 35);
    assert!(lengths[..32].iter().all(|&d| d == 0));
    assert_eq!(&lengths[32..], &[1, 14, 0]);
    // all-ones value: 32 digits of 15, checksum 0
    let lengths = chain_lengths(&[0xFF; 16]);
    assert!(lengths[..32].iter().all(|&d| d == 15));
    assert_eq!(&lengths[32..], &[0, 0, 0]);
}

#[test]
fn gen_chain_composes() {
    // walking a chain in two legs equals walking it in one
    let ctx = make_ctx(0x42);
    let a = Address::new();
    let start: Vec<u8> = (0..16u32).map(|i| (i * 3) as u8).collect();
    let whole = gen_chain(&start, 0, 15, &ctx, &a);
    let mid = gen_chain(&start, 0, 6, &ctx, &a);
    let rest = gen_chain(&mid, 6, 9, &ctx, &a);
    assert_eq!(whole, rest);
    // zero steps is the identity
    assert_eq!(gen_chain(&start, 4, 0, &ctx, &a), start);
}

#[test]
fn message_to_indices_bit_order() {
    // bit j of index i is digest bit i*6 + j, least significant first:
    // a first byte of 0x41 sets bit 0 of index 0 and bit 0 of index 1
    let mut m = vec![0u8; 25];
    m[0] = 0x41;
    let idx = message_to_indices(&m);
    assert_eq!(idx.len(), SPX_FORS_TREES);
    assert_eq!(idx[0], 1);
    assert_eq!(idx[1], 1);
    assert!(idx[2..].iter().all(|&v| v == 0));
    // a first byte of 0x20 sets bit 5 of index 0
    let mut m = vec![0u8; 25];
    m[0] = 0x20;
    let idx = message_to_indices(&m);
    assert_eq!(idx[0], 32);
    assert_eq!(idx[1], 0);
}

#[test]
fn compute_root_roundtrip_small_tree() {
    // build a height-2 tree by hand, then recover its root from each
    // leaf and that leaf's authentication path
    let ctx = make_ctx(0x77);
    let mut base = Address::new();
    base.set_type(SPX_ADDR_TYPE_FORSTREE);
    let leaves: Vec<Vec<u8>> = (0..4u32)
        .map(|i| {
            let mut a = clone_addr(&base);
            a.set_tree_height(0);
            a.set_tree_index(i);
            fors_sk_to_leaf(&vec![i as u8; 16], &ctx, &a)
        })
        .collect();
    let node = |h: u32, j: u32, left: &[u8], right: &[u8]| {
        let mut a = clone_addr(&base);
        a.set_tree_height(h);
        a.set_tree_index(j);
        let mut buf = left.to_vec();
        buf.extend_from_slice(right);
        thash_robust::thash(&buf, 2, &ctx, &a)
    };
    let n10 = node(1, 0, &leaves[0], &leaves[1]);
    let n11 = node(1, 1, &leaves[2], &leaves[3]);
    let root = node(2, 0, &n10, &n11);

    for leaf_idx in 0..4u32 {
        let sib0 = &leaves[(leaf_idx ^ 1) as usize];
        let sib1 = if (leaf_idx >> 1) ^ 1 == 0 { &n10 } else { &n11 };
        let mut auth = sib0.clone();
        auth.extend_from_slice(sib1);
        let mut a = clone_addr(&base);
        a.set_tree_height(0);
        a.set_tree_index(leaf_idx);
        let got = compute_root(&leaves[leaf_idx as usize], leaf_idx, 0, &auth, 2, &ctx, &a);
        assert_eq!(got, root);
    }
}
