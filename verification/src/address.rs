//! Hash addresses: a fixed-layout coordinate (layer, tree, type,
//! keypair, chain/height, hash/index) serialized into 22 bytes and
//! mixed into every tree-hash call for domain separation.
//!
//! Byte layout: `0` layer, `1..9` tree (big-endian), `9` type,
//! `13` keypair, `17` chain or tree height, `21` hash position,
//! `18..22` tree index (big-endian; its last byte shares position 21
//! with the hash position, as the two are used by different address
//! types).

use vstd::prelude::*;
use crate::params::SPX_SM3_ADDR_BYTES;
use crate::sm3::be32_bytes;
use crate::sm3::be64_bytes;
use crate::sm3::store_bigendian_32;
use crate::sm3::store_bigendian_64;
use crate::utils::zeroes;

verus! {

/// `a` with the layer byte replaced.
pub open spec fn with_layer(a: Seq<u8>, layer: u32) -> Seq<u8> {
    a.update(0, layer as u8)
}

/// `a` with the eight tree bytes replaced.
pub open spec fn with_tree(a: Seq<u8>, tree: u64) -> Seq<u8> {
    a.take(1) + be64_bytes(tree) + a.skip(9)
}

/// `a` with the type byte replaced.
pub open spec fn with_type(a: Seq<u8>, t: u32) -> Seq<u8> {
    a.update(9, t as u8)
}

/// `a` with the keypair byte replaced.
pub open spec fn with_keypair(a: Seq<u8>, keypair: u32) -> Seq<u8> {
    a.update(13, keypair as u8)
}

/// `a` with the chain byte replaced.
pub open spec fn with_chain(a: Seq<u8>, chain: u32) -> Seq<u8> {
    a.update(17, chain as u8)
}

/// `a` with the hash-position byte replaced.
pub open spec fn with_hash(a: Seq<u8>, hash: u32) -> Seq<u8> {
    a.update(21, hash as u8)
}

/// `a` with the tree-height byte replaced.
pub open spec fn with_height(a: Seq<u8>, height: u32) -> Seq<u8> {
    a.update(17, height as u8)
}

/// `a` with the four tree-index bytes replaced.
pub open spec fn with_index(a: Seq<u8>, index: u32) -> Seq<u8> {
    a.take(18) + be32_bytes(index)
}

/// `dst` with layer and tree taken from `src`.
pub open spec fn subtree_copied(dst: Seq<u8>, src: Seq<u8>) -> Seq<u8> {
    src.take(9) + dst.skip(9)
}

/// `dst` with layer, tree and keypair taken from `src`.
pub open spec fn keypair_copied(dst: Seq<u8>, src: Seq<u8>) -> Seq<u8> {
    src.take(9) + dst.subrange(9, 13) + seq![src[13]] + dst.skip(14)
}

/// A hash address; always exactly 22 bytes.
pub struct Address {
    /// The serialized address bytes.
    pub b: Vec<u8>,
}

impl View for Address {
    type V = Seq<u8>;

    open spec fn view(&self) -> Seq<u8> {
        self.b@
    }
}

impl Address {
    /// An address is well formed when it has its fixed serialized
    /// length.
    pub open spec fn wf(&self) -> bool {
        self@.len() == SPX_SM3_ADDR_BYTES
    }

    /// A fresh all-zero address.
    pub fn new() -> (r: Self)
        ensures
            r@ == zeroes(SPX_SM3_ADDR_BYTES as int),
            r.wf(),
    {
        let r = Address { b: vec![0u8; 22] };
        proof {
            assert(r@ =~= zeroes(SPX_SM3_ADDR_BYTES as int));
        }
        r
    }

    /// The serialized bytes.
    pub fn bytes(&self) -> (r: &Vec<u8>)
        ensures
            r@ == self@,
    {
        &self.b
    }

    /// Sets the hypertree layer.
    pub fn set_layer_addr(&mut self, layer: u32)
        requires
            old(self).wf(),
        ensures
            final(self)@ == with_layer(old(self)@, layer),
            final(self).wf(),
    {
        let ghost a0 = self@;
        self.b[0] = layer as u8;
        proof {
            assert(self@ =~= with_layer(a0, layer));
        }
    }

    /// Sets the tree position within the layer.
    pub fn set_tree_addr(&mut self, tree: u64)
        requires
            old(self).wf(),
        ensures
            final(self)@ == with_tree(old(self)@, tree),
            final(self).wf(),
    {
        let ghost a0 = self@;
        store_bigendian_64(&mut self.b, 1, tree);
        proof {
            assert(self@ =~= with_tree(a0, tree));
        }
    }

    /// Sets the address type tag.
    pub fn set_type(&mut self, t: u32)
        requires
            old(self).wf(),
        ensures
            final(self)@ == with_type(old(self)@, t),
            final(self).wf(),
    {
        let ghost a0 = self@;
        self.b[9] = t as u8;
        proof {
            assert(self@ =~= with_type(a0, t));
        }
    }

    /// Sets the keypair (leaf) position within the subtree.
    pub fn set_keypair_addr(&mut self, keypair: u32)
        requires
            old(self).wf(),
        ensures
            final(self)@ == with_keypair(old(self)@, keypair),
            final(self).wf(),
    {
        let ghost a0 = self@;
        self.b[13] = keypair as u8;
        proof {
            assert(self@ =~= with_keypair(a0, keypair));
        }
    }

    /// Sets the chain position of a WOTS+ address.
    pub fn set_chain_addr(&mut self, chain: u32)
        requires
            old(self).wf(),
        ensures
            final(self)@ == with_chain(old(self)@, chain),
            final(self).wf(),
    {
        let ghost a0 = self@;
        self.b[17] = chain as u8;
        proof {
            assert(self@ =~= with_chain(a0, chain));
        }
    }

    /// Sets the position within a WOTS+ chain.
    pub fn set_hash_addr(&mut self, hash: u32)
        requires
            old(self).wf(),
        ensures
            final(self)@ == with_hash(old(self)@, hash),
            final(self).wf(),
    {
        let ghost a0 = self@;
        self.b[21] = hash as u8;
        proof {
            assert(self@ =~= with_hash(a0, hash));
        }
    }

    /// Sets the node height of a tree address.
    pub fn set_tree_height(&mut self, height: u32)
        requires
            old(self).wf(),
        ensures
            final(self)@ == with_height(old(self)@, height),
            final(self).wf(),
    {
        let ghost a0 = self@;
        self.b[17] = height as u8;
        proof {
            assert(self@ =~= with_height(a0, height));
        }
    }

    /// Sets the node index of a tree address.
    pub fn set_tree_index(&mut self, index: u32)
        requires
            old(self).wf(),
        ensures
            final(self)@ == with_index(old(self)@, index),
            final(self).wf(),
    {
        let ghost a0 = self@;
        store_bigendian_32(&mut self.b, 18, index);
        proof {
            assert(self@ =~= with_index(a0, index));
        }
    }

    /// Copies layer and tree from `src`.
    #[verifier::loop_isolation(false)]
    pub fn copy_subtree_addr(&mut self, src: &Address)
        requires
            old(self).wf(),
            src.wf(),
        ensures
            final(self)@ == subtree_copied(old(self)@, src@),
            final(self).wf(),
    {
        let ghost a0 = self@;
        let mut i: usize = 0;
        while i < 9
            invariant
                i <= 9,
                self@.len() == SPX_SM3_ADDR_BYTES,
                forall|t: int| 0 <= t < i ==> self@[t] == src@[t],
                forall|t: int| i <= t < SPX_SM3_ADDR_BYTES ==> self@[t] == a0[t],
            decreases 9 - i,
        {
            let v = src.b[i];
            self.b[i] = v;
            i = i + 1;
        }
        proof {
            assert(self@ =~= subtree_copied(a0, src@));
        }
    }

    /// Copies layer, tree and keypair from `src`.
    #[verifier::loop_isolation(false)]
    pub fn copy_keypair_addr(&mut self, src: &Address)
        requires
            old(self).wf(),
            src.wf(),
        ensures
            final(self)@ == keypair_copied(old(self)@, src@),
            final(self).wf(),
    {
        let ghost a0 = self@;
        let mut i: usize = 0;
        while i < 9
            invariant
                i <= 9,
                self@.len() == SPX_SM3_ADDR_BYTES,
                forall|t: int| 0 <= t < i ==> self@[t] == src@[t],
                forall|t: int| i <= t < SPX_SM3_ADDR_BYTES ==> self@[t] == a0[t],
            decreases 9 - i,
        {
            let v = src.b[i];
            self.b[i] = v;
            i = i + 1;
        }
        let v13 = src.b[13];
        self.b[13] = v13;
        proof {
            assert(self@ =~= keypair_copied(a0, src@));
        }
    }
}

} // verus!
