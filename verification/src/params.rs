//! Parameter set of the scheme: SPHINCS+-SM3-128f.
//!
//! Every buffer length in the crate is derived from these constants;
//! they form the contract between the verifier and any signer that
//! produced a signature.

use vstd::prelude::*;

verus! {

/// Hash output size used throughout the scheme, in bytes.
pub const SPX_N: usize = 16;

/// Total height of the hypertree.
pub const SPX_FULL_HEIGHT: usize = 66;

/// Number of hypertree layers.
pub const SPX_D: usize = 22;

/// Height of each subtree: `SPX_FULL_HEIGHT / SPX_D`.
pub const SPX_TREE_HEIGHT: usize = 3;

/// Height of each FORS tree.
pub const SPX_FORS_HEIGHT: usize = 6;

/// Number of FORS trees.
pub const SPX_FORS_TREES: usize = 33;

/// Winternitz parameter.
pub const SPX_WOTS_W: usize = 16;

/// Bits per Winternitz digit: log2 of `SPX_WOTS_W`.
pub const SPX_WOTS_LOGW: usize = 4;

/// Number of message digits in a WOTS+ signature: `8 * SPX_N / SPX_WOTS_LOGW`.
pub const SPX_WOTS_LEN1: usize = 32;

/// Number of checksum digits in a WOTS+ signature.
pub const SPX_WOTS_LEN2: usize = 3;

/// Total number of WOTS+ chains: `SPX_WOTS_LEN1 + SPX_WOTS_LEN2`.
pub const SPX_WOTS_LEN: usize = 35;

/// Byte length of a WOTS+ signature: `SPX_WOTS_LEN * SPX_N`.
pub const SPX_WOTS_BYTES: usize = 560;

/// Byte length of the FORS message digest:
/// `ceil(SPX_FORS_TREES * SPX_FORS_HEIGHT / 8)`.
pub const SPX_FORS_MSG_BYTES: usize = 25;

/// Byte length of a FORS signature:
/// `SPX_FORS_TREES * (1 + SPX_FORS_HEIGHT) * SPX_N`.
pub const SPX_FORS_BYTES: usize = 3696;

/// Bits of the hypertree index: `(SPX_D - 1) * SPX_TREE_HEIGHT`.
pub const SPX_TREE_BITS: usize = 63;

/// Bytes holding the hypertree index in the expanded digest.
pub const SPX_TREE_BYTES: usize = 8;

/// Bits of the leaf index within the bottom subtree.
pub const SPX_LEAF_BITS: usize = 3;

/// Bytes holding the leaf index in the expanded digest.
pub const SPX_LEAF_BYTES: usize = 1;

/// Total bytes drawn from the mask expansion of the message digest:
/// `SPX_FORS_MSG_BYTES + SPX_TREE_BYTES + SPX_LEAF_BYTES`.
pub const SPX_DGST_BYTES: usize = 34;

/// Byte length of a complete signature:
/// `SPX_N + SPX_FORS_BYTES + SPX_D * (SPX_WOTS_BYTES + SPX_TREE_HEIGHT * SPX_N)`.
pub const SPX_BYTES: usize = 17088;

/// Byte length of a public key: seed plus root.
pub const SPX_PK_BYTES: usize = 32;

/// Public key bytes as presented at the outer interface.
pub const CRYPTO_PUBLICKEYBYTES: usize = 32;

/// Secret key bytes as presented at the outer interface (unused by
/// verification; kept so a keypair can be carried whole).
pub const CRYPTO_SECRETKEYBYTES: usize = 64;

/// Signature bytes as presented at the outer interface.
pub const CRYPTO_BYTES: usize = 17088;

/// Address type tag: a WOTS+ chain hash.
pub const SPX_ADDR_TYPE_WOTS: u32 = 0;

/// Address type tag: compression of a WOTS+ public key.
pub const SPX_ADDR_TYPE_WOTSPK: u32 = 1;

/// Address type tag: a hash inside a hypertree subtree.
pub const SPX_ADDR_TYPE_HASHTREE: u32 = 2;

/// Address type tag: a hash inside a FORS tree.
pub const SPX_ADDR_TYPE_FORSTREE: u32 = 3;

/// Address type tag: compression of the FORS roots.
pub const SPX_ADDR_TYPE_FORSPK: u32 = 4;

/// SM3 processes 64-byte blocks.
pub const SPX_SM3_BLOCK_BYTES: usize = 64;

/// SM3 produces 32-byte digests.
pub const SPX_SM3_OUTPUT_BYTES: usize = 32;

/// Serialized length of a hash address.
pub const SPX_SM3_ADDR_BYTES: usize = 22;

} // verus!
