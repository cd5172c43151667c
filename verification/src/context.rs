//! The per-verification context: the public seed and the hash state
//! primed with it, shared read-only by every tree-hash call.

use vstd::prelude::*;
use crate::params::SPX_N;
use crate::sm3::seeded_state_s;
use crate::utils::zeroes;

verus! {

/// Holds the public seed and the incremental hash state that has
/// already absorbed one padded block containing it.
pub struct SpxCtx {
    /// The public seed from the public key.
    pub pub_seed: Vec<u8>,
    /// The primed incremental hash state.
    pub state_seeded: Vec<u8>,
}

impl SpxCtx {
    /// A context is well formed once its state is exactly the primed
    /// state derived from its seed.
    pub open spec fn wf(&self) -> bool {
        self.pub_seed@.len() == SPX_N && self.state_seeded@ == seeded_state_s(self.pub_seed@)
    }
}

impl Default for SpxCtx {
    /// An all-zero context; the caller fills the seed and primes the
    /// state afterwards.
    fn default() -> (r: Self)
        ensures
            r.pub_seed@ == zeroes(SPX_N as int),
            r.state_seeded@ == zeroes(40),
    {
        let r = SpxCtx { pub_seed: vec![0u8; 16], state_seeded: vec![0u8; 40] };
        proof {
            assert(r.pub_seed@ =~= zeroes(SPX_N as int));
            assert(r.state_seeded@ =~= zeroes(40));
        }
        r
    }
}

} // verus!
