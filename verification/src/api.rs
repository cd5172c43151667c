//! The outward interface: error kind, keypair carrier, and the two
//! verification entry points.

use vstd::prelude::*;
use crate::params::CRYPTO_PUBLICKEYBYTES;
use crate::params::SPX_BYTES;
use crate::params::SPX_PK_BYTES;
use crate::sign::crypto_sign_verify;
use crate::sign::spx_verify;

verus! {

/// A public/secret key pair as handed in by a caller.  Verification
/// uses only the public half.
pub struct Keypair {
    /// Public key: seed followed by root.
    pub public: Vec<u8>,
    /// Secret key; carried but never read by verification.
    pub secret: Vec<u8>,
}

/// The two ways verification can fail: a malformed input, or a
/// well-formed signature whose recomputed root does not match.
#[derive(Clone, Copy, Debug, PartialEq, Eq, Structural)]
pub enum SigError {
    /// The signature does not have the fixed parameter-set length.
    Input,
    /// The recomputed root differs from the public key's root.
    Verify,
}

/// Verifies `sig` over `msg` under the public half of `keypair`.
pub fn verify(sig: &[u8], msg: &[u8], keypair: &Keypair) -> (r: Result<(), SigError>)
    requires
        keypair.public@.len() == CRYPTO_PUBLICKEYBYTES,
        msg@.len() + 48 <= u64::MAX,
    ensures
        r is Ok <==> spx_verify(sig@, msg@, keypair.public@),
        sig@.len() != SPX_BYTES ==> r == Err::<(), SigError>(SigError::Input),
        sig@.len() == SPX_BYTES && !spx_verify(sig@, msg@, keypair.public@) ==> r == Err::<
            (),
            SigError,
        >(SigError::Verify),
{
    crypto_sign_verify(sig, msg, keypair.public.as_slice())
}

/// Verifies `sig` over `msg` under a bare public key.
pub fn vrfy(sig: &[u8], msg: &[u8], pk: &[u8]) -> (r: Result<(), SigError>)
    requires
        pk@.len() == SPX_PK_BYTES,
        msg@.len() + 48 <= u64::MAX,
    ensures
        r is Ok <==> spx_verify(sig@, msg@, pk@),
        sig@.len() != SPX_BYTES ==> r == Err::<(), SigError>(SigError::Input),
        sig@.len() == SPX_BYTES && !spx_verify(sig@, msg@, pk@) ==> r == Err::<(), SigError>(
            SigError::Verify,
        ),
{
    crypto_sign_verify(sig, msg, pk)
}

} // verus!
