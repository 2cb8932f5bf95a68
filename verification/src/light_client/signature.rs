//! The signature scheme that validators sign with, as the light client
//! consumes it.

use crate::light_client::types::{PublicKey, Signature};
use vstd::prelude::*;

verus! {

/// Verifies signatures. The light client does not look inside the scheme: it
/// only asks whether a signature over a message verifies under a key.
pub trait SignatureVerifier {
    /// The signatures that the scheme accepts.
    spec fn accepts(&self, pubkey: PublicKey, msg: Seq<u8>, signature: Signature) -> bool;

    /// Tells whether `signature` is a signature of `msg` under `pubkey`.
    fn verify(&self, pubkey: &PublicKey, msg: &[u8], signature: &Signature) -> (ok: bool)
        ensures
            ok == self.accepts(*pubkey, msg@, *signature),
    ;
}

} // verus!
