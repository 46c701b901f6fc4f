//! The relying party's configuration, read by the core but never changed by it.

use vstd::prelude::*;

verus! {

/// What a sign-in challenge says about the relying party, how long it lives,
/// and which direction of the identity mapping may be disclosed.
#[derive(Debug, Clone)]
pub struct Settings {
    /// The RFC 4501 authority that asks for the signature.
    pub domain: String,
    /// Human-readable purpose text shown to the wallet holder.
    pub statement: String,
    /// The RFC 3986 URI of the resource that the sign-in is for.
    pub uri: String,
    /// The chain the session is bound to.
    pub chain_id: String,
    /// How long a challenge stays valid, in nanoseconds.
    pub sign_in_expires_in: u64,
    /// Refuse every principal-to-key lookup.
    pub disable_principal_to_sol_mapping: bool,
    /// Refuse every key-to-principal lookup.
    pub disable_sol_to_principal_mapping: bool,
}

} // verus!
