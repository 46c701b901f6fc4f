//! The two-way binding between host principals and wallet keys, kept in two
//! stable B-tree maps that are always written together.

use crate::pubkey::{base58_text, key_of_text, to_array, PrincipalId, SolPubkey, PRINCIPAL_LEN, PUBKEY_LEN};
use crate::settings::Settings;
use ic_stable_structures::storable::Blob;
use ic_stable_structures::{StableBTreeMap, VectorMemory};
use vstd::prelude::*;

verus! {

/// A stable B-tree map from 29-byte principals to 32-byte keys.
#[verifier::external_body]
pub struct PrincipalKeyMap {
    map: StableBTreeMap<Blob<29>, Blob<32>, VectorMemory>,
}

/// A stable B-tree map from 32-byte keys to 29-byte principals.
#[verifier::external_body]
pub struct KeyPrincipalMap {
    map: StableBTreeMap<Blob<32>, Blob<29>, VectorMemory>,
}

/// What a principal-to-key map holds, as bytes to bytes.
pub uninterp spec fn principal_key_contents(m: PrincipalKeyMap) -> Map<Seq<u8>, Seq<u8>>;

/// What a key-to-principal map holds, as bytes to bytes.
pub uninterp spec fn key_principal_contents(m: KeyPrincipalMap) -> Map<Seq<u8>, Seq<u8>>;

/// Relies on `StableBTreeMap::init`: on a fresh, empty memory it makes an
/// empty map.
#[verifier::external_body]
fn principal_key_map_new() -> (r: PrincipalKeyMap)
    ensures
        principal_key_contents(r).dom() == Set::<Seq<u8>>::empty(),
{
    PrincipalKeyMap { map: StableBTreeMap::init(VectorMemory::default()) }
}

/// Relies on `StableBTreeMap::get`: the value stored under the key, if any.
#[verifier::external_body]
fn principal_key_map_get(m: &PrincipalKeyMap, p: &[u8; 29]) -> (r: Option<Vec<u8>>)
    ensures
        r matches Some(v) ==> principal_key_contents(*m).get(p@) == Some(v@),
        r is None ==> !principal_key_contents(*m).contains_key(p@),
{
    m.map.get(&Blob::try_from(&p[..]).unwrap()).map(|b| b.as_slice().to_vec())
}

/// Relies on `StableBTreeMap::insert`: stores the value under the key,
/// replacing an earlier one; both are within the blobs' bounds.
#[verifier::external_body]
fn principal_key_map_insert(m: &mut PrincipalKeyMap, p: &[u8; 29], k: &[u8; 32])
    ensures
        principal_key_contents(*final(m)) == principal_key_contents(*old(m)).insert(p@, k@),
{
    m.map.insert(Blob::try_from(&p[..]).unwrap(), Blob::try_from(&k[..]).unwrap());
}

/// Relies on `StableBTreeMap::remove`: drops the key and its value, if present.
#[verifier::external_body]
fn principal_key_map_remove(m: &mut PrincipalKeyMap, p: &[u8]) -> (r: Option<Vec<u8>>)
    requires
        p@.len() == 29,
    ensures
        principal_key_contents(*final(m)) == principal_key_contents(*old(m)).remove(p@),
{
    m.map.remove(&Blob::try_from(p).unwrap()).map(|b| b.as_slice().to_vec())
}

/// Relies on `StableBTreeMap::init`: on a fresh, empty memory it makes an
/// empty map.
#[verifier::external_body]
fn key_principal_map_new() -> (r: KeyPrincipalMap)
    ensures
        key_principal_contents(r).dom() == Set::<Seq<u8>>::empty(),
{
    KeyPrincipalMap { map: StableBTreeMap::init(VectorMemory::default()) }
}

/// Relies on `StableBTreeMap::get`: the value stored under the key, if any.
#[verifier::external_body]
fn key_principal_map_get(m: &KeyPrincipalMap, k: &[u8; 32]) -> (r: Option<Vec<u8>>)
    ensures
        r matches Some(v) ==> key_principal_contents(*m).get(k@) == Some(v@),
        r is None ==> !key_principal_contents(*m).contains_key(k@),
{
    m.map.get(&Blob::try_from(&k[..]).unwrap()).map(|b| b.as_slice().to_vec())
}

/// Relies on `StableBTreeMap::insert`: stores the value under the key,
/// replacing an earlier one; both are within the blobs' bounds.
#[verifier::external_body]
fn key_principal_map_insert(m: &mut KeyPrincipalMap, k: &[u8; 32], p: &[u8; 29])
    ensures
        key_principal_contents(*final(m)) == key_principal_contents(*old(m)).insert(k@, p@),
{
    m.map.insert(Blob::try_from(&k[..]).unwrap(), Blob::try_from(&p[..]).unwrap());
}

/// Relies on `StableBTreeMap::remove`: drops the key and its value, if present.
#[verifier::external_body]
fn key_principal_map_remove(m: &mut KeyPrincipalMap, k: &[u8]) -> (r: Option<Vec<u8>>)
    requires
        k@.len() == 32,
    ensures
        key_principal_contents(*final(m)) == key_principal_contents(*old(m)).remove(k@),
{
    m.map.remove(&Blob::try_from(k).unwrap()).map(|b| b.as_slice().to_vec())
}

/// Both directions of the binding, as plain maps.
pub struct MappingView {
    pub principal_to_key: Map<Seq<u8>, Seq<u8>>,
    pub key_to_principal: Map<Seq<u8>, Seq<u8>>,
}

/// Every pair appears in both directions, and every identifier has its width.
pub open spec fn bijective(v: MappingView) -> bool {
    &&& forall|p: Seq<u8>| #[trigger]
        v.principal_to_key.contains_key(p) ==> p.len() == PRINCIPAL_LEN && v.principal_to_key[p].len()
            == PUBKEY_LEN && v.key_to_principal.contains_key(v.principal_to_key[p])
            && v.key_to_principal[v.principal_to_key[p]] == p
    &&& forall|k: Seq<u8>| #[trigger]
        v.key_to_principal.contains_key(k) ==> k.len() == PUBKEY_LEN && v.key_to_principal[k].len()
            == PRINCIPAL_LEN && v.principal_to_key.contains_key(v.key_to_principal[k])
            && v.principal_to_key[v.key_to_principal[k]] == k
}

/// The binding after `p` and `k` are bound to each other: whatever either was
/// bound to before is released.
pub open spec fn bind_view(v: MappingView, p: Seq<u8>, k: Seq<u8>) -> MappingView {
    let p2k = if v.key_to_principal.contains_key(k) {
        v.principal_to_key.remove(v.key_to_principal[k])
    } else {
        v.principal_to_key
    };
    let k2p = if v.principal_to_key.contains_key(p) {
        v.key_to_principal.remove(v.principal_to_key[p])
    } else {
        v.key_to_principal
    };
    MappingView { principal_to_key: p2k.insert(p, k), key_to_principal: k2p.insert(k, p) }
}

/// Why a lookup in the identity mapping failed.
#[derive(Debug, Clone, Copy, PartialEq, Eq, Structural)]
pub enum MappingError {
    /// Lookups in this direction are switched off.
    MappingDisabled,
    /// The principal is not exactly 29 bytes.
    InvalidPrincipalEncoding,
    /// The key text is not base-58 of exactly 32 bytes.
    InvalidKeyEncoding,
    /// Nothing is bound to the identifier.
    NotFound,
}

impl MappingError {
    /// The error as text.
    pub fn message(&self) -> (r: &'static str) {
        match self {
            MappingError::MappingDisabled => "Mapping is disabled",
            MappingError::InvalidPrincipalEncoding => "Principal must be 29 bytes",
            MappingError::InvalidKeyEncoding => "Invalid Solana public key",
            MappingError::NotFound => "No mapping found",
        }
    }
}

/// What a principal-to-key lookup returns: the key's bytes, or why not.
pub open spec fn key_lookup(v: MappingView, disabled: bool, principal: Seq<u8>) -> Result<
    Seq<u8>,
    MappingError,
> {
    if disabled {
        Err(MappingError::MappingDisabled)
    } else if principal.len() != PRINCIPAL_LEN {
        Err(MappingError::InvalidPrincipalEncoding)
    } else if !v.principal_to_key.contains_key(principal) {
        Err(MappingError::NotFound)
    } else {
        Ok(v.principal_to_key[principal])
    }
}

/// What a key-to-principal lookup returns: the principal's bytes, or why not.
pub open spec fn principal_lookup(v: MappingView, disabled: bool, key_text: Seq<char>) -> Result<
    Seq<u8>,
    MappingError,
> {
    if disabled {
        Err(MappingError::MappingDisabled)
    } else {
        match key_of_text(key_text) {
            None => Err(MappingError::InvalidKeyEncoding),
            Some(k) => if v.key_to_principal.contains_key(k) {
                Ok(v.key_to_principal[k])
            } else {
                Err(MappingError::NotFound)
            },
        }
    }
}

/// The durable binding between principals and wallet keys.
pub struct IdentityMapping {
    principal_to_key: PrincipalKeyMap,
    key_to_principal: KeyPrincipalMap,
}

impl View for IdentityMapping {
    type V = MappingView;

    closed spec fn view(&self) -> MappingView {
        MappingView {
            principal_to_key: principal_key_contents(self.principal_to_key),
            key_to_principal: key_principal_contents(self.key_to_principal),
        }
    }
}

impl IdentityMapping {
    /// The well-formedness of the binding.
    pub open spec fn wf(&self) -> bool {
        bijective(self@)
    }

    /// An empty binding.
    pub fn new() -> (r: IdentityMapping)
        ensures
            r.wf(),
            r@.principal_to_key == Map::<Seq<u8>, Seq<u8>>::empty(),
            r@.key_to_principal == Map::<Seq<u8>, Seq<u8>>::empty(),
    {
        let r = IdentityMapping {
            principal_to_key: principal_key_map_new(),
            key_to_principal: key_principal_map_new(),
        };
        assert(r@.principal_to_key =~= Map::<Seq<u8>, Seq<u8>>::empty());
        assert(r@.key_to_principal =~= Map::<Seq<u8>, Seq<u8>>::empty());
        r
    }

    /// Binds `principal` and `key` to each other in both directions; a
    /// binding either had before is released, so neither direction is ever
    /// left without its partner.
    pub fn bind(&mut self, principal: &PrincipalId, key: &SolPubkey)
        requires
            old(self).wf(),
        ensures
            final(self).wf(),
            final(self)@ == bind_view(old(self)@, principal.spec_bytes(), key.spec_bytes()),
    {
        let p = principal.to_bytes();
        let k = key.to_bytes();
        let pa: [u8; 29] = to_array(p.as_slice());
        let ka: [u8; 32] = to_array(k.as_slice());
        let ghost v = self@;
        match key_principal_map_get(&self.key_to_principal, &ka) {
            Some(old_p) => {
                assert(v.key_to_principal.contains_key(ka@));
                principal_key_map_remove(&mut self.principal_to_key, old_p.as_slice());
            },
            None => {},
        }
        match principal_key_map_get(&self.principal_to_key, &pa) {
            Some(old_k) => {
                assert(v.principal_to_key.contains_key(pa@));
                key_principal_map_remove(&mut self.key_to_principal, old_k.as_slice());
            },
            None => {},
        }
        principal_key_map_insert(&mut self.principal_to_key, &pa, &ka);
        key_principal_map_insert(&mut self.key_to_principal, &ka, &pa);
        proof {
            lemma_bind_keeps_bijection(v, p@, k@);
        }
        assert(self@.principal_to_key =~= bind_view(v, p@, k@).principal_to_key);
        assert(self@.key_to_principal =~= bind_view(v, p@, k@).key_to_principal);
    }

    /// The key's bytes bound to a 29-byte principal, if any.
    fn key_of(&self, principal: &[u8; 29]) -> (r: Option<SolPubkey>)
        requires
            self.wf(),
        ensures
            match r {
                Some(k) => self@.principal_to_key.get(principal@) == Some(k.spec_bytes()),
                None => !self@.principal_to_key.contains_key(principal@),
            },
    {
        match principal_key_map_get(&self.principal_to_key, principal) {
            Some(k) => match SolPubkey::try_from_slice(k.as_slice()) {
                Ok(key) => Some(key),
                Err(_) => None,
            },
            None => None,
        }
    }
}

/// Binding keeps both directions paired.
pub proof fn lemma_bind_keeps_bijection(v: MappingView, p: Seq<u8>, k: Seq<u8>)
    requires
        bijective(v),
        p.len() == PRINCIPAL_LEN,
        k.len() == PUBKEY_LEN,
    ensures
        bijective(bind_view(v, p, k)),
        bind_view(v, p, k).principal_to_key[p] == k,
        bind_view(v, p, k).key_to_principal[k] == p,
{
    let w = bind_view(v, p, k);
    assert forall|q: Seq<u8>| #[trigger] w.principal_to_key.contains_key(q) implies q.len()
        == PRINCIPAL_LEN && w.principal_to_key[q].len() == PUBKEY_LEN
        && w.key_to_principal.contains_key(w.principal_to_key[q]) && w.key_to_principal[w.principal_to_key[q]]
        == q by {
        if q != p {
            assert(v.principal_to_key.contains_key(q));
            let j = v.principal_to_key[q];
            assert(v.key_to_principal.contains_key(j));
        }
    }
    assert forall|j: Seq<u8>| #[trigger] w.key_to_principal.contains_key(j) implies j.len()
        == PUBKEY_LEN && w.key_to_principal[j].len() == PRINCIPAL_LEN
        && w.principal_to_key.contains_key(w.key_to_principal[j]) && w.principal_to_key[w.key_to_principal[j]]
        == j by {
        if j != k {
            assert(v.key_to_principal.contains_key(j));
            let q = v.key_to_principal[j];
            assert(v.principal_to_key.contains_key(q));
        }
    }
}

/// The key bound to a principal, as base-58 text: refused when this direction
/// is switched off (before anything else is looked at), when the principal is
/// not exactly 29 bytes, or when nothing is bound to it.
pub fn get_address(mapping: &IdentityMapping, settings: &Settings, principal: &[u8]) -> (r: Result<
    String,
    MappingError,
>)
    requires
        mapping.wf(),
    ensures
        match key_lookup(mapping@, settings.disable_principal_to_sol_mapping, principal@) {
            Ok(k) => r matches Ok(s) && s@ == base58_text(k),
            Err(e) => r == Err::<String, MappingError>(e),
        },
{
    if settings.disable_principal_to_sol_mapping {
        return Err(MappingError::MappingDisabled);
    }
    if principal.len() != PRINCIPAL_LEN {
        return Err(MappingError::InvalidPrincipalEncoding);
    }
    let p: [u8; 29] = to_array(principal);
    match mapping.key_of(&p) {
        Some(key) => Ok(key.to_string()),
        None => Err(MappingError::NotFound),
    }
}

/// The principal bound to a key given as base-58 text: refused when this
/// direction is switched off (before anything else is looked at), when the
/// text does not name a 32-byte key, or when nothing is bound to it.
pub fn get_principal(mapping: &IdentityMapping, settings: &Settings, key_text: &str) -> (r: Result<
    Vec<u8>,
    MappingError,
>)
    requires
        mapping.wf(),
    ensures
        match principal_lookup(mapping@, settings.disable_sol_to_principal_mapping, key_text@) {
            Ok(p) => r matches Ok(b) && b@ == p,
            Err(e) => r == Err::<Vec<u8>, MappingError>(e),
        },
{
    if settings.disable_sol_to_principal_mapping {
        return Err(MappingError::MappingDisabled);
    }
    let key = match SolPubkey::from_str(key_text) {
        Ok(key) => key,
        Err(_) => {
            return Err(MappingError::InvalidKeyEncoding);
        },
    };
    let k = key.to_bytes();
    let ka: [u8; 32] = to_array(k.as_slice());
    match key_principal_map_get(&mapping.key_to_principal, &ka) {
        Some(p) => Ok(p),
        None => Err(MappingError::NotFound),
    }
}

/// After `p` and `k` are bound, looking up either one gives the other, and
/// every pair is still present in both directions.
pub proof fn lemma_bind_round_trip(v: MappingView, p: Seq<u8>, k: Seq<u8>, key_text: Seq<char>)
    requires
        bijective(v),
        p.len() == PRINCIPAL_LEN,
        k.len() == PUBKEY_LEN,
        key_of_text(key_text) == Some(k),
    ensures
        bijective(bind_view(v, p, k)),
        key_lookup(bind_view(v, p, k), false, p) == Ok::<Seq<u8>, MappingError>(k),
        principal_lookup(bind_view(v, p, k), false, key_text) == Ok::<Seq<u8>, MappingError>(p),
{
    lemma_bind_keeps_bijection(v, p, k);
}

/// A switched-off direction refuses every lookup, bound or not; switched on
/// again, the same binding answers as before, with nothing bound anew.
pub proof fn lemma_policy_gating(v: MappingView, p: Seq<u8>, key_text: Seq<char>)
    ensures
        key_lookup(v, true, p) == Err::<Seq<u8>, MappingError>(MappingError::MappingDisabled),
        principal_lookup(v, true, key_text) == Err::<Seq<u8>, MappingError>(
            MappingError::MappingDisabled,
        ),
        p.len() == PRINCIPAL_LEN && v.principal_to_key.contains_key(p) ==> key_lookup(v, false, p)
            == Ok::<Seq<u8>, MappingError>(v.principal_to_key[p]),
        forall|k: Seq<u8>|
            key_of_text(key_text) == Some(k) && #[trigger] v.key_to_principal.contains_key(k)
                ==> principal_lookup(v, false, key_text) == Ok::<Seq<u8>, MappingError>(
                v.key_to_principal[k],
            ),
{
}

} // verus!
