//! The challenge store: challenges keyed by a hash of the claimed key and the
//! nonce, read once, removed on use, and pruned when they expire.

use crate::message::{expired_at, SiwsMessage, SiwsMessageView};
use crate::pubkey::SolPubkey;
use vstd::prelude::*;
use vstd::string::StringSliceAdditionalSpecFns;

verus! {

/// The hash that `ic_certified_map::leaf_hash` gives for some bytes.
pub uninterp spec fn leaf_hash_of(data: Seq<u8>) -> Seq<u8>;

/// Relies on `ic_certified_map::leaf_hash`: a domain-separated SHA-256 of the
/// bytes, a function of them alone.
#[verifier::external_body]
fn leaf_hash(data: &[u8]) -> (r: [u8; 32])
    ensures
        r@ == leaf_hash_of(data@),
{
    ic_certified_map::leaf_hash(data)
}

/// The bytes that are hashed into a store key: each part preceded by its
/// length as one byte.
pub open spec fn map_key_preimage(key: Seq<u8>, nonce: Seq<u8>) -> Seq<u8> {
    seq![(key.len() % 256) as u8] + key + seq![(nonce.len() % 256) as u8] + nonce
}

/// The store key of a challenge for `key` and `nonce`.
pub open spec fn map_key(key: Seq<u8>, nonce: Seq<u8>) -> Seq<u8> {
    leaf_hash_of(map_key_preimage(key, nonce))
}

/// Appends the bytes of `b` to `v`.
fn append_bytes(v: &mut Vec<u8>, b: &[u8])
    ensures
        final(v)@ == old(v)@ + b@,
{
    let mut i: usize = 0;
    while i < b.len()
        invariant
            i <= b@.len(),
            v@ == old(v)@ + b@.subrange(0, i as int),
        decreases b@.len() - i,
    {
        v.push(b[i]);
        i = i + 1;
    }
    assert(b@.subrange(0, b@.len() as int) =~= b@);
}

/// The store key of a challenge for `pubkey` and `nonce`: a hash of both, so
/// that each nonce gets its own entry.
pub fn siws_message_map_hash(pubkey: &SolPubkey, nonce: &str) -> (r: [u8; 32])
    ensures
        r@ == map_key(pubkey.spec_bytes(), nonce.spec_bytes()),
{
    let key = pubkey.to_bytes();
    let nonce_bytes = nonce.as_bytes();
    let mut bytes: Vec<u8> = Vec::new();
    bytes.push((key.len() % 256) as u8);
    append_bytes(&mut bytes, key.as_slice());
    bytes.push((nonce_bytes.len() % 256) as u8);
    append_bytes(&mut bytes, nonce_bytes);
    assert(bytes@ =~= map_key_preimage(pubkey.spec_bytes(), nonce.spec_bytes()));
    leaf_hash(bytes.as_slice())
}

/// Why a challenge could not be read.
#[derive(Debug, Clone, Copy, PartialEq, Eq, Structural)]
pub enum SiwsMessageError {
    /// No challenge is stored for the key and nonce.
    MessageNotFound,
}

impl SiwsMessageError {
    /// The error as text.
    pub fn message(&self) -> (r: &'static str) {
        match self {
            SiwsMessageError::MessageNotFound => "Message not found",
        }
    }
}

/// The entries of `m` that are still alive at `now`: those whose expiration
/// time is later than `now`.
pub open spec fn unexpired(
    m: Map<Seq<u8>, SiwsMessageView>,
    now: u64,
) -> Map<Seq<u8>, SiwsMessageView> {
    m.restrict(Set::new(|k: Seq<u8>| m.contains_key(k) && m[k].expiration_time > now))
}

/// Compares two 32-byte arrays.
fn same_key(a: &[u8; 32], b: &[u8; 32]) -> (r: bool)
    ensures
        r == (a@ == b@),
{
    let mut i: usize = 0;
    while i < 32
        invariant
            i <= 32,
            a@.len() == 32,
            b@.len() == 32,
            forall|j: int| 0 <= j < i ==> a@[j] == b@[j],
        decreases 32 - i,
    {
        if a[i] != b[i] {
            return false;
        }
        i = i + 1;
    }
    assert(a@ =~= b@);
    true
}

/// The challenges that are waiting to be signed, keyed by
/// [`siws_message_map_hash`].
pub struct SiwsMessageMap {
    entries: Vec<([u8; 32], SiwsMessage)>,
    model: Ghost<Map<Seq<u8>, SiwsMessageView>>,
}

impl View for SiwsMessageMap {
    type V = Map<Seq<u8>, SiwsMessageView>;

    closed spec fn view(&self) -> Map<Seq<u8>, SiwsMessageView> {
        self.model@
    }
}

impl SiwsMessageMap {
    /// Each store key appears once, and the entries are exactly the map.
    pub closed spec fn wf(&self) -> bool {
        &&& forall|i: int, j: int|
            0 <= i < j < self.entries@.len() ==> self.entries@[i].0@ != self.entries@[j].0@
        &&& forall|i: int|
            0 <= i < self.entries@.len() ==> #[trigger] self.model@.contains_key(
                self.entries@[i].0@,
            ) && self.model@[self.entries@[i].0@] == self.entries@[i].1@
        &&& forall|k: Seq<u8>|
            #[trigger] self.model@.contains_key(k) ==> exists|i: int|
                0 <= i < self.entries@.len() && self.entries@[i].0@ == k
    }

    /// An empty store.
    pub fn new() -> (r: SiwsMessageMap)
        ensures
            r.wf(),
            r@ == Map::<Seq<u8>, SiwsMessageView>::empty(),
    {
        SiwsMessageMap { entries: Vec::new(), model: Ghost(Map::empty()) }
    }

    /// Where the entry with store key `key` stands, if any.
    fn find(&self, key: &[u8; 32]) -> (r: Option<usize>)
        requires
            self.wf(),
        ensures
            match r {
                Some(i) => i < self.entries@.len() && self.entries@[i as int].0@ == key@,
                None => !self@.contains_key(key@),
            },
    {
        let mut i: usize = 0;
        while i < self.entries.len()
            invariant
                i <= self.entries@.len(),
                forall|j: int| 0 <= j < i ==> self.entries@[j].0@ != key@,
            decreases self.entries@.len() - i,
        {
            if same_key(&self.entries[i].0, key) {
                return Some(i);
            }
            i = i + 1;
        }
        None
    }

    /// Removes every challenge whose expiration time is not later than `now`.
    pub fn prune_expired(&mut self, now: u64)
        requires
            old(self).wf(),
        ensures
            final(self).wf(),
            final(self)@ == unexpired(old(self)@, now),
    {
        let ghost old_entries = self.entries@;
        let ghost target = unexpired(self.model@, now);
        let mut kept: Vec<([u8; 32], SiwsMessage)> = Vec::new();
        let ghost mut from: Seq<int> = Seq::empty();
        let mut i: usize = 0;
        while i < self.entries.len()
            invariant
                self.wf(),
                self.entries@ == old_entries,
                target == unexpired(self.model@, now),
                i <= old_entries.len(),
                from.len() == kept@.len(),
                forall|a: int, b: int| 0 <= a < b < from.len() ==> from[a] < from[b],
                forall|a: int|
                    0 <= a < from.len() ==> 0 <= #[trigger] from[a] < i && kept@[a].0@
                        == old_entries[from[a]].0@ && kept@[a].1@ == old_entries[from[a]].1@
                        && old_entries[from[a]].1@.expiration_time > now,
                forall|j: int|
                    0 <= j < i && old_entries[j].1@.expiration_time > now ==> exists|a: int|
                        0 <= a < from.len() && from[a] == j,
            decreases old_entries.len() - i,
        {
            let ghost prev = from;
            if self.entries[i].1.expiration_time > now {
                let message = self.entries[i].1.duplicate();
                kept.push((self.entries[i].0, message));
                proof {
                    from = from.push(i as int);
                }
            }
            proof {
                assert forall|j: int|
                    0 <= j < i + 1 && old_entries[j].1@.expiration_time > now implies exists|a: int|
                    0 <= a < from.len() && from[a] == j by {
                    if j == i {
                        assert(from[prev.len() as int] == j);
                    } else {
                        let a = choose|a: int| 0 <= a < prev.len() && prev[a] == j;
                        assert(from[a] == j);
                    }
                }
            }
            i = i + 1;
        }
        proof {
            assert forall|a: int, b: int| 0 <= a < b < kept@.len() implies kept@[a].0@
                != kept@[b].0@ by {
                assert(from[a] < from[b]);
            }
            assert forall|a: int| 0 <= a < kept@.len() implies #[trigger] target.contains_key(
                kept@[a].0@,
            ) && target[kept@[a].0@] == kept@[a].1@ by {
                assert(self.model@.contains_key(old_entries[from[a]].0@));
            }
            assert forall|k: Seq<u8>| #[trigger] target.contains_key(k) implies exists|a: int|
                0 <= a < kept@.len() && kept@[a].0@ == k by {
                let j = choose|j: int| 0 <= j < old_entries.len() && old_entries[j].0@ == k;
                assert(self.model@.contains_key(old_entries[j].0@));
                let a = choose|a: int| 0 <= a < from.len() && from[a] == j;
                assert(kept@[a].0@ == k);
            }
        }
        self.entries = kept;
        self.model = Ghost(target);
        assert(self.wf());
    }

    /// Stores `message` as the challenge for `pubkey` and `nonce`, replacing
    /// any earlier one for the same pair.
    pub fn insert(&mut self, pubkey: &SolPubkey, message: SiwsMessage, nonce: &str)
        requires
            old(self).wf(),
        ensures
            final(self).wf(),
            final(self)@ == old(self)@.insert(
                map_key(pubkey.spec_bytes(), nonce.spec_bytes()),
                message@,
            ),
    {
        let hash = siws_message_map_hash(pubkey, nonce);
        let ghost v = message@;
        let ghost before = self.entries@;
        let ghost m = self.model@.insert(hash@, v);
        let ghost at: int;
        match self.find(&hash) {
            Some(i) => {
                self.entries.set(i, (hash, message));
                proof {
                    at = i as int;
                }
            },
            None => {
                self.entries.push((hash, message));
                proof {
                    at = before.len() as int;
                }
            },
        }
        proof {
            assert(self.entries@[at].0@ == hash@);
            assert forall|x: int, y: int|
                0 <= x < y < self.entries@.len() implies self.entries@[x].0@
                != self.entries@[y].0@ by {
                if x != at && y != at {
                    assert(before[x].0@ != before[y].0@);
                } else if x == at && at < before.len() {
                    assert(before[x].0@ != before[y].0@);
                } else if y == at && at < before.len() {
                    assert(before[x].0@ != before[y].0@);
                } else {
                    assert(self.model@.contains_key(before[x].0@));
                }
            }
            assert forall|n: int| 0 <= n < self.entries@.len() implies #[trigger] m.contains_key(
                self.entries@[n].0@,
            ) && m[self.entries@[n].0@] == self.entries@[n].1@ by {
                if n != at {
                    assert(self.model@.contains_key(before[n].0@));
                }
            }
            assert forall|k: Seq<u8>| #[trigger] m.contains_key(k) implies exists|n: int|
                0 <= n < self.entries@.len() && self.entries@[n].0@ == k by {
                if k != hash@ {
                    let j = choose|j: int| 0 <= j < before.len() && before[j].0@ == k;
                    assert(self.entries@[j].0@ == k);
                } else {
                    assert(self.entries@[at].0@ == k);
                }
            }
        }
        self.model = Ghost(m);
        assert(self.wf());
    }

    /// A copy of the challenge for `pubkey` and `nonce`; the store is not changed.
    pub fn get(&self, pubkey: &SolPubkey, nonce: &str) -> (r: Result<SiwsMessage, SiwsMessageError>)
        requires
            self.wf(),
        ensures
            match self@.get(map_key(pubkey.spec_bytes(), nonce.spec_bytes())) {
                Some(m) => r matches Ok(c) && c@ == m,
                None => r == Err::<SiwsMessage, SiwsMessageError>(
                    SiwsMessageError::MessageNotFound,
                ),
            },
    {
        let hash = siws_message_map_hash(pubkey, nonce);
        match self.find(&hash) {
            Some(i) => Ok(self.entries[i].1.duplicate()),
            None => Err(SiwsMessageError::MessageNotFound),
        }
    }

    /// Removes the challenge for `pubkey` and `nonce`; nothing happens when
    /// there is none.
    pub fn remove(&mut self, pubkey: &SolPubkey, nonce: &str)
        requires
            old(self).wf(),
        ensures
            final(self).wf(),
            final(self)@ == old(self)@.remove(map_key(pubkey.spec_bytes(), nonce.spec_bytes())),
    {
        let hash = siws_message_map_hash(pubkey, nonce);
        match self.find(&hash) {
            Some(i) => {
                let ghost before = self.entries@;
                self.entries.remove(i);
                proof {
                    assert forall|k: Seq<u8>| #[trigger]
                        self.model@.remove(hash@).contains_key(k) implies exists|n: int|
                        0 <= n < self.entries@.len() && self.entries@[n].0@ == k by {
                        let j = choose|j: int| 0 <= j < before.len() && before[j].0@ == k;
                        if j < i {
                            assert(self.entries@[j].0@ == k);
                        } else {
                            assert(self.entries@[j - 1].0@ == k);
                        }
                    }
                    assert forall|x: int, y: int|
                        0 <= x < y < self.entries@.len() implies self.entries@[x].0@
                        != self.entries@[y].0@ by {
                        let x0 = if x < i { x } else { x + 1 };
                        let y0 = if y < i { y } else { y + 1 };
                        assert(before[x0].0@ != before[y0].0@);
                    }
                    assert forall|n: int| 0 <= n < self.entries@.len() implies
                        #[trigger] self.model@.remove(hash@).contains_key(self.entries@[n].0@)
                        && self.model@.remove(hash@)[self.entries@[n].0@]
                        == self.entries@[n].1@ by {
                        let n0 = if n < i { n } else { n + 1 };
                        assert(self.model@.contains_key(before[n0].0@));
                        assert(before[n0].0@ != before[i as int].0@);
                    }
                }
            },
            None => {
                assert(self.model@.remove(hash@) =~= self.model@);
            },
        }
        self.model = Ghost(self.model@.remove(hash@));
        assert(self.wf());
    }
}

impl Default for SiwsMessageMap {
    fn default() -> (r: SiwsMessageMap)
        ensures
            r.wf(),
            r@ == Map::<Seq<u8>, SiwsMessageView>::empty(),
    {
        SiwsMessageMap::new()
    }
}

/// The store key is a function of the key and nonce bytes: computing it again
/// from the same bytes gives the same key.
pub proof fn lemma_map_key_deterministic(k1: Seq<u8>, n1: Seq<u8>, k2: Seq<u8>, n2: Seq<u8>)
    requires
        k1 == k2,
        n1 == n2,
    ensures
        map_key(k1, n1) == map_key(k2, n2),
{
}

/// For one key, two different nonces give two different hashed byte strings,
/// so the store keys can only meet through a collision of the hash.
pub proof fn lemma_preimage_distinct_nonces(key: Seq<u8>, n1: Seq<u8>, n2: Seq<u8>)
    requires
        n1 != n2,
    ensures
        map_key_preimage(key, n1) != map_key_preimage(key, n2),
{
    let a = map_key_preimage(key, n1);
    let b = map_key_preimage(key, n2);
    if a == b {
        let off = key.len() + 2;
        assert(a.len() == off + n1.len());
        assert(b.len() == off + n2.len());
        assert(n1.len() == n2.len());
        assert forall|i: int| 0 <= i < n1.len() implies n1[i] == n2[i] by {
            assert(a[off + i] == n1[i]);
            assert(b[off + i] == n2[i]);
        }
        assert(n1 =~= n2);
    }
}

/// Challenges for one key under two different nonces live side by side:
/// storing both keeps both, and removing either leaves the other as it was.
/// The store keys differ whenever the hash does not collide on the two
/// (always different) byte strings it is given.
pub proof fn lemma_nonce_isolation(
    m: Map<Seq<u8>, SiwsMessageView>,
    key: Seq<u8>,
    n1: Seq<u8>,
    n2: Seq<u8>,
    c1: SiwsMessageView,
    c2: SiwsMessageView,
)
    requires
        n1 != n2,
    ensures
        map_key_preimage(key, n1) != map_key_preimage(key, n2),
        map_key(key, n1) != map_key(key, n2) ==> {
            let both = m.insert(map_key(key, n1), c1).insert(map_key(key, n2), c2);
            &&& both[map_key(key, n1)] == c1
            &&& both[map_key(key, n2)] == c2
            &&& both.remove(map_key(key, n1)).contains_key(map_key(key, n2))
            &&& both.remove(map_key(key, n1))[map_key(key, n2)] == c2
            &&& !both.remove(map_key(key, n1)).contains_key(map_key(key, n1))
            &&& both.remove(map_key(key, n2)).contains_key(map_key(key, n1))
            &&& both.remove(map_key(key, n2))[map_key(key, n1)] == c1
            &&& !both.remove(map_key(key, n2)).contains_key(map_key(key, n2))
        },
{
    lemma_preimage_distinct_nonces(key, n1, n2);
}

/// A challenge issued at `t0` with time to live `ttl` is valid from `t0`
/// through `t0 + ttl` and expired after it; pruning one nanosecond after
/// `t0 + ttl` removes it, and pruning at any time before `t0 + ttl` keeps it.
pub proof fn lemma_expiration_window(
    m: Map<Seq<u8>, SiwsMessageView>,
    h: Seq<u8>,
    c: SiwsMessageView,
    t0: u64,
    ttl: u64,
    now: u64,
)
    requires
        c.issued_at == t0,
        c.expiration_time == t0 + ttl,
    ensures
        t0 <= now <= t0 + ttl ==> !expired_at(c.issued_at, c.expiration_time, now),
        now > t0 + ttl ==> expired_at(c.issued_at, c.expiration_time, now),
        now == t0 + ttl + 1 ==> !unexpired(m.insert(h, c), now).contains_key(h),
        now < t0 + ttl ==> unexpired(m.insert(h, c), now).contains_key(h),
{
    let mm = m.insert(h, c);
    let alive = Set::new(|k: Seq<u8>| mm.contains_key(k) && mm[k].expiration_time > now);
    if now < t0 + ttl {
        assert(alive.contains(h));
    }
}

} // verus!
