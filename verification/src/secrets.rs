//! Shared-secret cache and key-exchange protocol.
//!
//! Exactly one shared secret exists per ordered `(local, remote)` pair,
//! however many messages are sent: the first send to a new peer
//! encapsulates against the peer's public key and caches the resulting
//! secret together with the key-exchange ciphertext that carries it; every
//! later call returns the cached secret unchanged, with no second
//! encapsulation. `(A, B)` and `(B, A)` are independent entries with
//! independent secrets — whichever side encapsulates first in a direction
//! fixes that direction's secret. A failed encapsulation leaves the cache
//! untouched.

use vstd::prelude::*;
use vstd::slice::slice_to_vec;

use crate::errors::Error;
use crate::kem::{
    kem_decap, kem_pk_of, KemProvider, KEM_CIPHERTEXT_LEN, PUBLIC_KEY_LEN, SHARED_SECRET_LEN,
};

verus! {

/// One cached secret: the ordered pair it belongs to, the secret bytes,
/// and the key-exchange ciphertext that produced them.
pub struct SecretEntry {
    pub local_id: String,
    pub remote_id: String,
    pub secret: Vec<u8>,
    pub kem_ciphertext: Vec<u8>,
}

/// The mathematical content of a cache entry: its two byte strings.
pub ghost struct SecretV {
    pub secret: Seq<u8>,
    pub kem_ciphertext: Seq<u8>,
}

/// The ordered pair a cache entry is keyed by.
pub open spec fn pair_of(e: SecretEntry) -> (Seq<char>, Seq<char>) {
    (e.local_id@, e.remote_id@)
}

/// The value a cache entry denotes.
pub open spec fn secret_of(e: SecretEntry) -> SecretV {
    SecretV { secret: e.secret@, kem_ciphertext: e.kem_ciphertext@ }
}

/// The per-pair shared secrets of this process.
pub struct SecretCache {
    entries: Vec<SecretEntry>,
}

/// The map an entry sequence denotes; well-formed caches hold each pair
/// at most once.
pub closed spec fn secrets_map(entries: Seq<SecretEntry>) -> Map<
    (Seq<char>, Seq<char>),
    SecretV,
>
    decreases entries.len(),
{
    if entries.len() == 0 {
        Map::empty()
    } else {
        secrets_map(entries.drop_last()).insert(
            pair_of(entries.last()),
            secret_of(entries.last()),
        )
    }
}

/// No two entries share an ordered pair.
pub closed spec fn distinct_pairs(entries: Seq<SecretEntry>) -> bool {
    forall|i: int, j: int|
        0 <= i < j < entries.len() ==> pair_of(entries[i]) != pair_of(entries[j])
}

impl View for SecretCache {
    type V = Map<(Seq<char>, Seq<char>), SecretV>;

    closed spec fn view(&self) -> Map<(Seq<char>, Seq<char>), SecretV> {
        secrets_map(self.entries@)
    }
}

proof fn lemma_pairs_present(entries: Seq<SecretEntry>, i: int)
    requires
        distinct_pairs(entries),
        0 <= i < entries.len(),
    ensures
        secrets_map(entries).contains_key(pair_of(entries[i])),
        secrets_map(entries)[pair_of(entries[i])] == secret_of(entries[i]),
    decreases entries.len(),
{
    let last = entries.len() - 1;
    if i < last {
        let prefix = entries.drop_last();
        assert forall|a: int, b: int| 0 <= a < b < prefix.len() implies pair_of(prefix[a])
            != pair_of(prefix[b]) by {
            assert(prefix[a] == entries[a]);
            assert(prefix[b] == entries[b]);
        }
        assert(prefix[i] == entries[i]);
        lemma_pairs_present(prefix, i);
        assert(pair_of(entries[i]) != pair_of(entries[last]));
    }
}

proof fn lemma_pairs_domain(entries: Seq<SecretEntry>, i: int)
    requires
        0 <= i < entries.len(),
    ensures
        secrets_map(entries).contains_key(pair_of(entries[i])),
    decreases entries.len(),
{
    if i < entries.len() - 1 {
        let prefix = entries.drop_last();
        assert(prefix[i] == entries[i]);
        lemma_pairs_domain(prefix, i);
    }
}

proof fn lemma_pairs_absent(entries: Seq<SecretEntry>, key: (Seq<char>, Seq<char>))
    requires
        forall|i: int| 0 <= i < entries.len() ==> pair_of(entries[i]) != key,
    ensures
        !secrets_map(entries).contains_key(key),
    decreases entries.len(),
{
    if entries.len() > 0 {
        let prefix = entries.drop_last();
        assert forall|i: int| 0 <= i < prefix.len() implies pair_of(prefix[i]) != key by {
            assert(prefix[i] == entries[i]);
        }
        lemma_pairs_absent(prefix, key);
        assert(pair_of(entries[entries.len() - 1]) != key);
    }
}

proof fn lemma_pairs_push(entries: Seq<SecretEntry>, e: SecretEntry)
    ensures
        secrets_map(entries.push(e)) == secrets_map(entries).insert(pair_of(e), secret_of(e)),
{
    assert(entries.push(e).drop_last() =~= entries);
    assert(entries.push(e).last() == e);
}

impl SecretCache {
    /// The cache's internal invariant: pairs are unique and every entry
    /// has the algorithm's fixed lengths.
    pub closed spec fn wf(&self) -> bool {
        &&& distinct_pairs(self.entries@)
        &&& forall|i: int|
            0 <= i < self.entries@.len() ==> (#[trigger] self.entries@[i]).secret@.len()
                == SHARED_SECRET_LEN && self.entries@[i].kem_ciphertext@.len()
                == KEM_CIPHERTEXT_LEN
    }

    /// An empty cache.
    pub fn new() -> (r: SecretCache)
        ensures
            r@ == Map::<(Seq<char>, Seq<char>), SecretV>::empty(),
            r.wf(),
    {
        let r = SecretCache { entries: Vec::new() };
        proof {
            assert(r@ =~= Map::<(Seq<char>, Seq<char>), SecretV>::empty());
        }
        r
    }

    /// The index holding the ordered pair, if any.
    fn index_of(&self, local: &String, remote: &String) -> (r: Option<usize>)
        ensures
            r matches Some(i) ==> i < self.entries@.len() && pair_of(self.entries@[i as int])
                == (local@, remote@),
            r is None ==> forall|i: int| 0 <= i < self.entries@.len() ==> pair_of(
                self.entries@[i],
            ) != (local@, remote@),
    {
        let mut i: usize = 0;
        while i < self.entries.len()
            invariant
                i <= self.entries@.len(),
                forall|j: int| 0 <= j < i ==> pair_of(self.entries@[j]) != (local@, remote@),
            decreases self.entries@.len() - i,
        {
            if self.entries[i].local_id == *local && self.entries[i].remote_id == *remote {
                return Some(i);
            }
            i = i + 1;
        }
        None
    }

    /// Whether a secret is already established for the ordered pair.
    pub fn contains_pair(&self, local: &str, remote: &str) -> (r: bool)
        ensures
            r == self@.contains_key((local@, remote@)),
    {
        let lo = local.to_owned();
        let ro = remote.to_owned();
        match self.index_of(&lo, &ro) {
            Some(i) => {
                proof {
                    lemma_pairs_domain(self.entries@, i as int);
                }
                true
            },
            None => {
                proof {
                    lemma_pairs_absent(self.entries@, (local@, remote@));
                }
                false
            },
        }
    }

    /// The cached secret for the ordered pair, if one is established.
    pub fn lookup(&self, local: &str, remote: &str) -> (r: Option<Vec<u8>>)
        requires
            self.wf(),
        ensures
            self@.contains_key((local@, remote@)) ==> (r matches Some(s) && s@ == self@[(
                local@,
                remote@,
            )].secret && s@.len() == SHARED_SECRET_LEN),
            !self@.contains_key((local@, remote@)) ==> r is None,
    {
        let lo = local.to_owned();
        let ro = remote.to_owned();
        match self.index_of(&lo, &ro) {
            Some(i) => {
                proof {
                    lemma_pairs_present(self.entries@, i as int);
                }
                Some(slice_to_vec(self.entries[i].secret.as_slice()))
            },
            None => {
                proof {
                    lemma_pairs_absent(self.entries@, (local@, remote@));
                }
                None
            },
        }
    }

    /// The key-exchange ciphertext cached for the ordered pair, if a
    /// secret is established: the first message to a new peer must carry
    /// it so the peer can decapsulate the same secret.
    pub fn ciphertext_for(&self, local: &str, remote: &str) -> (r: Option<Vec<u8>>)
        requires
            self.wf(),
        ensures
            self@.contains_key((local@, remote@)) ==> (r matches Some(c) && c@ == self@[(
                local@,
                remote@,
            )].kem_ciphertext && c@.len() == KEM_CIPHERTEXT_LEN),
            !self@.contains_key((local@, remote@)) ==> r is None,
    {
        let lo = local.to_owned();
        let ro = remote.to_owned();
        match self.index_of(&lo, &ro) {
            Some(i) => {
                proof {
                    lemma_pairs_present(self.entries@, i as int);
                }
                Some(slice_to_vec(self.entries[i].kem_ciphertext.as_slice()))
            },
            None => {
                proof {
                    lemma_pairs_absent(self.entries@, (local@, remote@));
                }
                None
            },
        }
    }

    /// Return the secret for the ordered pair, establishing it on first
    /// use: an existing entry is returned unchanged with no second
    /// encapsulation; otherwise one encapsulation against the peer's
    /// public key creates the entry. A failed encapsulation inserts
    /// nothing.
    pub fn get_or_establish(
        &mut self,
        local: &str,
        remote: &str,
        remote_public_key: &Vec<u8>,
        provider: &KemProvider,
    ) -> (r: Result<Vec<u8>, Error>)
        requires
            old(self).wf(),
        ensures
            final(self).wf(),
            r matches Ok(s) ==> s@.len() == SHARED_SECRET_LEN,
            old(self)@.contains_key((local@, remote@)) ==> final(self)@ == old(self)@ && (
            r matches Ok(s) && s@ == old(self)@[(local@, remote@)].secret),
            !old(self)@.contains_key((local@, remote@)) ==> match r {
                Ok(s) => {
                    &&& s@.len() == SHARED_SECRET_LEN
                    &&& remote_public_key@.len() == PUBLIC_KEY_LEN
                    &&& final(self)@.contains_key((local@, remote@))
                    &&& final(self)@[(local@, remote@)].secret == s@
                    &&& final(self)@[(local@, remote@)].kem_ciphertext.len()
                        == KEM_CIPHERTEXT_LEN
                    &&& final(self)@ == old(self)@.insert(
                        (local@, remote@),
                        final(self)@[(local@, remote@)],
                    )
                    &&& forall|sk: Seq<u8>|
                        #[trigger] kem_pk_of(sk) == remote_public_key@ ==> kem_decap(
                            final(self)@[(local@, remote@)].kem_ciphertext,
                            sk,
                        ) == final(self)@[(local@, remote@)].secret
                },
                Err(e) => e == Error::EncapsulationError && final(self)@ == old(self)@,
            },
            !old(self)@.contains_key((local@, remote@)) && remote_public_key@.len()
                != PUBLIC_KEY_LEN ==> r == Err::<Vec<u8>, Error>(Error::EncapsulationError),
    {
        let lo = local.to_owned();
        let ro = remote.to_owned();
        match self.index_of(&lo, &ro) {
            Some(i) => {
                proof {
                    lemma_pairs_present(self.entries@, i as int);
                }
                Ok(slice_to_vec(self.entries[i].secret.as_slice()))
            },
            None => {
                proof {
                    lemma_pairs_absent(self.entries@, (local@, remote@));
                }
                match provider.encapsulate(remote_public_key) {
                    Ok((secret, kem_ciphertext)) => {
                        let out = slice_to_vec(secret.as_slice());
                        let ghost old_entries = self.entries@;
                        let entry = SecretEntry {
                            local_id: lo,
                            remote_id: ro,
                            secret,
                            kem_ciphertext,
                        };
                        self.entries.push(entry);
                        proof {
                            self.lemma_after_push(old_entries, (local@, remote@));
                        }
                        Ok(out)
                    },
                    Err(e) => Err(e),
                }
            },
        }
    }

    /// Record a secret recovered by decapsulation on the receiving side;
    /// an already-established pair is left unchanged, never silently
    /// regenerated.
    pub fn remember(
        &mut self,
        local: &str,
        remote: &str,
        secret: &Vec<u8>,
        kem_ciphertext: &Vec<u8>,
    )
        requires
            old(self).wf(),
            secret@.len() == SHARED_SECRET_LEN,
            kem_ciphertext@.len() == KEM_CIPHERTEXT_LEN,
        ensures
            final(self).wf(),
            old(self)@.contains_key((local@, remote@)) ==> final(self)@ == old(self)@,
            !old(self)@.contains_key((local@, remote@)) ==> final(self)@ == old(self)@.insert(
                (local@, remote@),
                (SecretV { secret: secret@, kem_ciphertext: kem_ciphertext@ }),
            ),
    {
        let lo = local.to_owned();
        let ro = remote.to_owned();
        match self.index_of(&lo, &ro) {
            Some(i) => {
                proof {
                    lemma_pairs_domain(self.entries@, i as int);
                }
            },
            None => {
                proof {
                    lemma_pairs_absent(self.entries@, (local@, remote@));
                }
                let ghost old_entries = self.entries@;
                let entry = SecretEntry {
                    local_id: lo,
                    remote_id: ro,
                    secret: slice_to_vec(secret.as_slice()),
                    kem_ciphertext: slice_to_vec(kem_ciphertext.as_slice()),
                };
                self.entries.push(entry);
                proof {
                    self.lemma_after_push(old_entries, (local@, remote@));
                }
            },
        }
    }

    /// After pushing a fresh pair onto a well-formed cache, the cache is
    /// well formed again and denotes the inserted map.
    proof fn lemma_after_push(&self, old_entries: Seq<SecretEntry>, key: (Seq<char>, Seq<char>))
        requires
            distinct_pairs(old_entries),
            forall|i: int|
                0 <= i < old_entries.len() ==> (#[trigger] old_entries[i]).secret@.len()
                    == SHARED_SECRET_LEN && old_entries[i].kem_ciphertext@.len()
                    == KEM_CIPHERTEXT_LEN,
            forall|i: int| 0 <= i < old_entries.len() ==> pair_of(old_entries[i]) != key,
            self.entries@.len() == old_entries.len() + 1,
            self.entries@ == old_entries.push(self.entries@.last()),
            pair_of(self.entries@.last()) == key,
            self.entries@.last().secret@.len() == SHARED_SECRET_LEN,
            self.entries@.last().kem_ciphertext@.len() == KEM_CIPHERTEXT_LEN,
        ensures
            self.wf(),
            self@ == secrets_map(old_entries).insert(key, secret_of(self.entries@.last())),
            self@[key] == secret_of(self.entries@.last()),
    {
        let e = self.entries@.last();
        lemma_pairs_push(old_entries, e);
        assert forall|a: int, b: int|
            0 <= a < b < self.entries@.len() implies pair_of(self.entries@[a]) != pair_of(
            self.entries@[b],
        ) by {
            if b < self.entries@.len() - 1 {
                assert(old_entries[a] == self.entries@[a]);
                assert(old_entries[b] == self.entries@[b]);
            } else {
                assert(old_entries[a] == self.entries@[a]);
            }
        }
        assert forall|i: int|
            0 <= i < self.entries@.len() implies (#[trigger] self.entries@[i]).secret@.len()
            == SHARED_SECRET_LEN && self.entries@[i].kem_ciphertext@.len()
            == KEM_CIPHERTEXT_LEN by {
            if i < self.entries@.len() - 1 {
                assert(old_entries[i] == self.entries@[i]);
            }
        }
    }
}

} // verus!
