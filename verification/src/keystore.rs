//! Identity key store: the keypair of each local identity known to this
//! process.
//!
//! Each identity holds at most one active keypair at a time; regeneration
//! requires explicit removal first, so a cached shared secret is never
//! silently orphaned by key rotation. On removal and at teardown every
//! stored private key byte is actively overwritten before the memory is
//! released. Working copies handed out for decapsulation are the
//! caller's to drop; their scope-exit scrubbing is best effort and not
//! modelled here.

use vstd::prelude::*;
use vstd::map::*;
use vstd::pervasive::VecAdditionalExecFns;
use vstd::slice::slice_to_vec;

use crate::errors::Error;
use crate::kem::{keypair_wf, KemProvider, KeyPair, KeyPairV};

verus! {

/// One identity's entry: its opaque string id and its keypair.
pub struct IdentityEntry {
    pub id: String,
    pub key_pair: KeyPair,
}

/// The keypairs held for the local identities, keyed by identity id.
pub struct IdentityKeyStore {
    entries: Vec<IdentityEntry>,
}

/// The map an entry sequence denotes: the last entry for an id wins, and
/// well-formed stores hold each id at most once.
pub closed spec fn entries_map(entries: Seq<IdentityEntry>) -> Map<Seq<char>, KeyPairV>
    decreases entries.len(),
{
    if entries.len() == 0 {
        Map::empty()
    } else {
        entries_map(entries.drop_last()).insert(
            entries.last().id@,
            entries.last().key_pair@,
        )
    }
}

/// No two entries share an id.
pub closed spec fn distinct_ids(entries: Seq<IdentityEntry>) -> bool {
    forall|i: int, j: int|
        0 <= i < j < entries.len() ==> entries[i].id@ != entries[j].id@
}

impl View for IdentityKeyStore {
    type V = Map<Seq<char>, KeyPairV>;

    closed spec fn view(&self) -> Map<Seq<char>, KeyPairV> {
        entries_map(self.entries@)
    }
}

proof fn lemma_map_present(entries: Seq<IdentityEntry>, i: int)
    requires
        distinct_ids(entries),
        0 <= i < entries.len(),
    ensures
        entries_map(entries).contains_key(entries[i].id@),
        entries_map(entries)[entries[i].id@] == entries[i].key_pair@,
    decreases entries.len(),
{
    let last = entries.len() - 1;
    if i < last {
        let prefix = entries.drop_last();
        assert forall|a: int, b: int| 0 <= a < b < prefix.len() implies prefix[a].id@
            != prefix[b].id@ by {
            assert(prefix[a] == entries[a]);
            assert(prefix[b] == entries[b]);
        }
        assert(prefix[i] == entries[i]);
        lemma_map_present(prefix, i);
        assert(entries[i].id@ != entries[last].id@);
    }
}

proof fn lemma_map_domain(entries: Seq<IdentityEntry>, i: int)
    requires
        0 <= i < entries.len(),
    ensures
        entries_map(entries).contains_key(entries[i].id@),
    decreases entries.len(),
{
    if i < entries.len() - 1 {
        let prefix = entries.drop_last();
        assert(prefix[i] == entries[i]);
        lemma_map_domain(prefix, i);
    }
}

proof fn lemma_map_absent(entries: Seq<IdentityEntry>, id: Seq<char>)
    requires
        forall|i: int| 0 <= i < entries.len() ==> entries[i].id@ != id,
    ensures
        !entries_map(entries).contains_key(id),
    decreases entries.len(),
{
    if entries.len() > 0 {
        let prefix = entries.drop_last();
        assert forall|i: int| 0 <= i < prefix.len() implies prefix[i].id@ != id by {
            assert(prefix[i] == entries[i]);
        }
        lemma_map_absent(prefix, id);
        assert(entries[entries.len() - 1].id@ != id);
    }
}

proof fn lemma_map_exists(entries: Seq<IdentityEntry>, k: Seq<char>)
    ensures
        entries_map(entries).contains_key(k) <==> exists|i: int|
            0 <= i < entries.len() && (#[trigger] entries[i]).id@ == k,
{
    if exists|i: int| 0 <= i < entries.len() && (#[trigger] entries[i]).id@ == k {
        let i = choose|i: int| 0 <= i < entries.len() && (#[trigger] entries[i]).id@ == k;
        lemma_map_domain(entries, i);
    } else {
        lemma_map_absent(entries, k);
    }
}

proof fn lemma_map_remove(entries: Seq<IdentityEntry>, i: int)
    requires
        distinct_ids(entries),
        0 <= i < entries.len(),
    ensures
        distinct_ids(entries.remove(i)),
        entries_map(entries.remove(i)) == entries_map(entries).remove(entries[i].id@),
{
    let id = entries[i].id@;
    let rest = entries.remove(i);
    entries.remove_ensures(i);
    assert forall|a: int, b: int| 0 <= a < b < rest.len() implies rest[a].id@ != rest[b].id@ by {
        if a < i {
            assert(rest[a] == entries[a]);
        } else {
            assert(rest[a] == entries[a + 1]);
        }
        if b < i {
            assert(rest[b] == entries[b]);
        } else {
            assert(rest[b] == entries[b + 1]);
        }
    }
    assert(distinct_ids(rest));
    assert_maps_equal!(entries_map(rest), entries_map(entries).remove(id), k => {
        lemma_map_exists(rest, k);
        lemma_map_exists(entries, k);
        if k == id {
            assert forall|j: int| 0 <= j < rest.len() implies rest[j].id@ != id by {
                if j < i {
                    assert(rest[j] == entries[j]);
                } else {
                    assert(rest[j] == entries[j + 1]);
                }
            }
            lemma_map_absent(rest, id);
        } else {
            if entries_map(entries).contains_key(k) {
                let j2 = choose|j: int| 0 <= j < entries.len() && (#[trigger] entries[j]).id@
                    == k;
                lemma_map_present(entries, j2);
                let j = if j2 < i {
                    j2
                } else {
                    j2 - 1
                };
                assert(rest[j] == entries[j2]);
                lemma_map_present(rest, j);
            }
            if entries_map(rest).contains_key(k) {
                let j = choose|j: int| 0 <= j < rest.len() && (#[trigger] rest[j]).id@ == k;
                let j2 = if j < i {
                    j
                } else {
                    j + 1
                };
                assert(rest[j] == entries[j2]);
                lemma_map_domain(entries, j2);
            }
        }
    });
}

proof fn lemma_map_push(entries: Seq<IdentityEntry>, e: IdentityEntry)
    ensures
        entries_map(entries.push(e)) == entries_map(entries).insert(e.id@, e.key_pair@),
{
    assert(entries.push(e).drop_last() =~= entries);
    assert(entries.push(e).last() == e);
}

impl IdentityKeyStore {
    /// The store's internal invariant: ids are unique and every stored
    /// keypair has the algorithm's fixed lengths.
    pub closed spec fn wf(&self) -> bool {
        &&& distinct_ids(self.entries@)
        &&& forall|i: int|
            0 <= i < self.entries@.len() ==> keypair_wf(#[trigger] self.entries@[i].key_pair@)
    }

    /// An empty store.
    pub fn new() -> (r: IdentityKeyStore)
        ensures
            r@ == Map::<Seq<char>, KeyPairV>::empty(),
            r.wf(),
    {
        let r = IdentityKeyStore { entries: Vec::new() };
        proof {
            assert(r@ =~= Map::<Seq<char>, KeyPairV>::empty());
        }
        r
    }

    /// The index holding `id`, if any.
    fn index_of(&self, id: &String) -> (r: Option<usize>)
        ensures
            r matches Some(i) ==> i < self.entries@.len() && self.entries@[i as int].id@ == id@,
            r is None ==> forall|i: int| 0 <= i < self.entries@.len() ==> self.entries@[i].id@
                != id@,
    {
        let mut i: usize = 0;
        while i < self.entries.len()
            invariant
                i <= self.entries@.len(),
                forall|j: int| 0 <= j < i ==> self.entries@[j].id@ != id@,
            decreases self.entries@.len() - i,
        {
            if self.entries[i].id == *id {
                return Some(i);
            }
            i = i + 1;
        }
        None
    }

    /// Whether `id` already holds a keypair.
    pub fn contains_identity(&self, id: &str) -> (r: bool)
        ensures
            r == self@.contains_key(id@),
    {
        let owned = id.to_owned();
        match self.index_of(&owned) {
            Some(i) => {
                proof {
                    lemma_map_domain(self.entries@, i as int);
                }
                true
            },
            None => {
                proof {
                    lemma_map_absent(self.entries@, id@);
                }
                false
            },
        }
    }

    /// Generate and store a keypair for a new identity; an identity that
    /// already holds one is rejected unchanged.
    pub fn create_identity(&mut self, id: &str, provider: &KemProvider) -> (r: Result<
        Vec<u8>,
        Error,
    >)
        requires
            old(self).wf(),
        ensures
            final(self).wf(),
            old(self)@.contains_key(id@) ==> r == Err::<Vec<u8>, Error>(
                Error::DuplicateIdentityError,
            ) && final(self)@ == old(self)@,
            !old(self)@.contains_key(id@) ==> match r {
                Ok(pk) => {
                    &&& final(self)@.contains_key(id@)
                    &&& keypair_wf(final(self)@[id@])
                    &&& pk@ == final(self)@[id@].public_key
                    &&& final(self)@ == old(self)@.insert(id@, final(self)@[id@])
                },
                Err(e) => e == Error::KeyGenError && final(self)@ == old(self)@,
            },
    {
        let owned = id.to_owned();
        match self.index_of(&owned) {
            Some(i) => {
                proof {
                    lemma_map_present(self.entries@, i as int);
                }
                Err(Error::DuplicateIdentityError)
            },
            None => {
                proof {
                    lemma_map_absent(self.entries@, id@);
                }
                match provider.keypair() {
                    Ok(kp) => {
                        let pk = slice_to_vec(kp.public_key.as_slice());
                        let ghost old_entries = self.entries@;
                        let entry = IdentityEntry { id: owned, key_pair: kp };
                        self.entries.push(entry);
                        proof {
                            let e = self.entries@.last();
                            lemma_map_push(old_entries, e);
                            assert forall|a: int, b: int|
                                0 <= a < b < self.entries@.len() implies self.entries@[a].id@
                                != self.entries@[b].id@ by {
                                if b < self.entries@.len() - 1 {
                                    assert(old_entries[a] == self.entries@[a]);
                                    assert(old_entries[b] == self.entries@[b]);
                                } else {
                                    assert(old_entries[a] == self.entries@[a]);
                                }
                            }
                            assert forall|i: int|
                                0 <= i < self.entries@.len() implies keypair_wf(
                                #[trigger] self.entries@[i].key_pair@,
                            ) by {
                                if i < self.entries@.len() - 1 {
                                    assert(old_entries[i] == self.entries@[i]);
                                }
                            }
                        }
                        Ok(pk)
                    },
                    Err(e) => Err(e),
                }
            },
        }
    }

    /// The stored public key of `id`, or `UnknownIdentityError`.
    pub fn public_key_of(&self, id: &str) -> (r: Result<Vec<u8>, Error>)
        requires
            self.wf(),
        ensures
            self@.contains_key(id@) ==> (r matches Ok(pk) && pk@ == self@[id@].public_key
                && pk@.len() == crate::kem::PUBLIC_KEY_LEN),
            !self@.contains_key(id@) ==> r == Err::<Vec<u8>, Error>(Error::UnknownIdentityError),
    {
        let owned = id.to_owned();
        match self.index_of(&owned) {
            Some(i) => {
                proof {
                    lemma_map_present(self.entries@, i as int);
                }
                Ok(slice_to_vec(self.entries[i].key_pair.public_key.as_slice()))
            },
            None => {
                proof {
                    lemma_map_absent(self.entries@, id@);
                }
                Err(Error::UnknownIdentityError)
            },
        }
    }

    /// The stored private key of `id`, for decapsulation inside the
    /// session; never exposed outside the crate.
    pub(crate) fn private_key_of(&self, id: &str) -> (r: Result<Vec<u8>, Error>)
        requires
            self.wf(),
        ensures
            self@.contains_key(id@) ==> (r matches Ok(sk) && sk@ == self@[id@].private_key
                && sk@.len() == crate::kem::PRIVATE_KEY_LEN),
            !self@.contains_key(id@) ==> r == Err::<Vec<u8>, Error>(Error::UnknownIdentityError),
    {
        let owned = id.to_owned();
        match self.index_of(&owned) {
            Some(i) => {
                proof {
                    lemma_map_present(self.entries@, i as int);
                }
                Ok(slice_to_vec(self.entries[i].key_pair.private_key.as_slice()))
            },
            None => {
                proof {
                    lemma_map_absent(self.entries@, id@);
                }
                Err(Error::UnknownIdentityError)
            },
        }
    }

    /// Remove one identity's keypair, actively overwriting its private
    /// key bytes with zero before the entry is released. The explicit
    /// removal that key regeneration requires.
    pub fn remove_identity(&mut self, id: &str) -> (r: Result<(), Error>)
        requires
            old(self).wf(),
        ensures
            final(self).wf(),
            old(self)@.contains_key(id@) ==> r == Ok::<(), Error>(()) && final(self)@ == old(
                self,
            )@.remove(id@),
            !old(self)@.contains_key(id@) ==> r == Err::<(), Error>(Error::UnknownIdentityError)
                && final(self)@ == old(self)@,
    {
        let owned = id.to_owned();
        match self.index_of(&owned) {
            Some(i) => {
                proof {
                    lemma_map_present(self.entries@, i as int);
                }
                let ghost old_entries = self.entries@;
                let mut entry = self.entries.remove(i);
                let n = entry.key_pair.private_key.len();
                let mut j: usize = 0;
                while j < n
                    invariant
                        j <= n,
                        entry.key_pair.private_key@.len() == n,
                    decreases n - j,
                {
                    entry.key_pair.private_key.set(j, 0);
                    j = j + 1;
                }
                proof {
                    lemma_map_remove(old_entries, i as int);
                    old_entries.remove_ensures(i as int);
                    assert forall|a: int|
                        0 <= a < self.entries@.len() implies keypair_wf(
                        #[trigger] self.entries@[a].key_pair@,
                    ) by {
                        if a < i {
                            assert(self.entries@[a] == old_entries[a]);
                        } else {
                            assert(self.entries@[a] == old_entries[a + 1]);
                        }
                    }
                }
                Ok(())
            },
            None => {
                proof {
                    lemma_map_absent(self.entries@, id@);
                }
                Err(Error::UnknownIdentityError)
            },
        }
    }

    /// Tear the store down: actively overwrite every private key byte
    /// with zero before releasing the entries.
    pub fn wipe(&mut self)
        ensures
            final(self)@ == Map::<Seq<char>, KeyPairV>::empty(),
            final(self).wf(),
    {
        while self.entries.len() > 0
            decreases self.entries@.len(),
        {
            match self.entries.pop() {
                Some(mut entry) => {
                    let n = entry.key_pair.private_key.len();
                    let mut j: usize = 0;
                    while j < n
                        invariant
                            j <= n,
                            entry.key_pair.private_key@.len() == n,
                        decreases n - j,
                    {
                        entry.key_pair.private_key.set(j, 0);
                        j = j + 1;
                    }
                },
                None => {},
            }
        }
        proof {
            assert(self.entries@.len() == 0);
            assert(self@ =~= Map::<Seq<char>, KeyPairV>::empty());
        }
    }
}

} // verus!
