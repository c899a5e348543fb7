//! The credential store: a map from service name to a sealed secret and its
//! nonce, kept in ascending order of name.

use crate::cipher::{
    base64_decode, base64_decoded, base64_encode, base64_of, nonce_fits, NONCE_LEN,
};
use crate::order::{
    lemma_name_lt_irreflexive, lemma_name_lt_total, lemma_name_lt_transitive, name_lt, service_lt,
};
use vstd::prelude::*;

verus! {

/// One record of the persisted resource: the base64 text of the sealed secret
/// and the nonce it was sealed with.
#[derive(Debug, Clone)]
pub struct PasswordEntry {
    pub password: String,
    pub nonce: String,
}

impl PasswordEntry {
    pub fn new(new_password: String, new_nonce: String) -> (r: Self)
        ensures
            r.password@ == new_password@,
            r.nonce@ == new_nonce@,
    {
        PasswordEntry { password: new_password, nonce: new_nonce }
    }
}

/// Outcome of removing a service from the store.
#[derive(Debug, Clone, Copy, PartialEq, Eq, Structural)]
pub enum EntryState {
    PasswordDeleted,
    NoSuchPassword,
}

/// Why a persisted resource could not be taken as a store.
#[derive(Debug, Clone, Copy, PartialEq, Eq, Structural)]
pub enum StoreError {
    /// A record's secret is not base64.
    CorruptSecret,
    /// A record's nonce does not have the length the cipher takes.
    CorruptNonce,
}

/// One stored secret, as a value.
pub struct StoredView {
    pub service: Seq<char>,
    pub ciphertext: Seq<u8>,
    pub nonce: Seq<char>,
}

/// One stored secret.
#[derive(Debug, Clone)]
pub struct StoreEntry {
    pub service: String,
    pub ciphertext: Vec<u8>,
    pub nonce: String,
}

impl View for StoreEntry {
    type V = StoredView;

    open spec fn view(&self) -> StoredView {
        StoredView { service: self.service@, ciphertext: self.ciphertext@, nonce: self.nonce@ }
    }
}

/// Names in strictly ascending order, hence distinct.
pub open spec fn strictly_sorted(s: Seq<StoredView>) -> bool {
    forall|i: int, j: int| 0 <= i < j < s.len() ==> name_lt(#[trigger] s[i].service, #[trigger] s[j].service)
}

/// The map that a sequence of stored secrets with distinct names stands for.
pub open spec fn entries_map(s: Seq<StoredView>) -> Map<Seq<char>, (Seq<u8>, Seq<char>)> {
    Map::new(
        |k: Seq<char>| exists|i: int| 0 <= i < s.len() && s[i].service == k,
        |k: Seq<char>|
            {
                let i = choose|i: int| 0 <= i < s.len() && s[i].service == k;
                (s[i].ciphertext, s[i].nonce)
            },
    )
}

proof fn lemma_sorted_distinct(s: Seq<StoredView>, i: int, j: int)
    requires
        strictly_sorted(s),
        0 <= i < s.len(),
        0 <= j < s.len(),
        s[i].service == s[j].service,
    ensures
        i == j,
{
    if i < j {
        lemma_name_lt_irreflexive(s[i].service);
    } else if j < i {
        lemma_name_lt_irreflexive(s[i].service);
    }
}

/// In a strictly sorted sequence, the map holds at each name the secret
/// stored under it.
pub proof fn lemma_entries_map_at(s: Seq<StoredView>, i: int)
    requires
        strictly_sorted(s),
        0 <= i < s.len(),
    ensures
        entries_map(s).contains_key(s[i].service),
        entries_map(s)[s[i].service] == (s[i].ciphertext, s[i].nonce),
{
    let k = s[i].service;
    assert(exists|j: int| 0 <= j < s.len() && s[j].service == k);
    let j = choose|j: int| 0 <= j < s.len() && s[j].service == k;
    lemma_sorted_distinct(s, i, j);
}

/// A record as values: (service name, secret text, nonce text).
pub open spec fn record_view(r: (String, PasswordEntry)) -> (Seq<char>, Seq<char>, Seq<char>) {
    (r.0@, r.1.password@, r.1.nonce@)
}

/// The secret text is base64 and the nonce fits the cipher.
pub open spec fn record_valid(r: (Seq<char>, Seq<char>, Seq<char>)) -> bool {
    base64_decoded(r.1) is Some && nonce_fits(r.2)
}

pub open spec fn records_valid(rs: Seq<(Seq<char>, Seq<char>, Seq<char>)>) -> bool {
    forall|i: int| 0 <= i < rs.len() ==> record_valid(#[trigger] rs[i])
}

/// The record has the defect that `e` names.
pub open spec fn record_defect(r: (Seq<char>, Seq<char>, Seq<char>), e: StoreError) -> bool {
    match e {
        StoreError::CorruptSecret => base64_decoded(r.1) is None,
        StoreError::CorruptNonce => !nonce_fits(r.2),
    }
}

/// The map that valid records give, a later record under a name replacing
/// an earlier one.
pub open spec fn loaded_map(rs: Seq<(Seq<char>, Seq<char>, Seq<char>)>) -> Map<
    Seq<char>,
    (Seq<u8>, Seq<char>),
>
    decreases rs.len(),
{
    if rs.len() == 0 {
        Map::empty()
    } else {
        let last = rs.last();
        let bytes = match base64_decoded(last.1) {
            Some(b) => b,
            None => Seq::empty(),
        };
        loaded_map(rs.drop_last()).insert(last.0, (bytes, last.2))
    }
}

/// The store: secrets in strictly ascending order of service name.
pub struct CredentialStore {
    entries: Vec<StoreEntry>,
}

impl CredentialStore {
    /// The secrets in order.
    pub closed spec fn entries(&self) -> Seq<StoredView> {
        self.entries@.map_values(|e: StoreEntry| e@)
    }

    /// Sorted by name, and every nonce fits the cipher.
    pub open spec fn wf(&self) -> bool {
        &&& strictly_sorted(self.entries())
        &&& forall|i: int| 0 <= i < self.entries().len() ==> nonce_fits(#[trigger] self.entries()[i].nonce)
    }

    /// The store as a map from service name to (ciphertext, nonce).
    pub open spec fn view(&self) -> Map<Seq<char>, (Seq<u8>, Seq<char>)> {
        entries_map(self.entries())
    }

    pub fn new() -> (r: Self)
        ensures
            r.wf(),
            r.entries().len() == 0,
            r@ == Map::<Seq<char>, (Seq<u8>, Seq<char>)>::empty(),
    {
        let r = CredentialStore { entries: Vec::new() };
        assert(r.entries() =~= Seq::<StoredView>::empty());
        assert(r@ =~= Map::<Seq<char>, (Seq<u8>, Seq<char>)>::empty());
        r
    }

    pub fn len(&self) -> (r: usize)
        ensures
            r == self.entries().len(),
    {
        self.entries.len()
    }

    /// The secret at position `i` in name order.
    pub fn entry(&self, i: usize) -> (r: &StoreEntry)
        requires
            i < self.entries().len(),
        ensures
            r@ == self.entries()[i as int],
    {
        &self.entries[i]
    }

    /// Where `service` stands or would stand: the first position whose name
    /// does not sort before it, and whether that name is `service`.
    fn locate(&self, service: &str) -> (r: (usize, bool))
        requires
            self.wf(),
        ensures
            r.0 <= self.entries().len(),
            forall|i: int| 0 <= i < r.0 ==> name_lt(#[trigger] self.entries()[i].service, service@),
            r.0 < self.entries().len() ==> !name_lt(self.entries()[r.0 as int].service, service@),
            r.1 <==> (r.0 < self.entries().len() && self.entries()[r.0 as int].service == service@),
            r.1 <==> self@.contains_key(service@),
    {
        let n = self.entries.len();
        let mut i: usize = 0;
        while i < n && service_lt(self.entries[i].service.as_str(), service)
            invariant
                n == self.entries().len(),
                i <= n,
                forall|j: int| 0 <= j < i ==> name_lt(#[trigger] self.entries()[j].service, service@),
            decreases n - i,
        {
            i = i + 1;
        }
        let found = i < n && !service_lt(service, self.entries[i].service.as_str());
        proof {
            let s = self.entries();
            if i < n {
                lemma_name_lt_total(s[i as int].service, service@);
            }
            if self@.contains_key(service@) {
                let j = choose|j: int| 0 <= j < s.len() && s[j].service == service@;
                if j < i {
                    lemma_name_lt_irreflexive(service@);
                } else if j > i {
                    assert(name_lt(s[i as int].service, s[j].service));
                    lemma_name_lt_total(s[i as int].service, service@);
                }
            }
            if found {
                assert(s[i as int].service == service@);
            }
        }
        (i, found)
    }

    /// Upserts one secret under `service`.
    pub fn put(&mut self, service: String, ciphertext: Vec<u8>, nonce: String)
        requires
            old(self).wf(),
            nonce_fits(nonce@),
        ensures
            final(self).wf(),
            final(self)@ == old(self)@.insert(service@, (ciphertext@, nonce@)),
    {
        let (p, found) = self.locate(service.as_str());
        let ghost s = self.entries();
        let ghost k = service@;
        let ghost v = (ciphertext@, nonce@);
        let e = StoreEntry { service, ciphertext, nonce };
        if found {
            self.entries.set(p, e);
            proof {
                let t = self.entries();
                assert(t =~= s.update(p as int, e@));
                assert forall|i: int, j: int| 0 <= i < j < t.len() implies name_lt(
                    #[trigger] t[i].service,
                    #[trigger] t[j].service,
                ) by {
                    assert(s[i].service == t[i].service);
                    assert(s[j].service == t[j].service);
                }
                self.lemma_map_after_update(s, p as int, e@);
            }
        } else {
            self.entries.insert(p, e);
            proof {
                let t = self.entries();
                assert(t =~= s.insert(p as int, e@));
                assert forall|i: int, j: int| 0 <= i < j < t.len() implies name_lt(
                    #[trigger] t[i].service,
                    #[trigger] t[j].service,
                ) by {
                    if i < p && j == p {
                    } else if i < p && j > p {
                        assert(t[j] == s[j - 1]);
                    } else if i == p && j > p {
                        assert(t[j] == s[j - 1]);
                        if j - 1 > p {
                            assert(name_lt(s[p as int].service, s[j - 1].service));
                        }
                        lemma_name_lt_total(s[p as int].service, k);
                        if j - 1 > p {
                            lemma_name_lt_transitive(k, s[p as int].service, s[j - 1].service);
                        }
                    } else if i > p {
                        assert(t[i] == s[i - 1]);
                        assert(t[j] == s[j - 1]);
                    }
                }
                assert forall|i: int| 0 <= i < t.len() implies nonce_fits(#[trigger] t[i].nonce) by {
                    if i > p {
                        assert(t[i] == s[i - 1]);
                    }
                }
                self.lemma_map_after_insert(s, p as int, e@);
            }
        }
    }

    proof fn lemma_map_after_update(&self, s: Seq<StoredView>, p: int, e: StoredView)
        requires
            strictly_sorted(s),
            strictly_sorted(self.entries()),
            0 <= p < s.len(),
            s[p].service == e.service,
            self.entries() == s.update(p, e),
        ensures
            self@ == entries_map(s).insert(e.service, (e.ciphertext, e.nonce)),
    {
        let t = self.entries();
        let m = entries_map(s).insert(e.service, (e.ciphertext, e.nonce));
        assert forall|k: Seq<char>| #[trigger] self@.contains_key(k) <==> m.contains_key(k) by {
            if self@.contains_key(k) {
                let j = choose|j: int| 0 <= j < t.len() && t[j].service == k;
                if j != p {
                    assert(s[j].service == k);
                }
            }
            if entries_map(s).contains_key(k) {
                let j = choose|j: int| 0 <= j < s.len() && s[j].service == k;
                assert(t[j].service == k);
            }
            if k == e.service {
                assert(t[p].service == k);
            }
        }
        assert forall|k: Seq<char>| #[trigger] self@.contains_key(k) implies self@[k] == m[k] by {
            let j = choose|j: int| 0 <= j < t.len() && t[j].service == k;
            lemma_entries_map_at(t, j);
            if j != p {
                assert(t[j] == s[j]);
                lemma_entries_map_at(s, j);
                if k == e.service {
                    lemma_sorted_distinct(s, j, p);
                }
                assert(m[k] == entries_map(s)[k]);
            } else {
                assert(t[p] == e);
            }
        }
        assert(self@ =~= m);
    }

    proof fn lemma_map_after_insert(&self, s: Seq<StoredView>, p: int, e: StoredView)
        requires
            strictly_sorted(s),
            strictly_sorted(self.entries()),
            0 <= p <= s.len(),
            self.entries() == s.insert(p, e),
        ensures
            self@ == entries_map(s).insert(e.service, (e.ciphertext, e.nonce)),
    {
        let t = self.entries();
        let m = entries_map(s).insert(e.service, (e.ciphertext, e.nonce));
        assert forall|k: Seq<char>| #[trigger] self@.contains_key(k) <==> m.contains_key(k) by {
            if self@.contains_key(k) {
                let j = choose|j: int| 0 <= j < t.len() && t[j].service == k;
                if j < p {
                    assert(s[j].service == k);
                } else if j > p {
                    assert(s[j - 1].service == k);
                }
            }
            if entries_map(s).contains_key(k) {
                let j = choose|j: int| 0 <= j < s.len() && s[j].service == k;
                if j < p {
                    assert(t[j].service == k);
                } else {
                    assert(t[j + 1].service == k);
                }
            }
            if k == e.service {
                assert(t[p].service == k);
            }
        }
        assert forall|k: Seq<char>| #[trigger] self@.contains_key(k) implies self@[k] == m[k] by {
            let j = choose|j: int| 0 <= j < t.len() && t[j].service == k;
            lemma_entries_map_at(t, j);
            lemma_entries_map_at(t, p);
            assert(t[p] == e);
            if j != p {
                if k == e.service {
                    lemma_sorted_distinct(t, j, p);
                }
            }
            if j < p {
                assert(t[j] == s[j]);
                lemma_entries_map_at(s, j);
                assert(k != e.service);
                assert(m[k] == entries_map(s)[k]);
            } else if j > p {
                assert(t[j] == s[j - 1]);
                lemma_entries_map_at(s, j - 1);
                assert(k != e.service);
                assert(m[k] == entries_map(s)[k]);
            } else {
                assert(m[k] == (e.ciphertext, e.nonce));
            }
            assert(self@[k] == (t[j].ciphertext, t[j].nonce));
            assert(m[k] == (t[j].ciphertext, t[j].nonce));
        }
        assert(self@ =~= m);
    }

    /// Removes the secret under `service`, if there is one.
    pub fn remove(&mut self, service: &str) -> (r: EntryState)
        requires
            old(self).wf(),
        ensures
            final(self).wf(),
            r == EntryState::PasswordDeleted <==> old(self)@.contains_key(service@),
            r == EntryState::NoSuchPassword <==> !old(self)@.contains_key(service@),
            final(self)@ == old(self)@.remove(service@),
    {
        let (p, found) = self.locate(service);
        if !found {
            proof {
                assert(self@ =~= self@.remove(service@));
            }
            return EntryState::NoSuchPassword;
        }
        let ghost s = self.entries();
        self.entries.remove(p);
        proof {
            let t = self.entries();
            assert(t =~= s.remove(p as int));
            assert forall|i: int, j: int| 0 <= i < j < t.len() implies name_lt(
                #[trigger] t[i].service,
                #[trigger] t[j].service,
            ) by {
                if i < p && j >= p {
                    assert(t[j] == s[j + 1]);
                } else if i >= p {
                    assert(t[i] == s[i + 1]);
                    assert(t[j] == s[j + 1]);
                }
            }
            assert forall|i: int| 0 <= i < t.len() implies nonce_fits(#[trigger] t[i].nonce) by {
                if i >= p {
                    assert(t[i] == s[i + 1]);
                }
            }
            let m = entries_map(s).remove(service@);
            assert forall|k: Seq<char>| #[trigger] self@.contains_key(k) <==> m.contains_key(k) by {
                if self@.contains_key(k) {
                    let j = choose|j: int| 0 <= j < t.len() && t[j].service == k;
                    if j < p {
                        assert(s[j].service == k);
                        if k == service@ {
                            lemma_sorted_distinct(s, j, p as int);
                        }
                    } else {
                        assert(s[j + 1].service == k);
                        if k == service@ {
                            lemma_sorted_distinct(s, j + 1, p as int);
                        }
                    }
                }
                if m.contains_key(k) {
                    let j = choose|j: int| 0 <= j < s.len() && s[j].service == k;
                    if j < p {
                        assert(t[j].service == k);
                    } else if j > p {
                        assert(t[j - 1].service == k);
                    }
                }
            }
            assert forall|k: Seq<char>| #[trigger] self@.contains_key(k) implies self@[k] == m[k] by {
                let j = choose|j: int| 0 <= j < t.len() && t[j].service == k;
                lemma_entries_map_at(t, j);
                if j < p {
                    assert(t[j] == s[j]);
                    lemma_entries_map_at(s, j);
                } else {
                    assert(t[j] == s[j + 1]);
                    lemma_entries_map_at(s, j + 1);
                }
            }
            assert(self@ =~= m);
        }
        EntryState::PasswordDeleted
    }

    /// Takes the persisted records as a store: every secret must be base64
    /// and every nonce must fit the cipher; a later record under a name
    /// replaces an earlier one.
    pub fn from_records(records: &Vec<(String, PasswordEntry)>) -> (r: Result<Self, StoreError>)
        ensures
            r is Ok <==> records_valid(records@.map_values(|x: (String, PasswordEntry)| record_view(x))),
            r matches Ok(s) ==> s.wf() && s@ == loaded_map(
                records@.map_values(|x: (String, PasswordEntry)| record_view(x)),
            ),
            r matches Err(e) ==> exists|i: int|
                0 <= i < records@.len() && record_defect(record_view(#[trigger] records@[i]), e),
    {
        let ghost recs = records@.map_values(|x: (String, PasswordEntry)| record_view(x));
        let mut store = CredentialStore::new();
        let mut i: usize = 0;
        while i < records.len()
            invariant
                recs == records@.map_values(|x: (String, PasswordEntry)| record_view(x)),
                i <= records@.len(),
                store.wf(),
                records_valid(recs.take(i as int)),
                store@ == loaded_map(recs.take(i as int)),
            decreases records@.len() - i,
        {
            let service = &records[i].0;
            let entry = &records[i].1;
            assert(recs.take(i as int + 1).drop_last() =~= recs.take(i as int));
            if entry.nonce.as_str().as_bytes().len() != NONCE_LEN {
                assert(record_defect(recs[i as int], StoreError::CorruptNonce));
                proof {
                    assert(!records_valid(recs)) by {
                        assert(!record_valid(recs[i as int]));
                    }
                }
                return Err(StoreError::CorruptNonce);
            }
            match base64_decode(entry.password.as_str()) {
                None => {
                    assert(record_defect(recs[i as int], StoreError::CorruptSecret));
                    proof {
                        assert(!records_valid(recs)) by {
                            assert(!record_valid(recs[i as int]));
                        }
                    }
                    return Err(StoreError::CorruptSecret);
                },
                Some(ciphertext) => {
                    store.put(service.clone(), ciphertext, entry.nonce.clone());
                },
            }
            i = i + 1;
            proof {
                assert forall|j: int| 0 <= j < i implies record_valid(#[trigger] recs.take(i as int)[j]) by {
                    if j < i - 1 {
                        assert(recs.take(i as int)[j] == recs.take(i - 1)[j]);
                    }
                }
            }
        }
        assert(recs.take(i as int) =~= recs);
        Ok(store)
    }

    /// The records to persist: each secret's ciphertext as base64 text, in
    /// name order.
    pub fn records(&self) -> (r: Vec<(String, PasswordEntry)>)
        ensures
            r@.len() == self.entries().len(),
            forall|i: int| 0 <= i < r@.len() ==> {
                &&& (#[trigger] r@[i]).0@ == self.entries()[i].service
                &&& r@[i].1.password@ == base64_of(self.entries()[i].ciphertext)
                &&& base64_decoded(r@[i].1.password@) == Some(self.entries()[i].ciphertext)
                &&& r@[i].1.nonce@ == self.entries()[i].nonce
            },
    {
        let mut r: Vec<(String, PasswordEntry)> = Vec::new();
        let mut i: usize = 0;
        while i < self.entries.len()
            invariant
                i <= self.entries().len(),
                r@.len() == i,
                forall|j: int| 0 <= j < i ==> {
                    &&& (#[trigger] r@[j]).0@ == self.entries()[j].service
                    &&& r@[j].1.password@ == base64_of(self.entries()[j].ciphertext)
                    &&& base64_decoded(r@[j].1.password@) == Some(self.entries()[j].ciphertext)
                    &&& r@[j].1.nonce@ == self.entries()[j].nonce
                },
            decreases self.entries().len() - i,
        {
            let e = &self.entries[i];
            let text = base64_encode(e.ciphertext.as_slice());
            r.push((e.service.clone(), PasswordEntry::new(text, e.nonce.clone())));
            i = i + 1;
        }
        r
    }
}

/// Appending a secret under a new, greatest name adds it to the map.
proof fn lemma_entries_map_push(s: Seq<StoredView>, e: StoredView)
    requires
        strictly_sorted(s.push(e)),
    ensures
        entries_map(s.push(e)) == entries_map(s).insert(e.service, (e.ciphertext, e.nonce)),
{
    let t = s.push(e);
    let p = s.len() as int;
    let m = entries_map(s).insert(e.service, (e.ciphertext, e.nonce));
    assert(strictly_sorted(s)) by {
        assert forall|i: int, j: int| 0 <= i < j < s.len() implies name_lt(
            #[trigger] s[i].service,
            #[trigger] s[j].service,
        ) by {
            assert(t[i] == s[i] && t[j] == s[j]);
        }
    }
    assert forall|k: Seq<char>| #[trigger] entries_map(t).contains_key(k) <==> m.contains_key(k) by {
        if entries_map(t).contains_key(k) {
            let j = choose|j: int| 0 <= j < t.len() && t[j].service == k;
            if j < p {
                assert(s[j].service == k);
            }
        }
        if entries_map(s).contains_key(k) {
            let j = choose|j: int| 0 <= j < s.len() && s[j].service == k;
            assert(t[j].service == k);
        }
        if k == e.service {
            assert(t[p].service == k);
        }
    }
    assert forall|k: Seq<char>| #[trigger] entries_map(t).contains_key(k) implies entries_map(t)[k]
        == m[k] by {
        let j = choose|j: int| 0 <= j < t.len() && t[j].service == k;
        lemma_entries_map_at(t, j);
        if j < p {
            assert(t[j] == s[j]);
            lemma_entries_map_at(s, j);
            if k == e.service {
                lemma_sorted_distinct(t, j, p);
            }
            assert(m[k] == entries_map(s)[k]);
        } else {
            assert(t[p] == e);
        }
    }
    assert(entries_map(t) =~= m);
}

/// Loading the records that a store writes out (each secret as base64 text
/// that decodes to its ciphertext) gives back the same map.
pub proof fn lemma_records_round_trip(
    store: CredentialStore,
    records: Seq<(Seq<char>, Seq<char>, Seq<char>)>,
)
    requires
        store.wf(),
        records.len() == store.entries().len(),
        forall|i: int|
            0 <= i < records.len() ==> {
                &&& (#[trigger] records[i]).0 == store.entries()[i].service
                &&& base64_decoded(records[i].1) == Some(store.entries()[i].ciphertext)
                &&& records[i].2 == store.entries()[i].nonce
            },
    ensures
        records_valid(records),
        loaded_map(records) == store@,
{
    let s = store.entries();
    assert forall|i: int| 0 <= i < records.len() implies record_valid(#[trigger] records[i]) by {
        assert(nonce_fits(s[i].nonce));
    }
    lemma_prefix_loads(s, records, records.len() as int);
    assert(records.take(records.len() as int) =~= records);
    assert(s.take(s.len() as int) =~= s);
}

proof fn lemma_prefix_loads(
    s: Seq<StoredView>,
    records: Seq<(Seq<char>, Seq<char>, Seq<char>)>,
    k: int,
)
    requires
        strictly_sorted(s),
        records.len() == s.len(),
        0 <= k <= s.len(),
        forall|i: int|
            0 <= i < records.len() ==> {
                &&& (#[trigger] records[i]).0 == s[i].service
                &&& base64_decoded(records[i].1) == Some(s[i].ciphertext)
                &&& records[i].2 == s[i].nonce
            },
    ensures
        loaded_map(records.take(k)) == entries_map(s.take(k)),
    decreases k,
{
    if k == 0 {
        assert(s.take(0) =~= Seq::<StoredView>::empty());
        assert(entries_map(s.take(0)) =~= Map::<Seq<char>, (Seq<u8>, Seq<char>)>::empty());
    } else {
        lemma_prefix_loads(s, records, k - 1);
        assert(records.take(k).drop_last() =~= records.take(k - 1));
        assert(s.take(k) =~= s.take(k - 1).push(s[k - 1]));
        assert(strictly_sorted(s.take(k))) by {
            assert forall|i: int, j: int| 0 <= i < j < s.take(k).len() implies name_lt(
                #[trigger] s.take(k)[i].service,
                #[trigger] s.take(k)[j].service,
            ) by {
                assert(s.take(k)[i] == s[i] && s.take(k)[j] == s[j]);
            }
        }
        lemma_entries_map_push(s.take(k - 1), s[k - 1]);
    }
}

} // verus!
