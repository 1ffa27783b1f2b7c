//! A model of the key custody gateway's observable state: which public
//! keys it holds and which safety ledger each carries. Key generation and
//! import mutate it atomically; listing and the signing guard read it.

use vstd::prelude::*;
use crate::ledger::{
    LedgerEntry, SlashProtectionRecord, unique_indices, has_index, mark_of, mark_geq, merged_ok,
    continuity_ok, merge_entries, check_continuity, record_matches_key, bytes_eq, clone_bytes,
    lemma_merge_monotone,
};

verus! {

/// One held key: its public key and its recorded safety ledger.
#[derive(Clone, Debug)]
pub struct KeyRecord {
    pub public_key: Vec<u8>,
    pub entries: Vec<LedgerEntry>,
}

/// The gateway's key store: all held keys, each with its ledger.
#[derive(Debug)]
pub struct KeyStore {
    pub keys: Vec<KeyRecord>,
}

/// Errors of the import protocol.
#[derive(Debug, Clone, PartialEq, Eq)]
pub enum ImportError {
    /// The safety ledger names a different public key than the keystore.
    RecordKeyMismatch,
    /// No safety ledger was supplied; the import is rejected rather than
    /// guessing a watermark.
    LedgerRequired,
    /// The supplied ledger would lower a recorded watermark.
    ContinuityViolation,
}

/// Errors of the gateway's other mutating and signing operations.
#[derive(Debug, Clone, PartialEq, Eq)]
pub enum GatewayError {
    /// The requested public key is not held.
    UnknownKey,
    /// A freshly generated key collided with one already held.
    DuplicateKey,
}

/// Well-formed store: public keys are pairwise distinct, and every
/// ledger's validator indices are unique.
pub open spec fn store_wf(s: Seq<KeyRecord>) -> bool {
    &&& forall|i: int, j: int|
        0 <= i < s.len() && 0 <= j < s.len() && i != j ==> (#[trigger] s[i]).public_key@ != (
        #[trigger] s[j]).public_key@
    &&& forall|i: int| 0 <= i < s.len() ==> unique_indices((#[trigger] s[i]).entries@)
}

/// Whether the store holds this public key.
pub open spec fn holds_key(s: Seq<KeyRecord>, pk: Seq<u8>) -> bool {
    exists|i: int| 0 <= i < s.len() && (#[trigger] s[i]).public_key@ == pk
}

/// The ledger recorded for a held public key (meaningful when held and
/// the store is well formed).
pub open spec fn ledger_of(s: Seq<KeyRecord>, pk: Seq<u8>) -> Seq<LedgerEntry> {
    s[choose|i: int| 0 <= i < s.len() && (#[trigger] s[i]).public_key@ == pk].entries@
}

/// The public keys of a store, in held order.
pub open spec fn listed_keys(s: Seq<KeyRecord>) -> Seq<Seq<u8>> {
    Seq::new(s.len(), |i: int| s[i].public_key@)
}

/// How often a public key occurs in a listing.
pub open spec fn count_key(keys: Seq<Seq<u8>>, pk: Seq<u8>) -> nat
    decreases keys.len(),
{
    if keys.len() == 0 {
        0
    } else {
        count_key(keys.drop_last(), pk) + if keys.last() == pk {
            1nat
        } else {
            0nat
        }
    }
}

/// With a well-formed store, the record at a position is the record
/// `ledger_of` speaks about.
pub proof fn lemma_key_at(s: Seq<KeyRecord>, i: int)
    requires
        store_wf(s),
        0 <= i < s.len(),
    ensures
        holds_key(s, s[i].public_key@),
        ledger_of(s, s[i].public_key@) == s[i].entries@,
{
    let pk = s[i].public_key@;
    assert(holds_key(s, pk));
    let j = choose|j: int| 0 <= j < s.len() && (#[trigger] s[j]).public_key@ == pk;
    assert(j == i);
}

/// Pushing a record with a fresh public key keeps the store well formed,
/// adds just that key, and leaves every other ledger as it was.
pub proof fn lemma_store_push_fresh(s: Seq<KeyRecord>, r: KeyRecord)
    requires
        store_wf(s),
        !holds_key(s, r.public_key@),
        unique_indices(r.entries@),
    ensures
        store_wf(s.push(r)),
        forall|q: Seq<u8>| #[trigger] holds_key(s.push(r), q) <==> holds_key(s, q) || q == r.public_key@,
        ledger_of(s.push(r), r.public_key@) == r.entries@,
        forall|q: Seq<u8>|
            holds_key(s, q) && q != r.public_key@ ==> #[trigger] ledger_of(s.push(r), q)
                == ledger_of(s, q),
{
    let t = s.push(r);
    assert forall|i: int, j: int|
        0 <= i < t.len() && 0 <= j < t.len() && i != j implies (#[trigger] t[i]).public_key@ != (
        #[trigger] t[j]).public_key@ by {
        if i < s.len() && j < s.len() {
        } else if i == s.len() {
            assert(t[j] == s[j]);
            assert(t[i] == r);
            if t[j].public_key@ == r.public_key@ {
                assert(holds_key(s, r.public_key@));
            }
        } else {
            assert(t[i] == s[i]);
            assert(t[j] == r);
            if t[i].public_key@ == r.public_key@ {
                assert(holds_key(s, r.public_key@));
            }
        }
    }
    assert forall|q: Seq<u8>| #[trigger] holds_key(t, q) implies holds_key(s, q) || q
        == r.public_key@ by {
        let i = choose|i: int| 0 <= i < t.len() && (#[trigger] t[i]).public_key@ == q;
        if i < s.len() {
            assert(s[i].public_key@ == q);
        }
    }
    assert forall|q: Seq<u8>| holds_key(s, q) || q == r.public_key@ implies #[trigger] holds_key(
        t,
        q,
    ) by {
        if holds_key(s, q) {
            let i = choose|i: int| 0 <= i < s.len() && (#[trigger] s[i]).public_key@ == q;
            assert(t[i].public_key@ == q);
        } else {
            assert(t[s.len() as int].public_key@ == q);
        }
    }
    assert(ledger_of(t, r.public_key@) == r.entries@) by {
        assert(t[s.len() as int].public_key@ == r.public_key@);
        assert(holds_key(t, r.public_key@));
        let i = choose|i: int|
            0 <= i < t.len() && (#[trigger] t[i]).public_key@ == r.public_key@;
        if i < s.len() {
            assert(t[i] == s[i]);
            assert(holds_key(s, r.public_key@));
        }
    }
    assert forall|q: Seq<u8>| holds_key(s, q) && q != r.public_key@ implies #[trigger] ledger_of(
        t,
        q,
    ) == ledger_of(s, q) by {
        let i = choose|i: int| 0 <= i < t.len() && (#[trigger] t[i]).public_key@ == q;
        let j = choose|j: int| 0 <= j < s.len() && (#[trigger] s[j]).public_key@ == q;
        assert(t[j].public_key@ == q);
        assert(i < s.len());
        assert(t[i] == s[i]);
        assert(i == j);
    }
}

/// Replacing a held record's ledger (same public key) keeps the store
/// well formed, holds the same keys, and changes only that ledger.
pub proof fn lemma_store_update(s: Seq<KeyRecord>, p: int, r: KeyRecord)
    requires
        store_wf(s),
        0 <= p < s.len(),
        r.public_key@ == s[p].public_key@,
        unique_indices(r.entries@),
    ensures
        store_wf(s.update(p, r)),
        forall|q: Seq<u8>| #[trigger] holds_key(s.update(p, r), q) <==> holds_key(s, q),
        ledger_of(s.update(p, r), r.public_key@) == r.entries@,
        forall|q: Seq<u8>|
            holds_key(s, q) && q != r.public_key@ ==> #[trigger] ledger_of(s.update(p, r), q)
                == ledger_of(s, q),
{
    let t = s.update(p, r);
    assert forall|i: int, j: int|
        0 <= i < t.len() && 0 <= j < t.len() && i != j implies (#[trigger] t[i]).public_key@ != (
        #[trigger] t[j]).public_key@ by {
        assert(t[i].public_key@ == s[i].public_key@ || i == p);
        assert(t[j].public_key@ == s[j].public_key@ || j == p);
    }
    assert forall|q: Seq<u8>| #[trigger] holds_key(t, q) implies holds_key(s, q) by {
        let i = choose|i: int| 0 <= i < t.len() && (#[trigger] t[i]).public_key@ == q;
        assert(s[i].public_key@ == q || i == p);
        if i == p {
            assert(s[p].public_key@ == q);
        }
    }
    assert forall|q: Seq<u8>| holds_key(s, q) implies #[trigger] holds_key(t, q) by {
        let i = choose|i: int| 0 <= i < s.len() && (#[trigger] s[i]).public_key@ == q;
        if i == p {
            assert(t[p].public_key@ == q);
        } else {
            assert(t[i].public_key@ == q);
        }
    }
    assert(ledger_of(t, r.public_key@) == r.entries@) by {
        assert(t[p].public_key@ == r.public_key@);
        assert(holds_key(t, r.public_key@));
        let i = choose|i: int|
            0 <= i < t.len() && (#[trigger] t[i]).public_key@ == r.public_key@;
        if i != p {
            assert(t[i] == s[i]);
            assert(s[i].public_key@ == s[p].public_key@);
        }
    }
    assert forall|q: Seq<u8>| holds_key(s, q) && q != r.public_key@ implies #[trigger] ledger_of(
        t,
        q,
    ) == ledger_of(s, q) by {
        assert(holds_key(t, q));
        let i = choose|i: int| 0 <= i < t.len() && (#[trigger] t[i]).public_key@ == q;
        let j = choose|j: int| 0 <= j < s.len() && (#[trigger] s[j]).public_key@ == q;
        if i == p {
            assert(t[p] == r);
        }
        assert(i != p);
        assert(t[i] == s[i]);
        if j == p {
            assert(s[p].public_key@ == q);
        }
        assert(i == j);
    }
}

/// A key no listing position carries occurs zero times.
proof fn lemma_count_absent(keys: Seq<Seq<u8>>, pk: Seq<u8>)
    requires
        forall|i: int| 0 <= i < keys.len() ==> #[trigger] keys[i] != pk,
    ensures
        count_key(keys, pk) == 0,
    decreases keys.len(),
{
    if keys.len() > 0 {
        lemma_count_absent(keys.drop_last(), pk);
    }
}

/// Round trip of generation and listing: a held key of a well-formed
/// store appears in the listing exactly once.
pub proof fn lemma_held_key_listed_once(s: Seq<KeyRecord>, pk: Seq<u8>)
    requires
        store_wf(s),
        holds_key(s, pk),
    ensures
        count_key(listed_keys(s), pk) == 1,
    decreases s.len(),
{
    let l = listed_keys(s);
    assert(s.len() > 0);
    let rest = s.drop_last();
    assert(listed_keys(rest) =~= l.drop_last());
    if s.last().public_key@ == pk {
        assert forall|i: int| 0 <= i < l.drop_last().len() implies #[trigger] l.drop_last()[i]
            != pk by {
            assert(l.drop_last()[i] == s[i].public_key@);
            assert(s[i].public_key@ != s[s.len() - 1].public_key@);
        }
        lemma_count_absent(l.drop_last(), pk);
        assert(l.last() == pk);
    } else {
        let i = choose|i: int| 0 <= i < s.len() && (#[trigger] s[i]).public_key@ == pk;
        assert(i < s.len() - 1);
        assert(rest[i].public_key@ == pk);
        assert(holds_key(rest, pk));
        lemma_held_key_listed_once(rest, pk);
        assert(l.last() != pk);
    }
}

impl KeyStore {
    /// An empty store.
    pub fn new() -> (s: Self)
        ensures
            store_wf(s.keys@),
            s.keys@.len() == 0,
    {
        KeyStore { keys: Vec::new() }
    }

    /// The position of a held public key, if any.
    fn find_key(&self, public_key: &Vec<u8>) -> (r: Option<usize>)
        ensures
            match r {
                Some(i) => i < self.keys@.len() && self.keys@[i as int].public_key@
                    == public_key@,
                None => !holds_key(self.keys@, public_key@),
            },
    {
        let mut i: usize = 0;
        while i < self.keys.len()
            invariant
                i <= self.keys@.len(),
                forall|t: int| 0 <= t < i ==> (#[trigger] self.keys@[t]).public_key@ != public_key@,
            decreases self.keys@.len() - i,
        {
            if bytes_eq(&self.keys[i].public_key, public_key) {
                return Some(i);
            }
            i = i + 1;
        }
        proof {
            if holds_key(self.keys@, public_key@) {
                let t = choose|t: int|
                    0 <= t < self.keys@.len() && (#[trigger] self.keys@[t]).public_key@
                        == public_key@;
            }
        }
        None
    }

    /// Whether the store holds this public key.
    pub fn holds(&self, public_key: &Vec<u8>) -> (r: bool)
        ensures
            r == holds_key(self.keys@, public_key@),
    {
        match self.find_key(public_key) {
            Some(i) => {
                proof {
                    assert(holds_key(self.keys@, public_key@));
                }
                true
            },
            None => false,
        }
    }

    /// Records a freshly generated key with an empty ledger. The fresh
    /// public key comes from the enclave's key generation; if it collides
    /// with a held key the store is left unchanged, since a handle's
    /// secret must never be reused.
    pub fn generate_key(&mut self, fresh_public_key: Vec<u8>) -> (r: Result<(), GatewayError>)
        requires
            store_wf(old(self).keys@),
        ensures
            store_wf(final(self).keys@),
            match r {
                Ok(()) => !holds_key(old(self).keys@, fresh_public_key@) && (forall|q: Seq<u8>|
                    #[trigger] holds_key(final(self).keys@, q) <==> holds_key(old(self).keys@, q)
                        || q == fresh_public_key@) && ledger_of(
                    final(self).keys@,
                    fresh_public_key@,
                ) =~= Seq::<LedgerEntry>::empty() && (forall|q: Seq<u8>|
                    holds_key(old(self).keys@, q) && q != fresh_public_key@
                        ==> #[trigger] ledger_of(final(self).keys@, q) == ledger_of(
                        old(self).keys@,
                        q,
                    )),
                Err(e) => e == GatewayError::DuplicateKey && holds_key(
                    old(self).keys@,
                    fresh_public_key@,
                ) && final(self).keys@ == old(self).keys@,
            },
    {
        match self.find_key(&fresh_public_key) {
            Some(_) => {
                proof {
                    assert(holds_key(self.keys@, fresh_public_key@));
                }
                Err(GatewayError::DuplicateKey)
            },
            None => {
                let ghost s_old = self.keys@;
                let record = KeyRecord { public_key: fresh_public_key, entries: Vec::new() };
                proof {
                    lemma_store_push_fresh(s_old, record);
                }
                self.keys.push(record);
                Ok(())
            },
        }
    }

    /// A snapshot of all held public keys.
    pub fn list_keys(&self) -> (r: Vec<Vec<u8>>)
        ensures
            r@.len() == self.keys@.len(),
            forall|i: int| 0 <= i < r@.len() ==> #[trigger] r@[i]@ == listed_keys(self.keys@)[i],
    {
        let mut r: Vec<Vec<u8>> = Vec::new();
        let mut i: usize = 0;
        while i < self.keys.len()
            invariant
                i <= self.keys@.len(),
                r@.len() == i,
                forall|t: int| 0 <= t < i ==> #[trigger] r@[t]@ == self.keys@[t].public_key@,
            decreases self.keys@.len() - i,
        {
            r.push(clone_bytes(&self.keys[i].public_key));
            i = i + 1;
        }
        r
    }

    /// Imports a key and its safety ledger as one atomic step. The import
    /// is rejected outright when no ledger is supplied, when the ledger
    /// names a different public key, or when it would lower a recorded
    /// watermark; on rejection the store is unchanged. On success the
    /// key's ledger becomes the componentwise-maximum merge of the
    /// existing and the supplied one, and nothing else moves. Watermarks
    /// never decrease, whatever the outcome.
    pub fn import_key(
        &mut self,
        public_key: Vec<u8>,
        safety_ledger: Option<SlashProtectionRecord>,
    ) -> (r: Result<(), ImportError>)
        requires
            store_wf(old(self).keys@),
            old(self).keys@.len() < usize::MAX,
            safety_ledger matches Some(rec) ==> unique_indices(rec.entries@),
        ensures
            store_wf(final(self).keys@),
            match r {
                Ok(()) => safety_ledger matches Some(rec) && {
                    &&& rec.public_key@ == public_key@
                    &&& holds_key(final(self).keys@, public_key@)
                    &&& forall|q: Seq<u8>|
                        #[trigger] holds_key(final(self).keys@, q) <==> holds_key(
                            old(self).keys@,
                            q,
                        ) || q == public_key@
                    &&& holds_key(old(self).keys@, public_key@) ==> continuity_ok(
                        ledger_of(old(self).keys@, public_key@),
                        rec.entries@,
                    ) && merged_ok(
                        ledger_of(old(self).keys@, public_key@),
                        rec.entries@,
                        ledger_of(final(self).keys@, public_key@),
                    )
                    &&& !holds_key(old(self).keys@, public_key@) ==> ledger_of(
                        final(self).keys@,
                        public_key@,
                    ) == rec.entries@
                    &&& forall|q: Seq<u8>|
                        holds_key(old(self).keys@, q) && q != public_key@ ==> #[trigger] ledger_of(
                            final(self).keys@,
                            q,
                        ) == ledger_of(old(self).keys@, q)
                },
                Err(e) => final(self).keys@ == old(self).keys@ && match e {
                    ImportError::LedgerRequired => safety_ledger is None,
                    ImportError::RecordKeyMismatch => safety_ledger matches Some(rec)
                        && rec.public_key@ != public_key@,
                    ImportError::ContinuityViolation => safety_ledger matches Some(rec)
                        && rec.public_key@ == public_key@ && holds_key(
                        old(self).keys@,
                        public_key@,
                    ) && !continuity_ok(ledger_of(old(self).keys@, public_key@), rec.entries@),
                },
            },
            forall|q: Seq<u8>, k: u64|
                holds_key(old(self).keys@, q) && #[trigger] has_index(
                    ledger_of(old(self).keys@, q),
                    k,
                ) ==> holds_key(final(self).keys@, q) && has_index(
                    ledger_of(final(self).keys@, q),
                    k,
                ) && mark_geq(
                    mark_of(ledger_of(final(self).keys@, q), k),
                    mark_of(ledger_of(old(self).keys@, q), k),
                ),
    {
        let rec = match safety_ledger {
            Some(rec) => rec,
            None => {
                return Err(ImportError::LedgerRequired);
            },
        };
        if !record_matches_key(&rec, &public_key) {
            return Err(ImportError::RecordKeyMismatch);
        }
        match self.find_key(&public_key) {
            Some(p) => {
                proof {
                    lemma_key_at(self.keys@, p as int);
                }
                if !check_continuity(&self.keys[p].entries, &rec.entries) {
                    return Err(ImportError::ContinuityViolation);
                }
                let merged = merge_entries(&self.keys[p].entries, &rec.entries);
                let ghost s_old = self.keys@;
                let ghost merged_view = merged@;
                let old_rec = self.keys.remove(p);
                let new_rec = KeyRecord { public_key: old_rec.public_key, entries: merged };
                let ghost nr = new_rec;
                self.keys.insert(p, new_rec);
                proof {
                    assert(self.keys@ =~= s_old.update(p as int, nr));
                    lemma_store_update(s_old, p as int, nr);
                    lemma_merge_monotone(
                        ledger_of(s_old, public_key@),
                        rec.entries@,
                        merged_view,
                    );
                    assert forall|q: Seq<u8>, k: u64|
                        holds_key(s_old, q) && #[trigger] has_index(
                            ledger_of(s_old, q),
                            k,
                        ) implies holds_key(self.keys@, q) && has_index(
                        ledger_of(self.keys@, q),
                        k,
                    ) && mark_geq(
                        mark_of(ledger_of(self.keys@, q), k),
                        mark_of(ledger_of(s_old, q), k),
                    ) by {
                        if q == public_key@ {
                            assert(ledger_of(self.keys@, q) == merged_view);
                        } else {
                            assert(ledger_of(self.keys@, q) == ledger_of(s_old, q));
                        }
                    }
                }
                Ok(())
            },
            None => {
                let ghost s_old = self.keys@;
                let record = KeyRecord { public_key, entries: rec.entries };
                proof {
                    lemma_store_push_fresh(s_old, record);
                }
                self.keys.push(record);
                Ok(())
            },
        }
    }

    /// Whether the signing operation may proceed: signing is allowed
    /// exactly for held keys.
    pub fn sign_allowed(&self, public_key: &Vec<u8>) -> (r: Result<(), GatewayError>)
        ensures
            r is Ok <==> holds_key(self.keys@, public_key@),
            r is Err ==> r->Err_0 == GatewayError::UnknownKey,
    {
        if self.holds(public_key) {
            Ok(())
        } else {
            Err(GatewayError::UnknownKey)
        }
    }
}

} // verus!

