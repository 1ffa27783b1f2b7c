//! Slashing-protection ledgers: per-validator-index signing watermarks,
//! their monotone merge, and the continuity condition imports must meet.

use vstd::prelude::*;

verus! {

/// The highest (slot, epoch) a validator index has ever signed.
#[derive(Clone, Copy, Debug, PartialEq, Eq, Structural)]
pub struct Watermark {
    pub slot: u64,
    pub epoch: u64,
}

/// One ledger line: a validator index and its watermark.
#[derive(Clone, Copy, Debug, PartialEq, Eq, Structural)]
pub struct LedgerEntry {
    pub validator_index: u64,
    pub mark: Watermark,
}

/// A safety ledger: the watermarks recorded for one public key.
#[derive(Clone, Debug)]
pub struct SlashProtectionRecord {
    pub public_key: Vec<u8>,
    pub entries: Vec<LedgerEntry>,
}

/// Whether no validator index occurs twice.
pub open spec fn unique_indices(s: Seq<LedgerEntry>) -> bool {
    forall|i: int, j: int|
        0 <= i < s.len() && 0 <= j < s.len() && i != j ==> (#[trigger] s[i]).validator_index != (
        #[trigger] s[j]).validator_index
}

/// Whether some entry carries this validator index.
pub open spec fn has_index(s: Seq<LedgerEntry>, k: u64) -> bool {
    exists|i: int| 0 <= i < s.len() && (#[trigger] s[i]).validator_index == k
}

/// The watermark recorded for a validator index (meaningful when present
/// and the indices are unique).
pub open spec fn mark_of(s: Seq<LedgerEntry>, k: u64) -> Watermark {
    s[choose|i: int| 0 <= i < s.len() && (#[trigger] s[i]).validator_index == k].mark
}

/// Componentwise comparison: `a` is at least as high as `b`.
pub open spec fn mark_geq(a: Watermark, b: Watermark) -> bool {
    a.slot >= b.slot && a.epoch >= b.epoch
}

/// Componentwise maximum of two watermarks.
pub open spec fn mark_max(a: Watermark, b: Watermark) -> Watermark {
    Watermark {
        slot: if a.slot >= b.slot {
            a.slot
        } else {
            b.slot
        },
        epoch: if a.epoch >= b.epoch {
            a.epoch
        } else {
            b.epoch
        },
    }
}

/// What a correct merge of two ledgers looks like: the index set is the
/// union, and each index carries the componentwise maximum of the
/// watermarks the two sides recorded for it.
pub open spec fn merged_ok(a: Seq<LedgerEntry>, b: Seq<LedgerEntry>, m: Seq<LedgerEntry>) -> bool {
    &&& unique_indices(m)
    &&& forall|k: u64| #[trigger] has_index(m, k) <==> has_index(a, k) || has_index(b, k)
    &&& forall|k: u64|
        has_index(a, k) && has_index(b, k) ==> #[trigger] mark_of(m, k) == mark_max(
            mark_of(a, k),
            mark_of(b, k),
        )
    &&& forall|k: u64|
        has_index(a, k) && !has_index(b, k) ==> #[trigger] mark_of(m, k) == mark_of(a, k)
    &&& forall|k: u64|
        !has_index(a, k) && has_index(b, k) ==> #[trigger] mark_of(m, k) == mark_of(b, k)
}

/// The continuity condition for importing `incoming` over `existing`:
/// wherever both record a watermark for an index, the incoming one is at
/// least as high.
pub open spec fn continuity_ok(existing: Seq<LedgerEntry>, incoming: Seq<LedgerEntry>) -> bool {
    forall|k: u64|
        #[trigger] has_index(existing, k) && has_index(incoming, k) ==> mark_geq(
            mark_of(incoming, k),
            mark_of(existing, k),
        )
}

/// With unique indices, the entry at a position is the entry `mark_of`
/// speaks about.
pub proof fn lemma_mark_at(s: Seq<LedgerEntry>, i: int)
    requires
        unique_indices(s),
        0 <= i < s.len(),
    ensures
        has_index(s, s[i].validator_index),
        mark_of(s, s[i].validator_index) == s[i].mark,
{
    let k = s[i].validator_index;
    assert(has_index(s, k));
    let j = choose|j: int| 0 <= j < s.len() && (#[trigger] s[j]).validator_index == k;
    assert(j == i);
}

/// Pushing an entry with a fresh index keeps the indices unique, adds just
/// that index, and moves no recorded watermark.
pub proof fn lemma_push_fresh(s: Seq<LedgerEntry>, e: LedgerEntry)
    requires
        unique_indices(s),
        !has_index(s, e.validator_index),
    ensures
        unique_indices(s.push(e)),
        forall|k: u64|
            #[trigger] has_index(s.push(e), k) <==> has_index(s, k) || k == e.validator_index,
        mark_of(s.push(e), e.validator_index) == e.mark,
        forall|k: u64|
            has_index(s, k) && k != e.validator_index ==> #[trigger] mark_of(s.push(e), k)
                == mark_of(s, k),
{
    let t = s.push(e);
    assert forall|i: int, j: int|
        0 <= i < t.len() && 0 <= j < t.len() && i != j implies (#[trigger] t[i]).validator_index
        != (#[trigger] t[j]).validator_index by {
        if i < s.len() && j < s.len() {
        } else if i == s.len() {
            assert(t[j] == s[j]);
        } else {
            assert(t[i] == s[i]);
        }
    }
    assert forall|k: u64| #[trigger] has_index(t, k) implies has_index(s, k) || k
        == e.validator_index by {
        let i = choose|i: int| 0 <= i < t.len() && (#[trigger] t[i]).validator_index == k;
        if i < s.len() {
            assert(s[i].validator_index == k);
        }
    }
    assert forall|k: u64| has_index(s, k) || k == e.validator_index implies #[trigger] has_index(
        t,
        k,
    ) by {
        if has_index(s, k) {
            let i = choose|i: int| 0 <= i < s.len() && (#[trigger] s[i]).validator_index == k;
            assert(t[i].validator_index == k);
        } else {
            assert(t[s.len() as int].validator_index == k);
        }
    }
    assert(mark_of(t, e.validator_index) == e.mark) by {
        assert(t[s.len() as int].validator_index == e.validator_index);
        assert(has_index(t, e.validator_index));
        let i = choose|i: int|
            0 <= i < t.len() && (#[trigger] t[i]).validator_index == e.validator_index;
        if i < s.len() {
            assert(t[i] == s[i]);
            assert(s[i].validator_index == e.validator_index);
            assert(has_index(s, e.validator_index));
        }
    }
    assert forall|k: u64| has_index(s, k) && k != e.validator_index implies #[trigger] mark_of(
        t,
        k,
    ) == mark_of(s, k) by {
        let i = choose|i: int| 0 <= i < t.len() && (#[trigger] t[i]).validator_index == k;
        let j = choose|j: int| 0 <= j < s.len() && (#[trigger] s[j]).validator_index == k;
        assert(t[j].validator_index == k);
        assert(i < s.len());
        assert(i == j);
    }
}

/// Finds the position of a validator index in a ledger, if any.
pub fn find_entry(entries: &Vec<LedgerEntry>, k: u64) -> (r: Option<usize>)
    ensures
        match r {
            Some(i) => i < entries@.len() && entries@[i as int].validator_index == k,
            None => !has_index(entries@, k),
        },
{
    let mut i: usize = 0;
    while i < entries.len()
        invariant
            i <= entries@.len(),
            forall|t: int| 0 <= t < i ==> (#[trigger] entries@[t]).validator_index != k,
        decreases entries@.len() - i,
    {
        if entries[i].validator_index == k {
            return Some(i);
        }
        i = i + 1;
    }
    None
}

/// Componentwise maximum, executably.
pub fn watermark_max(a: Watermark, b: Watermark) -> (r: Watermark)
    ensures
        r == mark_max(a, b),
{
    Watermark {
        slot: if a.slot >= b.slot {
            a.slot
        } else {
            b.slot
        },
        epoch: if a.epoch >= b.epoch {
            a.epoch
        } else {
            b.epoch
        },
    }
}

/// Merges two ledgers: union of indices, componentwise-maximum watermark
/// per index.
pub fn merge_entries(a: &Vec<LedgerEntry>, b: &Vec<LedgerEntry>) -> (m: Vec<LedgerEntry>)
    requires
        unique_indices(a@),
        unique_indices(b@),
    ensures
        merged_ok(a@, b@, m@),
{
    let mut m: Vec<LedgerEntry> = Vec::new();
    let mut i: usize = 0;
    while i < a.len()
        invariant
            unique_indices(a@),
            unique_indices(b@),
            i <= a@.len(),
            unique_indices(m@),
            forall|k: u64| #[trigger] has_index(m@, k) <==> has_index(a@.subrange(0, i as int), k),
            forall|k: u64|
                has_index(a@.subrange(0, i as int), k) && has_index(b@, k)
                    ==> #[trigger] mark_of(m@, k) == mark_max(mark_of(a@, k), mark_of(b@, k)),
            forall|k: u64|
                has_index(a@.subrange(0, i as int), k) && !has_index(b@, k)
                    ==> #[trigger] mark_of(m@, k) == mark_of(a@, k),
        decreases a@.len() - i,
    {
        let e = a[i];
        proof {
            lemma_mark_at(a@, i as int);
            assert(!has_index(a@.subrange(0, i as int), e.validator_index)) by {
                if has_index(a@.subrange(0, i as int), e.validator_index) {
                    let t = choose|t: int|
                        0 <= t < i && (#[trigger] a@.subrange(0, i as int)[t]).validator_index
                            == e.validator_index;
                    assert(a@[t].validator_index == e.validator_index);
                }
            }
        }
        let mark = match find_entry(b, e.validator_index) {
            Some(j) => {
                proof {
                    lemma_mark_at(b@, j as int);
                }
                watermark_max(e.mark, b[j].mark)
            },
            None => e.mark,
        };
        let ghost m_old = m@;
        m.push(LedgerEntry { validator_index: e.validator_index, mark });
        proof {
            lemma_push_fresh(m_old, LedgerEntry { validator_index: e.validator_index, mark });
            assert(a@.subrange(0, i + 1 as int) =~= a@.subrange(0, i as int).push(a@[i as int]));
            assert forall|k: u64| #[trigger]
                has_index(a@.subrange(0, i + 1 as int), k) implies has_index(
                a@.subrange(0, i as int),
                k,
            ) || k == e.validator_index by {
                let t = choose|t: int|
                    0 <= t < i + 1 && (#[trigger] a@.subrange(0, i + 1 as int)[t]).validator_index
                        == k;
                if t < i {
                    assert(a@.subrange(0, i as int)[t].validator_index == k);
                }
            }
            assert forall|k: u64| has_index(a@.subrange(0, i as int), k) || k
                == e.validator_index implies #[trigger] has_index(
                a@.subrange(0, i + 1 as int),
                k,
            ) by {
                if has_index(a@.subrange(0, i as int), k) {
                    let t = choose|t: int|
                        0 <= t < i && (#[trigger] a@.subrange(0, i as int)[t]).validator_index
                            == k;
                    assert(a@.subrange(0, i + 1 as int)[t].validator_index == k);
                } else {
                    assert(a@.subrange(0, i + 1 as int)[i as int].validator_index == k);
                }
            }
        }
        i = i + 1;
    }
    proof {
        assert(a@.subrange(0, a@.len() as int) =~= a@);
    }
    let mut j: usize = 0;
    while j < b.len()
        invariant
            unique_indices(a@),
            unique_indices(b@),
            j <= b@.len(),
            unique_indices(m@),
            forall|k: u64|
                #[trigger] has_index(m@, k) <==> has_index(a@, k) || has_index(
                    b@.subrange(0, j as int),
                    k,
                ),
            forall|k: u64|
                has_index(a@, k) && has_index(b@, k) ==> #[trigger] mark_of(m@, k) == mark_max(
                    mark_of(a@, k),
                    mark_of(b@, k),
                ),
            forall|k: u64|
                has_index(a@, k) && !has_index(b@, k) ==> #[trigger] mark_of(m@, k) == mark_of(
                    a@,
                    k,
                ),
            forall|k: u64|
                !has_index(a@, k) && has_index(b@.subrange(0, j as int), k)
                    ==> #[trigger] mark_of(m@, k) == mark_of(b@, k),
        decreases b@.len() - j,
    {
        let e = b[j];
        proof {
            lemma_mark_at(b@, j as int);
            assert(b@.subrange(0, j + 1 as int) =~= b@.subrange(0, j as int).push(b@[j as int]));
            assert forall|k: u64| #[trigger]
                has_index(b@.subrange(0, j + 1 as int), k) implies has_index(
                b@.subrange(0, j as int),
                k,
            ) || k == e.validator_index by {
                let t = choose|t: int|
                    0 <= t < j + 1 && (#[trigger] b@.subrange(0, j + 1 as int)[t]).validator_index
                        == k;
                if t < j {
                    assert(b@.subrange(0, j as int)[t].validator_index == k);
                }
            }
            assert forall|k: u64| has_index(b@.subrange(0, j as int), k) || k
                == e.validator_index implies #[trigger] has_index(
                b@.subrange(0, j + 1 as int),
                k,
            ) by {
                if has_index(b@.subrange(0, j as int), k) {
                    let t = choose|t: int|
                        0 <= t < j && (#[trigger] b@.subrange(0, j as int)[t]).validator_index
                            == k;
                    assert(b@.subrange(0, j + 1 as int)[t].validator_index == k);
                } else {
                    assert(b@.subrange(0, j + 1 as int)[j as int].validator_index == k);
                }
            }
        }
        match find_entry(a, e.validator_index) {
            Some(_) => {
            },
            None => {
                let ghost m_old = m@;
                m.push(e);
                proof {
                    assert(!has_index(m_old, e.validator_index));
                    lemma_push_fresh(m_old, e);
                }
            },
        }
        j = j + 1;
    }
    proof {
        assert(b@.subrange(0, b@.len() as int) =~= b@);
    }
    m
}

/// Checks the continuity condition: every index both ledgers record must
/// carry an incoming watermark at least as high as the existing one.
pub fn check_continuity(existing: &Vec<LedgerEntry>, incoming: &Vec<LedgerEntry>) -> (r: bool)
    requires
        unique_indices(existing@),
        unique_indices(incoming@),
    ensures
        r == continuity_ok(existing@, incoming@),
{
    let mut i: usize = 0;
    while i < existing.len()
        invariant
            unique_indices(existing@),
            unique_indices(incoming@),
            i <= existing@.len(),
            forall|t: int|
                0 <= t < i ==> (has_index(incoming@, (#[trigger] existing@[t]).validator_index)
                    ==> mark_geq(
                    mark_of(incoming@, existing@[t].validator_index),
                    existing@[t].mark,
                )),
        decreases existing@.len() - i,
    {
        let e = existing[i];
        proof {
            lemma_mark_at(existing@, i as int);
        }
        match find_entry(incoming, e.validator_index) {
            Some(j) => {
                proof {
                    lemma_mark_at(incoming@, j as int);
                }
                let inc = incoming[j].mark;
                if !(inc.slot >= e.mark.slot && inc.epoch >= e.mark.epoch) {
                    proof {
                        assert(has_index(existing@, e.validator_index));
                        assert(!mark_geq(mark_of(incoming@, e.validator_index), e.mark));
                    }
                    return false;
                }
            },
            None => {
            },
        }
        i = i + 1;
    }
    proof {
        assert forall|k: u64| #[trigger]
            has_index(existing@, k) && has_index(incoming@, k) implies mark_geq(
            mark_of(incoming@, k),
            mark_of(existing@, k),
        ) by {
            let t = choose|t: int|
                0 <= t < existing@.len() && (#[trigger] existing@[t]).validator_index == k;
            lemma_mark_at(existing@, t);
        }
    }
    true
}

/// Byte-string equality.
pub fn bytes_eq(a: &Vec<u8>, b: &Vec<u8>) -> (r: bool)
    ensures
        r == (a@ == b@),
{
    if a.len() != b.len() {
        return false;
    }
    let mut i: usize = 0;
    while i < a.len()
        invariant
            a@.len() == b@.len(),
            i <= a@.len(),
            forall|t: int| 0 <= t < i ==> a@[t] == b@[t],
        decreases a@.len() - i,
    {
        if a[i] != b[i] {
            return false;
        }
        i = i + 1;
    }
    proof {
        assert(a@ =~= b@);
    }
    true
}

/// Copies a byte string.
pub fn clone_bytes(a: &Vec<u8>) -> (r: Vec<u8>)
    ensures
        r@ == a@,
{
    let mut r: Vec<u8> = Vec::new();
    let mut i: usize = 0;
    while i < a.len()
        invariant
            i <= a@.len(),
            r@ == a@.subrange(0, i as int),
        decreases a@.len() - i,
    {
        r.push(a[i]);
        proof {
            assert(r@ =~= a@.subrange(0, i + 1 as int));
        }
        i = i + 1;
    }
    proof {
        assert(a@.subrange(0, a@.len() as int) =~= a@);
    }
    r
}

/// Whether a supplied safety ledger references the expected public key.
pub fn record_matches_key(record: &SlashProtectionRecord, public_key: &Vec<u8>) -> (r: bool)
    ensures
        r == (record.public_key@ == public_key@),
{
    bytes_eq(&record.public_key, public_key)
}

/// Merging is commutative: merging A over B and B over A record the same
/// indices with the same watermarks.
pub proof fn lemma_merge_commutative(
    a: Seq<LedgerEntry>,
    b: Seq<LedgerEntry>,
    m1: Seq<LedgerEntry>,
    m2: Seq<LedgerEntry>,
)
    requires
        merged_ok(a, b, m1),
        merged_ok(b, a, m2),
    ensures
        forall|k: u64| #[trigger] has_index(m1, k) <==> has_index(m2, k),
        forall|k: u64| #[trigger] has_index(m1, k) ==> mark_of(m1, k) == mark_of(m2, k),
{
}

/// Merging a ledger with itself changes nothing: the same indices carry
/// the same watermarks.
pub proof fn lemma_merge_idempotent(a: Seq<LedgerEntry>, m: Seq<LedgerEntry>)
    requires
        merged_ok(a, a, m),
    ensures
        forall|k: u64| #[trigger] has_index(m, k) <==> has_index(a, k),
        forall|k: u64| #[trigger] has_index(a, k) ==> mark_of(m, k) == mark_of(a, k),
{
}

/// A merge never lowers a watermark: every index the existing ledger
/// records keeps a watermark at least as high after the merge.
pub proof fn lemma_merge_monotone(a: Seq<LedgerEntry>, b: Seq<LedgerEntry>, m: Seq<LedgerEntry>)
    requires
        merged_ok(a, b, m),
    ensures
        forall|k: u64|
            #[trigger] has_index(a, k) ==> has_index(m, k) && mark_geq(mark_of(m, k), mark_of(a, k)),
{
}

} // verus!
