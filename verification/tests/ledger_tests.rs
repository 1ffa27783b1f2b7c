use secure_signer::ledger::{
    check_continuity, find_entry, merge_entries, record_matches_key, watermark_max, LedgerEntry,
    SlashProtectionRecord, Watermark,
};

fn entry(validator_index: u64, slot: u64, epoch: u64) -> LedgerEntry {
    LedgerEntry {
        validator_index,
        mark: Watermark { slot, epoch },
    }
}

#[test]
fn watermark_max_is_componentwise() {
    let m = watermark_max(Watermark { slot: 10, epoch: 3 }, Watermark { slot: 7, epoch: 9 });
    assert_eq!(m.slot, 10);
    assert_eq!(m.epoch, 9);
}

#[test]
fn merge_takes_componentwise_maximum() {
    let a = vec![entry(1, 100, 4), entry(2, 50, 2)];
    let b = vec![entry(1, 90, 7), entry(3, 30, 1)];
    let m = merge_entries(&a, &b);
    assert_eq!(m.len(), 3);
    let at = |k: u64| -> Watermark {
        m.iter()
            .find(|e| e.validator_index == k)
            .expect("index missing after merge")
            .mark
    };
    assert_eq!(at(1), Watermark { slot: 100, epoch: 7 });
    assert_eq!(at(2), Watermark { slot: 50, epoch: 2 });
    assert_eq!(at(3), Watermark { slot: 30, epoch: 1 });
}

#[test]
fn merge_is_commutative_on_values() {
    let a = vec![entry(1, 100, 4), entry(2, 50, 2)];
    let b = vec![entry(1, 90, 7), entry(3, 30, 1)];
    let m1 = merge_entries(&a, &b);
    let m2 = merge_entries(&b, &a);
    assert_eq!(m1.len(), m2.len());
    for e in &m1 {
        let other = m2
            .iter()
            .find(|f| f.validator_index == e.validator_index)
            .expect("index missing from the flipped merge");
        assert_eq!(e.mark, other.mark);
    }
}

#[test]
fn merge_is_idempotent_on_values() {
    let a = vec![entry(1, 100, 4), entry(2, 50, 2)];
    let m = merge_entries(&a, &a);
    assert_eq!(m.len(), a.len());
    for e in &a {
        let merged = m
            .iter()
            .find(|f| f.validator_index == e.validator_index)
            .expect("index missing after self-merge");
        assert_eq!(e.mark, merged.mark);
    }
}

#[test]
fn continuity_holds_when_incoming_is_higher() {
    let existing = vec![entry(1, 100, 4)];
    let incoming = vec![entry(1, 100, 4), entry(2, 5, 1)];
    assert!(check_continuity(&existing, &incoming));
}

#[test]
fn continuity_fails_on_lower_slot() {
    let existing = vec![entry(1, 100, 4)];
    let incoming = vec![entry(1, 99, 4)];
    assert!(!check_continuity(&existing, &incoming));
}

#[test]
fn continuity_fails_on_lower_epoch() {
    let existing = vec![entry(1, 100, 4)];
    let incoming = vec![entry(1, 100, 3)];
    assert!(!check_continuity(&existing, &incoming));
}

#[test]
fn continuity_ignores_indices_only_one_side_has() {
    let existing = vec![entry(1, 100, 4)];
    let incoming = vec![entry(2, 1, 1)];
    assert!(check_continuity(&existing, &incoming));
}

#[test]
fn find_entry_locates_the_index() {
    let a = vec![entry(5, 1, 1), entry(9, 2, 2)];
    assert_eq!(find_entry(&a, 9), Some(1));
    assert_eq!(find_entry(&a, 7), None);
}

#[test]
fn record_key_match_is_exact() {
    let record = SlashProtectionRecord {
        public_key: vec![1, 2, 3],
        entries: vec![],
    };
    assert!(record_matches_key(&record, &vec![1, 2, 3]));
    assert!(!record_matches_key(&record, &vec![1, 2, 4]));
}
