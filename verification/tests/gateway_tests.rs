use secure_signer::gateway::{GatewayError, ImportError, KeyStore};
use secure_signer::ledger::{LedgerEntry, SlashProtectionRecord, Watermark};

fn pk(tag: u8) -> Vec<u8> {
    let mut v = vec![0u8; 48];
    v[0] = tag;
    v
}

fn ledger_for(public_key: &[u8], slot: u64, epoch: u64) -> SlashProtectionRecord {
    SlashProtectionRecord {
        public_key: public_key.to_vec(),
        entries: vec![LedgerEntry {
            validator_index: 7,
            mark: Watermark { slot, epoch },
        }],
    }
}

fn mark_for(store: &KeyStore, public_key: &[u8], validator_index: u64) -> Watermark {
    store
        .keys
        .iter()
        .find(|r| r.public_key == public_key)
        .expect("key not held")
        .entries
        .iter()
        .find(|e| e.validator_index == validator_index)
        .expect("validator index not recorded")
        .mark
}

#[test]
fn generated_key_is_listed_exactly_once() {
    let mut store = KeyStore::new();
    store.generate_key(pk(1)).expect("fresh key refused");
    store.generate_key(pk(2)).expect("fresh key refused");
    let listed = store.list_keys();
    let occurrences = listed.iter().filter(|k| **k == pk(1)).count();
    assert_eq!(occurrences, 1);
}

#[test]
fn generating_the_same_key_twice_is_refused() {
    let mut store = KeyStore::new();
    store.generate_key(pk(1)).expect("fresh key refused");
    assert_eq!(store.generate_key(pk(1)), Err(GatewayError::DuplicateKey));
    assert_eq!(store.list_keys().len(), 1);
}

#[test]
fn import_without_ledger_is_rejected() {
    let mut store = KeyStore::new();
    assert_eq!(
        store.import_key(pk(1), None),
        Err(ImportError::LedgerRequired)
    );
    assert!(store.list_keys().is_empty());
}

#[test]
fn import_with_mismatched_record_key_is_rejected() {
    let mut store = KeyStore::new();
    let ledger = ledger_for(&pk(2), 10, 1);
    assert_eq!(
        store.import_key(pk(1), Some(ledger)),
        Err(ImportError::RecordKeyMismatch)
    );
    assert!(store.list_keys().is_empty());
}

#[test]
fn import_succeeds_when_watermarks_do_not_regress() {
    let mut store = KeyStore::new();
    let key = pk(1);
    store
        .import_key(key.clone(), Some(ledger_for(&key, 100, 4)))
        .expect("first import refused");
    store
        .import_key(key.clone(), Some(ledger_for(&key, 120, 5)))
        .expect("higher watermark refused");
    assert_eq!(mark_for(&store, &key, 7), Watermark { slot: 120, epoch: 5 });
}

#[test]
fn import_with_lower_watermark_is_a_continuity_violation() {
    let mut store = KeyStore::new();
    let key = pk(1);
    store
        .import_key(key.clone(), Some(ledger_for(&key, 100, 4)))
        .expect("first import refused");
    assert_eq!(
        store.import_key(key.clone(), Some(ledger_for(&key, 50, 4))),
        Err(ImportError::ContinuityViolation)
    );
    assert_eq!(mark_for(&store, &key, 7), Watermark { slot: 100, epoch: 4 });
}

#[test]
fn import_merges_componentwise_maximum() {
    let mut store = KeyStore::new();
    let key = pk(1);
    let first = SlashProtectionRecord {
        public_key: key.clone(),
        entries: vec![
            LedgerEntry {
                validator_index: 7,
                mark: Watermark { slot: 100, epoch: 4 },
            },
            LedgerEntry {
                validator_index: 8,
                mark: Watermark { slot: 10, epoch: 1 },
            },
        ],
    };
    let second = SlashProtectionRecord {
        public_key: key.clone(),
        entries: vec![LedgerEntry {
            validator_index: 7,
            mark: Watermark { slot: 100, epoch: 9 },
        }],
    };
    store
        .import_key(key.clone(), Some(first))
        .expect("first import refused");
    store
        .import_key(key.clone(), Some(second))
        .expect("second import refused");
    assert_eq!(mark_for(&store, &key, 7), Watermark { slot: 100, epoch: 9 });
    assert_eq!(mark_for(&store, &key, 8), Watermark { slot: 10, epoch: 1 });
}

#[test]
fn signing_is_gated_on_held_keys() {
    let mut store = KeyStore::new();
    store.generate_key(pk(1)).expect("fresh key refused");
    assert!(store.sign_allowed(&pk(1)).is_ok());
    assert_eq!(store.sign_allowed(&pk(2)), Err(GatewayError::UnknownKey));
}

#[test]
fn holds_reports_membership() {
    let mut store = KeyStore::new();
    assert!(!store.holds(&pk(1)));
    store.generate_key(pk(1)).expect("fresh key refused");
    assert!(store.holds(&pk(1)));
}
