use secure_signer::deposit::{
    assemble_deposit_data, build_deposit_message, parse_execution_address, parse_fork_version,
    parse_public_key_hex, prepare_deposit, withdrawal_credentials, DepositError,
    EXECUTION_WITHDRAWAL_PREFIX, FULL_DEPOSIT_AMOUNT_GWEI,
};
use secure_signer::gateway::KeyStore;

fn pk(tag: u8) -> Vec<u8> {
    let mut v = vec![0u8; 48];
    v[0] = tag;
    v
}

#[test]
fn credentials_are_prefix_padding_then_address() {
    let addr: Vec<u8> = (1..=20).collect();
    let w = withdrawal_credentials(&addr).expect("valid address refused");
    assert_eq!(w.len(), 32);
    assert_eq!(w[0], EXECUTION_WITHDRAWAL_PREFIX);
    assert!(w[1..12].iter().all(|b| *b == 0));
    assert_eq!(&w[12..], addr.as_slice());
}

#[test]
fn short_address_is_invalid() {
    let addr = vec![1u8; 19];
    assert_eq!(
        withdrawal_credentials(&addr),
        Err(DepositError::InvalidAddress)
    );
}

#[test]
fn long_address_is_invalid() {
    let addr = vec![1u8; 21];
    assert_eq!(
        build_deposit_message(&pk(1), &addr).unwrap_err(),
        DepositError::InvalidAddress
    );
}

#[test]
fn address_parsing_accepts_mixed_case_with_marker() {
    let parsed = parse_execution_address("0xAbCdAbCdAbCdAbCdAbCdAbCdAbCdAbCdAbCdAbCd")
        .expect("twenty-byte address refused");
    assert_eq!(parsed, vec![0xAB, 0xCD].repeat(10));
}

#[test]
fn address_parsing_accepts_bare_hex() {
    let parsed = parse_execution_address("00112233445566778899aabbccddeeff00112233")
        .expect("twenty-byte address refused");
    assert_eq!(parsed.len(), 20);
    assert_eq!(parsed[0], 0x00);
    assert_eq!(parsed[19], 0x33);
}

#[test]
fn address_parsing_rejects_wrong_length_and_bad_digits() {
    assert_eq!(
        parse_execution_address("0xabcd"),
        Err(DepositError::InvalidAddress)
    );
    assert_eq!(
        parse_execution_address("0xZZCdAbCdAbCdAbCdAbCdAbCdAbCdAbCdAbCdAbCd"),
        Err(DepositError::InvalidAddress)
    );
}

#[test]
fn public_key_parsing_wants_forty_eight_bytes() {
    let hex96: String = "ab".repeat(48);
    let parsed = parse_public_key_hex(&format!("0x{hex96}")).expect("valid key refused");
    assert_eq!(parsed, vec![0xAB; 48]);
    assert_eq!(parse_public_key_hex("0xabcd"), None);
}

#[test]
fn fork_version_parsing_wants_four_bytes() {
    assert_eq!(parse_fork_version("0x00000000"), Some(vec![0, 0, 0, 0]));
    assert_eq!(parse_fork_version("0x000000"), None);
    assert_eq!(parse_fork_version("0x0000000g"), None);
}

#[test]
fn deposit_scenario_after_key_generation() {
    let mut store = KeyStore::new();
    let key = pk(1);
    store.generate_key(key.clone()).expect("fresh key refused");

    let addr = parse_execution_address("0xAbCdAbCdAbCdAbCdAbCdAbCdAbCdAbCdAbCdAbCd")
        .expect("twenty-byte address refused");
    let fork = parse_fork_version("0x00000000");
    let message = prepare_deposit(&store, &key, &addr, &fork).expect("valid request refused");

    assert_eq!(message.pubkey, key);
    assert_eq!(message.amount, FULL_DEPOSIT_AMOUNT_GWEI);
    assert_eq!(message.withdrawal_credentials[0], EXECUTION_WITHDRAWAL_PREFIX);
    assert!(message.withdrawal_credentials[1..12].iter().all(|b| *b == 0));
    assert_eq!(&message.withdrawal_credentials[12..], addr.as_slice());

    let signature = vec![0x55u8; 96];
    let root = vec![0x66u8; 32];
    let data = assemble_deposit_data(message, signature.clone(), root.clone());
    assert_eq!(data.pubkey, key);
    assert_eq!(data.amount, FULL_DEPOSIT_AMOUNT_GWEI);
    assert_eq!(data.signature, signature);
    assert_eq!(data.deposit_data_root, root);
}

#[test]
fn deposit_for_unknown_key_is_rejected() {
    let store = KeyStore::new();
    let addr = vec![2u8; 20];
    let fork = Some(vec![0, 0, 0, 0]);
    assert_eq!(
        prepare_deposit(&store, &pk(1), &addr, &fork).unwrap_err(),
        DepositError::UnknownKey
    );
}

#[test]
fn deposit_without_fork_version_is_rejected() {
    let mut store = KeyStore::new();
    let key = pk(1);
    store.generate_key(key.clone()).expect("fresh key refused");
    let addr = vec![2u8; 20];
    assert_eq!(
        prepare_deposit(&store, &key, &addr, &None).unwrap_err(),
        DepositError::ConfigMissing
    );
}

#[test]
fn bad_address_is_rejected_before_the_gateway_is_consulted() {
    let store = KeyStore::new();
    let addr = vec![2u8; 19];
    let fork = Some(vec![0, 0, 0, 0]);
    assert_eq!(
        prepare_deposit(&store, &pk(1), &addr, &fork).unwrap_err(),
        DepositError::InvalidAddress
    );
}
