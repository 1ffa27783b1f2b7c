//! Deposit-data construction: withdrawal credentials, the deposit message,
//! and assembly of the final deposit artifact.

use vstd::prelude::*;
use vstd::string::StrSliceExecFns;
use crate::hexcode::{valid_hex_string, spec_hex_decode, hex_decode};
use crate::ledger::clone_bytes;
use crate::gateway::{KeyStore, holds_key};

verus! {

/// Number of bytes in an execution-layer address.
pub const EXECUTION_ADDRESS_LEN: usize = 20;

/// Type prefix byte marking execution-address withdrawal credentials.
pub const EXECUTION_WITHDRAWAL_PREFIX: u8 = 0x01;

/// Number of zero padding bytes between the prefix and the address.
pub const WITHDRAWAL_PADDING_LEN: usize = 11;

/// The protocol's full deposit amount in gwei.
pub const FULL_DEPOSIT_AMOUNT_GWEI: u64 = 32_000_000_000;

/// Errors the deposit builder can report.
#[derive(Debug, Clone, PartialEq, Eq)]
pub enum DepositError {
    /// The execution address was not exactly twenty bytes.
    InvalidAddress,
    /// The network configuration supplied no fork version.
    ConfigMissing,
    /// The gateway does not hold the requested public key.
    UnknownKey,
}

/// The 32-byte credentials derived from a 20-byte execution address:
/// the fixed prefix, eleven zero bytes, then the address.
pub open spec fn spec_withdrawal_credentials(addr: Seq<u8>) -> Seq<u8> {
    seq![EXECUTION_WITHDRAWAL_PREFIX] + Seq::new(WITHDRAWAL_PADDING_LEN as nat, |i: int| 0u8)
        + addr
}

/// Derives withdrawal credentials from an execution address, rejecting any
/// address that is not exactly twenty bytes.
pub fn withdrawal_credentials(execution_address: &Vec<u8>) -> (r: Result<
    Vec<u8>,
    DepositError,
>)
    ensures
        match r {
            Ok(w) => execution_address@.len() == EXECUTION_ADDRESS_LEN && w@
                == spec_withdrawal_credentials(execution_address@),
            Err(e) => execution_address@.len() != EXECUTION_ADDRESS_LEN && e
                == DepositError::InvalidAddress,
        },
{
    if execution_address.len() != EXECUTION_ADDRESS_LEN {
        return Err(DepositError::InvalidAddress);
    }
    let mut w: Vec<u8> = Vec::new();
    w.push(EXECUTION_WITHDRAWAL_PREFIX);
    let mut i: usize = 0;
    while i < WITHDRAWAL_PADDING_LEN
        invariant
            i <= WITHDRAWAL_PADDING_LEN,
            w@.len() == 1 + i,
            w@[0] == EXECUTION_WITHDRAWAL_PREFIX,
            forall|k: int| 1 <= k < w@.len() ==> w@[k] == 0u8,
        decreases WITHDRAWAL_PADDING_LEN - i,
    {
        w.push(0u8);
        i = i + 1;
    }
    let mut j: usize = 0;
    while j < execution_address.len()
        invariant
            j <= execution_address@.len(),
            w@.len() == 1 + WITHDRAWAL_PADDING_LEN + j,
            w@[0] == EXECUTION_WITHDRAWAL_PREFIX,
            forall|k: int| 1 <= k <= WITHDRAWAL_PADDING_LEN ==> w@[k] == 0u8,
            forall|k: int|
                0 <= k < j ==> w@[1 + WITHDRAWAL_PADDING_LEN + k] == execution_address@[k],
        decreases execution_address@.len() - j,
    {
        w.push(execution_address[j]);
        j = j + 1;
    }
    proof {
        assert(w@ =~= spec_withdrawal_credentials(execution_address@));
    }
    Ok(w)
}

/// Number of bytes in a compressed validator public key.
pub const PUBLIC_KEY_LEN: usize = 48;

/// Number of bytes in a fork version.
pub const FORK_VERSION_LEN: usize = 4;

/// A hex string with its optional leading `0x` marker removed.
pub open spec fn strip_hex_prefix(s: Seq<char>) -> Seq<char> {
    if s.len() >= 2 && s[0] == '0' && s[1] == 'x' {
        s.subrange(2, s.len() as int)
    } else {
        s
    }
}

/// Removes a leading `0x`, if present.
fn strip_prefix_exec(s: &str) -> (r: &str)
    ensures
        r@ == strip_hex_prefix(s@),
{
    let n = s.unicode_len();
    if n >= 2 && s.get_char(0) == '0' && s.get_char(1) == 'x' {
        s.substring_char(2, n)
    } else {
        s
    }
}

/// Parses an execution address given in hex, with or without a `0x`
/// marker; anything that does not denote exactly twenty bytes is
/// rejected.
pub fn parse_execution_address(s: &str) -> (r: Result<Vec<u8>, DepositError>)
    ensures
        match r {
            Ok(v) => valid_hex_string(strip_hex_prefix(s@)) && v@ == spec_hex_decode(
                strip_hex_prefix(s@),
            ) && v@.len() == EXECUTION_ADDRESS_LEN,
            Err(e) => e == DepositError::InvalidAddress && !(valid_hex_string(strip_hex_prefix(s@))
                && spec_hex_decode(strip_hex_prefix(s@)).len() == EXECUTION_ADDRESS_LEN),
        },
{
    let stripped = strip_prefix_exec(s);
    match hex_decode(stripped) {
        Some(v) => {
            if v.len() == EXECUTION_ADDRESS_LEN {
                Ok(v)
            } else {
                Err(DepositError::InvalidAddress)
            }
        },
        None => Err(DepositError::InvalidAddress),
    }
}

/// Parses a compressed validator public key given in hex, with or
/// without a `0x` marker; `None` unless it denotes exactly forty-eight
/// bytes.
pub fn parse_public_key_hex(s: &str) -> (r: Option<Vec<u8>>)
    ensures
        match r {
            Some(v) => valid_hex_string(strip_hex_prefix(s@)) && v@ == spec_hex_decode(
                strip_hex_prefix(s@),
            ) && v@.len() == PUBLIC_KEY_LEN,
            None => !(valid_hex_string(strip_hex_prefix(s@)) && spec_hex_decode(
                strip_hex_prefix(s@),
            ).len() == PUBLIC_KEY_LEN),
        },
{
    let stripped = strip_prefix_exec(s);
    match hex_decode(stripped) {
        Some(v) => {
            if v.len() == PUBLIC_KEY_LEN {
                Some(v)
            } else {
                None
            }
        },
        None => None,
    }
}

/// Parses a fork version given in hex, with or without a `0x` marker;
/// `None` unless it denotes exactly four bytes.
pub fn parse_fork_version(s: &str) -> (r: Option<Vec<u8>>)
    ensures
        match r {
            Some(v) => valid_hex_string(strip_hex_prefix(s@)) && v@ == spec_hex_decode(
                strip_hex_prefix(s@),
            ) && v@.len() == FORK_VERSION_LEN,
            None => !(valid_hex_string(strip_hex_prefix(s@)) && spec_hex_decode(
                strip_hex_prefix(s@),
            ).len() == FORK_VERSION_LEN),
        },
{
    let stripped = strip_prefix_exec(s);
    match hex_decode(stripped) {
        Some(v) => {
            if v.len() == FORK_VERSION_LEN {
                Some(v)
            } else {
                None
            }
        },
        None => None,
    }
}

/// The canonical message to be signed for a deposit.
#[derive(Clone, Debug)]
pub struct DepositMessage {
    pub pubkey: Vec<u8>,
    pub withdrawal_credentials: Vec<u8>,
    pub amount: u64,
}

/// The final deposit artifact: the message fields, the gateway's
/// signature over the signing root, and the canonical root over all of
/// it, both computed by external collaborators.
#[derive(Clone, Debug)]
pub struct DepositData {
    pub pubkey: Vec<u8>,
    pub withdrawal_credentials: Vec<u8>,
    pub amount: u64,
    pub signature: Vec<u8>,
    pub deposit_data_root: Vec<u8>,
}

/// Builds the canonical deposit message: credentials derived from the
/// execution address, and the fixed full deposit amount.
pub fn build_deposit_message(pubkey: &Vec<u8>, execution_address: &Vec<u8>) -> (r: Result<
    DepositMessage,
    DepositError,
>)
    ensures
        match r {
            Ok(m) => execution_address@.len() == EXECUTION_ADDRESS_LEN && m.pubkey@ == pubkey@
                && m.withdrawal_credentials@ == spec_withdrawal_credentials(execution_address@)
                && m.amount == FULL_DEPOSIT_AMOUNT_GWEI,
            Err(e) => execution_address@.len() != EXECUTION_ADDRESS_LEN && e
                == DepositError::InvalidAddress,
        },
{
    let withdrawal_credentials = withdrawal_credentials(execution_address)?;
    Ok(
        DepositMessage {
            pubkey: clone_bytes(pubkey),
            withdrawal_credentials,
            amount: FULL_DEPOSIT_AMOUNT_GWEI,
        },
    )
}

/// Checks a deposit request and builds its message: the address must be
/// exactly twenty bytes (checked first, before the gateway is
/// consulted), a fork version must be configured, and the gateway must
/// hold the key.
pub fn prepare_deposit(
    store: &KeyStore,
    pubkey: &Vec<u8>,
    execution_address: &Vec<u8>,
    fork_version: &Option<Vec<u8>>,
) -> (r: Result<DepositMessage, DepositError>)
    ensures
        match r {
            Ok(m) => execution_address@.len() == EXECUTION_ADDRESS_LEN && fork_version is Some
                && holds_key(store.keys@, pubkey@) && m.pubkey@ == pubkey@
                && m.withdrawal_credentials@ == spec_withdrawal_credentials(execution_address@)
                && m.amount == FULL_DEPOSIT_AMOUNT_GWEI,
            Err(e) => match e {
                DepositError::InvalidAddress => execution_address@.len() != EXECUTION_ADDRESS_LEN,
                DepositError::ConfigMissing => execution_address@.len() == EXECUTION_ADDRESS_LEN
                    && fork_version is None,
                DepositError::UnknownKey => execution_address@.len() == EXECUTION_ADDRESS_LEN
                    && fork_version is Some && !holds_key(store.keys@, pubkey@),
            },
        },
{
    let message = build_deposit_message(pubkey, execution_address)?;
    if fork_version.is_none() {
        return Err(DepositError::ConfigMissing);
    }
    if !store.holds(pubkey) {
        return Err(DepositError::UnknownKey);
    }
    Ok(message)
}

/// Assembles the final artifact from the message and the externally
/// computed signature and root, carrying every field over unchanged.
pub fn assemble_deposit_data(
    message: DepositMessage,
    signature: Vec<u8>,
    deposit_data_root: Vec<u8>,
) -> (d: DepositData)
    ensures
        d.pubkey@ == message.pubkey@,
        d.withdrawal_credentials@ == message.withdrawal_credentials@,
        d.amount == message.amount,
        d.signature@ == signature@,
        d.deposit_data_root@ == deposit_data_root@,
{
    DepositData {
        pubkey: message.pubkey,
        withdrawal_credentials: message.withdrawal_credentials,
        amount: message.amount,
        signature,
        deposit_data_root,
    }
}

} // verus!
