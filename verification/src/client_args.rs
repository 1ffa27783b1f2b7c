//! The operator's request, as plain values. Parsing the command line and
//! reading the configuration file happen outside; the accessors here
//! hand the values on unchanged, and the import and deposit accessors
//! demand that the arguments their operation needs were supplied.

use vstd::prelude::*;

verus! {

/// The network configuration, read once per run from a configuration
/// document.
#[derive(Clone, Debug)]
pub struct NetworkConfig {
    pub network_name: String,
    pub fork_version: String,
    pub deposit_cli_version: String,
}

/// One run's arguments: the service port, the output directory, the
/// selected operations, their inputs, and the network configuration.
#[derive(Clone, Debug)]
pub struct Args {
    /// The port the signing service is exposing.
    pub port: u16,
    /// The directory the run's artifacts are written to.
    pub outdir: String,
    /// Whether to generate a new key.
    pub bls_keygen: bool,
    /// Whether to list the held keys.
    pub list: bool,
    /// Whether to import a keystore.
    pub import: bool,
    /// The path to the keystore to import.
    pub keystore_path: Option<String>,
    /// The path to the keystore's password.
    pub password_path: Option<String>,
    /// The path to the safety ledger to import with the keystore.
    pub slash_protection_path: Option<String>,
    /// Whether to build a deposit artifact.
    pub deposit: bool,
    /// The validator public key, in hex.
    pub validator_pk_hex: Option<String>,
    /// The execution address for withdrawals, in hex.
    pub execution_addr: Option<String>,
    /// The expected measurement of the service's code.
    pub mrenclave: Option<String>,
    /// The network configuration.
    pub config: NetworkConfig,
}

impl Args {
    /// The directory the run's artifacts are written to.
    pub fn out_dir(&self) -> (r: String)
        ensures
            r@ == self.outdir@,
    {
        self.outdir.clone()
    }

    /// The network configuration.
    pub fn config(&self) -> (r: NetworkConfig)
        ensures
            r.network_name@ == self.config.network_name@,
            r.fork_version@ == self.config.fork_version@,
            r.deposit_cli_version@ == self.config.deposit_cli_version@,
    {
        NetworkConfig {
            network_name: self.config.network_name.clone(),
            fork_version: self.config.fork_version.clone(),
            deposit_cli_version: self.config.deposit_cli_version.clone(),
        }
    }

    /// The port the signing service is exposing.
    pub fn port(&self) -> (r: u16)
        ensures
            r == self.port,
    {
        self.port
    }

    /// Whether key generation was requested.
    pub fn do_keygen(&self) -> (r: bool)
        ensures
            r == self.bls_keygen,
    {
        self.bls_keygen
    }

    /// Whether an import was requested.
    pub fn do_import(&self) -> (r: bool)
        ensures
            r == self.import,
    {
        self.import
    }

    /// Whether a deposit was requested.
    pub fn do_deposit(&self) -> (r: bool)
        ensures
            r == self.deposit,
    {
        self.deposit
    }

    /// The import operation's arguments: keystore path, password path,
    /// optional safety-ledger path, and the expected measurement. An
    /// import without keystore, password or measurement cannot proceed.
    pub fn get_import_args(&self) -> (r: (String, String, Option<String>, String))
        requires
            self.keystore_path is Some,
            self.password_path is Some,
            self.mrenclave is Some,
        ensures
            r.0@ == self.keystore_path->0@,
            r.1@ == self.password_path->0@,
            match r.2 {
                Some(p) => self.slash_protection_path matches Some(q) && p@ == q@,
                None => self.slash_protection_path is None,
            },
            r.3@ == self.mrenclave->0@,
    {
        let keystore_path = match &self.keystore_path {
            Some(p) => p.clone(),
            None => unreached(),
        };
        let password_path = match &self.password_path {
            Some(p) => p.clone(),
            None => unreached(),
        };
        let slashing_db_path = match &self.slash_protection_path {
            Some(p) => Some(p.clone()),
            None => None,
        };
        let mrenclave = match &self.mrenclave {
            Some(p) => p.clone(),
            None => unreached(),
        };
        (keystore_path, password_path, slashing_db_path, mrenclave)
    }

    /// The deposit operation's arguments: the validator public key and
    /// the execution address, both in hex. A deposit without them cannot
    /// proceed.
    pub fn get_deposit_args(&self) -> (r: (String, String))
        requires
            self.validator_pk_hex is Some,
            self.execution_addr is Some,
        ensures
            r.0@ == self.validator_pk_hex->0@,
            r.1@ == self.execution_addr->0@,
    {
        let validator_pk_hex = match &self.validator_pk_hex {
            Some(p) => p.clone(),
            None => unreached(),
        };
        let execution_addr = match &self.execution_addr {
            Some(p) => p.clone(),
            None => unreached(),
        };
        (validator_pk_hex, execution_addr)
    }
}

} // verus!
