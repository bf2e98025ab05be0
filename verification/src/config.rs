//! The configuration file and the wallet.
use vstd::prelude::*;
use vstd::string::*;
use crate::bytes::array_32;
use crate::codec::{base64_encode, base64_text, hex_decode, hex_decoded};
use crate::route_config::{
    config_problem, copy_routes, default_confirmations, default_lightpool_rpc,
    law_normalize_is_idempotent, normalized, route_views, validate_config, BridgeRoute,
    LocalChainConfig, RouteView,
};
use crate::text::{cat, cat3, decimal, decimal_text, trimmed};
use vstd::utf8::encode_utf8;

verus! {

/// What can go wrong with the configuration file or the wallet.
#[derive(Clone, Debug, PartialEq, Eq)]
pub enum BridgeConfigError {
    Read { path: String, source: String },
    Parse { path: String, source: String },
    WalletRead { path: String, source: String },
    WalletParse { path: String, source: String },
    InvalidWallet { path: String, message: String },
    Validation { path: String, message: String },
    Write { path: String, source: String },
}

/// `head`, a path in quotes, and what was found there.
pub open spec fn path_report(head: Seq<char>, path: Seq<char>, what: Seq<char>) -> Seq<char> {
    head + " '"@ + path + "': "@ + what
}

/// `head`, a path in quotes, and what was found there.
fn report(head: &str, path: &str, what: &str) -> (r: String)
    ensures
        r@ == path_report(head@, path@, what@),
{
    let mut s = cat3(head, " '", path);
    s.append("': ");
    s.append(what);
    s
}

impl BridgeConfigError {
    /// The text of the error.
    pub open spec fn text(self) -> Seq<char> {
        match self {
            BridgeConfigError::Read { path, source } => path_report(
                "failed to read bridge config"@,
                path@,
                source@,
            ),
            BridgeConfigError::Parse { path, source } => path_report(
                "failed to parse bridge config"@,
                path@,
                source@,
            ),
            BridgeConfigError::WalletRead { path, source } => path_report(
                "failed to read wallet"@,
                path@,
                source@,
            ),
            BridgeConfigError::WalletParse { path, source } => path_report(
                "failed to parse wallet"@,
                path@,
                source@,
            ),
            BridgeConfigError::InvalidWallet { path, message } => path_report(
                "invalid wallet"@,
                path@,
                message@,
            ),
            BridgeConfigError::Validation { path, message } => path_report(
                "invalid bridge config"@,
                path@,
                message@,
            ),
            BridgeConfigError::Write { path, source } => path_report(
                "failed to write bridge config"@,
                path@,
                source@,
            ),
        }
    }

    /// The text of the error.
    pub fn message(&self) -> (r: String)
        ensures
            r@ == self.text(),
    {
        match self {
            BridgeConfigError::Read { path, source } => report(
                "failed to read bridge config",
                path.as_str(),
                source.as_str(),
            ),
            BridgeConfigError::Parse { path, source } => report(
                "failed to parse bridge config",
                path.as_str(),
                source.as_str(),
            ),
            BridgeConfigError::WalletRead { path, source } => report(
                "failed to read wallet",
                path.as_str(),
                source.as_str(),
            ),
            BridgeConfigError::WalletParse { path, source } => report(
                "failed to parse wallet",
                path.as_str(),
                source.as_str(),
            ),
            BridgeConfigError::InvalidWallet { path, message } => report(
                "invalid wallet",
                path.as_str(),
                message.as_str(),
            ),
            BridgeConfigError::Validation { path, message } => report(
                "invalid bridge config",
                path.as_str(),
                message.as_str(),
            ),
            BridgeConfigError::Write { path, source } => report(
                "failed to write bridge config",
                path.as_str(),
                source.as_str(),
            ),
        }
    }
}

/// The configuration of the bridge.
#[derive(Clone, Debug, PartialEq, Eq)]
pub struct BridgeLinkConfig {
    /// Whether the bridge may start at all.
    pub enabled: bool,
    pub wallet_path: String,
    pub evm_rpc_url: String,
    pub evm_bridge_address: String,
    pub evm_confirmations: u64,
    /// The first EVM block to look at.
    pub start_block: u64,
    pub lightpool_rpc_url: String,
    /// Foundry cast binary used to submit EVM transactions.
    pub cast_bin: String,
    /// The time between two looks at a withdraw that waits to be finalized on an
    /// EVM chain, in milliseconds.
    pub poll_interval_ms: Option<u64>,
    pub local: LocalChainConfig,
    pub routes: Vec<BridgeRoute>,
}

/// A [`BridgeLinkConfig`] as text sequences.
#[verifier::ext_equal]
pub struct ConfigView {
    pub enabled: bool,
    pub wallet_path: Seq<char>,
    pub evm_rpc_url: Seq<char>,
    pub evm_bridge_address: Seq<char>,
    pub evm_confirmations: u64,
    pub start_block: u64,
    pub lightpool_rpc_url: Seq<char>,
    pub cast_bin: Seq<char>,
    pub poll_interval_ms: Option<u64>,
    pub local_rpc_url: Seq<char>,
    pub local_chain_id: u64,
    pub routes: Seq<RouteView>,
}

impl View for BridgeLinkConfig {
    type V = ConfigView;

    open spec fn view(&self) -> ConfigView {
        ConfigView {
            enabled: self.enabled,
            wallet_path: self.wallet_path@,
            evm_rpc_url: self.evm_rpc_url@,
            evm_bridge_address: self.evm_bridge_address@,
            evm_confirmations: self.evm_confirmations,
            start_block: self.start_block,
            lightpool_rpc_url: self.lightpool_rpc_url@,
            cast_bin: self.cast_bin@,
            poll_interval_ms: self.poll_interval_ms,
            local_rpc_url: self.local.rpc_url@,
            local_chain_id: self.local.chain_id,
            routes: route_views(self.routes@),
        }
    }
}

/// The time between two looks at a withdraw that waits to be finalized, in
/// milliseconds, where none is set.
pub const EVM_FINALIZE_POLL_MS: u64 = 1000;

/// The time between two looks at a withdraw that waits: the one that is set, or
/// a second.
pub open spec fn poll_wait(set: Option<u64>) -> u64 {
    match set {
        Some(ms) => ms,
        None => EVM_FINALIZE_POLL_MS,
    }
}

/// The `cast` command on the search path.
pub fn default_cast_bin() -> (r: String)
    ensures
        r@ == "cast"@,
{
    "cast".to_owned()
}

/// The configuration of a bridge without routes.
pub open spec fn default_config() -> ConfigView {
    ConfigView {
        enabled: true,
        wallet_path: Seq::empty(),
        evm_rpc_url: Seq::empty(),
        evm_bridge_address: Seq::empty(),
        evm_confirmations: 1,
        start_block: 0,
        lightpool_rpc_url: "http://127.0.0.1:26300"@,
        cast_bin: "cast"@,
        poll_interval_ms: None,
        local_rpc_url: "http://127.0.0.1:26300"@,
        local_chain_id: 1,
        routes: Seq::empty(),
    }
}

impl Default for BridgeLinkConfig {
    fn default() -> (r: Self)
        ensures
            r@ == default_config(),
    {
        let r = BridgeLinkConfig {
            enabled: true,
            wallet_path: String::new(),
            evm_rpc_url: String::new(),
            evm_bridge_address: String::new(),
            evm_confirmations: default_confirmations(),
            start_block: 0,
            lightpool_rpc_url: default_lightpool_rpc(),
            cast_bin: default_cast_bin(),
            poll_interval_ms: None,
            local: LocalChainConfig::default(),
            routes: Vec::new(),
        };
        assert(route_views(r.routes@) =~= Seq::empty());
        r
    }
}

/// The secret key of a validator.
#[derive(Clone, Copy, Debug)]
pub struct SecretKey {
    pub bytes: [u8; 32],
}

impl SecretKey {
    /// The base64 text of the key.
    pub fn encode_base64(&self) -> (r: String)
        ensures
            r@ == base64_text(self.bytes@),
            crate::codec::base64_bytes(r@) == Some(self.bytes@),
    {
        base64_encode(self.bytes.as_slice())
    }
}

/// What came of reading the configuration file.
#[derive(Clone, Debug)]
pub enum ConfigFile {
    Unreadable(String),
    Malformed(String),
    Parsed(BridgeLinkConfig),
}

/// What came of reading the wallet file.
#[derive(Clone, Debug)]
pub enum WalletFile {
    Unreadable(String),
    Malformed(String),
    PrivateKey(String),
}

/// What came of storing a configuration.
#[derive(Clone, Debug)]
pub enum WriteOutcome {
    /// The configuration could not be turned into text.
    NotEncoded(String),
    /// The file beside the configuration could not be written.
    TempNotWritten { tmp: String, source: String },
    /// That file could not take the place of the configuration.
    NotRenamed(String),
    Written,
}

/// The secret in a private key text, or what is wrong with it.
pub open spec fn wallet_secret(hex_str: Seq<char>) -> Result<Seq<u8>, Seq<char>> {
    match hex_decoded(encode_utf8(trimmed(hex_str))) {
        Err(e) => Err("invalid private_key hex: "@ + e.text()),
        Ok(b) => if b.len() != 32 {
            Err("private_key must be 32 bytes, got "@ + decimal(b.len()))
        } else {
            Ok(b)
        },
    }
}

/// Reads the private key of a wallet: 32 bytes in hexadecimal, without `0x`.
pub fn secret_key_from_hex(path: &str, hex_str: &str) -> (r: Result<SecretKey, BridgeConfigError>)
    ensures
        match r {
            Ok(key) => wallet_secret(hex_str@) == Ok::<Seq<u8>, Seq<char>>(key.bytes@),
            Err(BridgeConfigError::InvalidWallet { path: p, message }) => p@ == path@
                && wallet_secret(hex_str@) == Err::<Seq<u8>, Seq<char>>(message@),
            Err(_) => false,
        },
{
    let bytes = match hex_decode(hex_str.trim().as_bytes()) {
        Ok(bytes) => bytes,
        Err(e) => {
            let message = cat("invalid private_key hex: ", e.message().as_str());
            return Err(BridgeConfigError::InvalidWallet { path: path.to_owned(), message });
        },
    };
    if bytes.len() != 32 {
        let message = cat(
            "private_key must be 32 bytes, got ",
            decimal_text(bytes.len() as u64).as_str(),
        );
        return Err(BridgeConfigError::InvalidWallet { path: path.to_owned(), message });
    }
    Ok(SecretKey { bytes: array_32(bytes.as_slice()) })
}

/// The configuration that is read from a file, if the file holds one.
pub open spec fn config_in(file: ConfigFile) -> Option<ConfigView> {
    match file {
        ConfigFile::Parsed(c) => Some(normalized(c@)),
        _ => None,
    }
}

/// Whether a configuration is stored.
pub open spec fn is_stored(config: ConfigView, outcome: WriteOutcome) -> bool {
    config_problem(config.routes) is None && outcome is Written
}

impl BridgeLinkConfig {
    /// A copy.
    pub fn duplicate(&self) -> (r: Self)
        ensures
            r@ == self@,
            r.routes@ == self.routes@,
    {
        BridgeLinkConfig {
            enabled: self.enabled,
            wallet_path: self.wallet_path.clone(),
            evm_rpc_url: self.evm_rpc_url.clone(),
            evm_bridge_address: self.evm_bridge_address.clone(),
            evm_confirmations: self.evm_confirmations,
            start_block: self.start_block,
            lightpool_rpc_url: self.lightpool_rpc_url.clone(),
            cast_bin: self.cast_bin.clone(),
            poll_interval_ms: self.poll_interval_ms,
            local: LocalChainConfig {
                rpc_url: self.local.rpc_url.clone(),
                chain_id: self.local.chain_id,
            },
            routes: copy_routes(&self.routes),
        }
    }

    /// The time between two looks at a withdraw that waits to be finalized on an
    /// EVM chain, in milliseconds.
    pub fn finalize_wait_ms(&self) -> (r: u64)
        ensures
            r == poll_wait(self@.poll_interval_ms),
    {
        match self.poll_interval_ms {
            Some(ms) => ms,
            None => EVM_FINALIZE_POLL_MS,
        }
    }

    /// All routes, enabled or not.
    pub fn all_routes(&self) -> (r: &Vec<BridgeRoute>)
        ensures
            *r == self.routes,
    {
        &self.routes
    }

    /// The configuration that a file holds, brought into normal form.
    pub fn read(path: &str, file: ConfigFile) -> (r: Result<Self, BridgeConfigError>)
        ensures
            match file {
                ConfigFile::Unreadable(e) => r matches Err(
                    BridgeConfigError::Read { path: p, source },
                ) && p@ == path@ && source == e,
                ConfigFile::Malformed(e) => r matches Err(
                    BridgeConfigError::Parse { path: p, source },
                ) && p@ == path@ && source == e,
                ConfigFile::Parsed(_) => r matches Ok(cfg) && Some(cfg@) == config_in(file),
            },
    {
        match file {
            ConfigFile::Unreadable(source) => Err(
                BridgeConfigError::Read { path: path.to_owned(), source },
            ),
            ConfigFile::Malformed(source) => Err(
                BridgeConfigError::Parse { path: path.to_owned(), source },
            ),
            ConfigFile::Parsed(c) => {
                let mut config = c;
                config.normalize_routes();
                Ok(config)
            },
        }
    }

    /// The secret key of the wallet, whose file was read unless no path is set.
    pub fn load_wallet(&self, file: &WalletFile) -> (r: Result<SecretKey, BridgeConfigError>)
        ensures
            self@.wallet_path.len() == 0 ==> (r matches Err(
                BridgeConfigError::InvalidWallet { path, message },
            ) && path@ == self@.wallet_path && message@ == "wallet_path is empty"@),
            self@.wallet_path.len() > 0 ==> match *file {
                WalletFile::Unreadable(e) => r matches Err(
                    BridgeConfigError::WalletRead { path, source },
                ) && path@ == self@.wallet_path && source == e,
                WalletFile::Malformed(e) => r matches Err(
                    BridgeConfigError::WalletParse { path, source },
                ) && path@ == self@.wallet_path && source == e,
                WalletFile::PrivateKey(hex) => match r {
                    Ok(key) => wallet_secret(hex@) == Ok::<Seq<u8>, Seq<char>>(key.bytes@),
                    Err(BridgeConfigError::InvalidWallet { path, message }) => path@
                        == self@.wallet_path && wallet_secret(hex@) == Err::<Seq<u8>, Seq<char>>(
                        message@,
                    ),
                    Err(_) => false,
                },
            },
    {
        if self.wallet_path.as_str().is_empty() {
            return Err(
                BridgeConfigError::InvalidWallet {
                    path: self.wallet_path.clone(),
                    message: "wallet_path is empty".to_owned(),
                },
            );
        }
        match file {
            WalletFile::Unreadable(source) => Err(
                BridgeConfigError::WalletRead {
                    path: self.wallet_path.clone(),
                    source: source.clone(),
                },
            ),
            WalletFile::Malformed(source) => Err(
                BridgeConfigError::WalletParse {
                    path: self.wallet_path.clone(),
                    source: source.clone(),
                },
            ),
            WalletFile::PrivateKey(hex) => secret_key_from_hex(
                self.wallet_path.as_str(),
                hex.as_str(),
            ),
        }
    }

    /// Whether the configuration may be stored at `path`.
    pub fn check(&self, path: &str) -> (r: Result<(), BridgeConfigError>)
        ensures
            match r {
                Ok(()) => config_problem(self@.routes) is None,
                Err(BridgeConfigError::Validation { path: p, message }) => p@ == path@
                    && config_problem(self@.routes) == Some(message@),
                Err(_) => false,
            },
    {
        match validate_config(self) {
            Ok(()) => Ok(()),
            Err(message) => Err(BridgeConfigError::Validation { path: path.to_owned(), message }),
        }
    }

    /// What storing the configuration at `path` comes to: the check first, then
    /// the outcome on disk.
    pub fn write(&self, path: &str, outcome: &WriteOutcome) -> (r: Result<(), BridgeConfigError>)
        ensures
            r is Ok <==> is_stored(self@, *outcome),
            config_problem(self@.routes) matches Some(problem) ==> (r matches Err(
                BridgeConfigError::Validation { path: p, message },
            ) && p@ == path@ && message@ == problem),
            config_problem(self@.routes) is None ==> match *outcome {
                WriteOutcome::NotEncoded(e) => r matches Err(
                    BridgeConfigError::Validation { path: p, message },
                ) && p@ == path@ && message == e,
                WriteOutcome::TempNotWritten { tmp, source: e } => r matches Err(
                    BridgeConfigError::Write { path: p, source },
                ) && p == tmp && source == e,
                WriteOutcome::NotRenamed(e) => r matches Err(
                    BridgeConfigError::Write { path: p, source },
                ) && p@ == path@ && source == e,
                WriteOutcome::Written => r is Ok,
            },
    {
        match self.check(path) {
            Ok(()) => {},
            Err(e) => {
                return Err(e);
            },
        }
        match outcome {
            WriteOutcome::NotEncoded(e) => Err(
                BridgeConfigError::Validation { path: path.to_owned(), message: e.clone() },
            ),
            WriteOutcome::TempNotWritten { tmp, source } => Err(
                BridgeConfigError::Write { path: tmp.clone(), source: source.clone() },
            ),
            WriteOutcome::NotRenamed(e) => Err(
                BridgeConfigError::Write { path: path.to_owned(), source: e.clone() },
            ),
            WriteOutcome::Written => Ok(()),
        }
    }
}

/// A configuration in normal form that was stored is read back the same, in
/// every field, from a file that holds it.
pub proof fn law_stored_config_is_read_back(
    settings: ConfigView,
    config: BridgeLinkConfig,
    outcome: WriteOutcome,
    file: ConfigFile,
)
    requires
        config@ == normalized(settings),
        is_stored(config@, outcome),
        file matches ConfigFile::Parsed(c) && c@ == config@,
    ensures
        config_in(file) == Some(config@),
{
    law_normalize_is_idempotent(settings);
}

/// What was read from a file is in normal form, so that it is read back the
/// same once it is stored.
pub proof fn law_read_config_is_normal(file: ConfigFile, again: ConfigFile)
    requires
        config_in(file) is Some,
        again matches ConfigFile::Parsed(c) && Some(c@) == config_in(file),
    ensures
        config_in(again) == config_in(file),
{
    law_normalize_is_idempotent(file->Parsed_0@);
}

} // verus!
