use lightpool_bridge::config::{
    default_cast_bin, secret_key_from_hex, BridgeConfigError, BridgeLinkConfig, ConfigFile,
    SecretKey, WalletFile, WriteOutcome,
};
use lightpool_bridge::route_config::{
    default_confirmations, default_lightpool_rpc, default_local_chain_id, default_true,
    validate_config, BridgeRoute, ForeignLeg, LocalChainConfig, LocalInboundConfig,
};

fn evm(id: &str, enabled: bool, rpc: &str, bridge: &str) -> BridgeRoute {
    BridgeRoute {
        id: id.to_string(),
        enabled,
        local_inbound: LocalInboundConfig::default(),
        foreign: ForeignLeg::Evm {
            rpc_url: rpc.to_string(),
            chain_id: 1,
            bridge_address: bridge.to_string(),
            token_address: String::new(),
            confirmations: 6,
            start_block: 77,
        },
    }
}

fn lightpool(id: &str, rpc: &str, contract: &str, token: &str) -> BridgeRoute {
    BridgeRoute {
        id: id.to_string(),
        enabled: true,
        local_inbound: LocalInboundConfig::default(),
        foreign: ForeignLeg::Lightpool {
            rpc_url: rpc.to_string(),
            chain_id: 2,
            outbound_bridge_contract: contract.to_string(),
            foreign_token: token.to_string(),
        },
    }
}

fn with_routes(routes: Vec<BridgeRoute>) -> BridgeLinkConfig {
    BridgeLinkConfig { routes, ..BridgeLinkConfig::default() }
}

#[test]
fn defaults() {
    assert!(default_true());
    assert_eq!(default_lightpool_rpc(), "http://127.0.0.1:26300");
    assert_eq!(default_confirmations(), 1);
    assert_eq!(default_local_chain_id(), 1);
    assert_eq!(default_cast_bin(), "cast");
    let c = BridgeLinkConfig::default();
    assert!(c.enabled);
    assert_eq!(c.local, LocalChainConfig::default());
    assert_eq!(c.local.rpc_url, "http://127.0.0.1:26300");
    assert_eq!(c.local.chain_id, 1);
    assert_eq!(c.evm_confirmations, 1);
    assert!(c.all_routes().is_empty());
}

#[test]
fn valid_configurations() {
    assert_eq!(validate_config(&BridgeLinkConfig::default()), Ok(()));
    let c = with_routes(vec![
        evm("a", true, "http://e", "0x1"),
        evm("b", false, "", ""),
        lightpool("c", "http://l", "0x08", "0x02"),
    ]);
    assert_eq!(validate_config(&c), Ok(()));
}

#[test]
fn invalid_configurations() {
    let problem = |routes| validate_config(&with_routes(routes)).unwrap_err();
    assert_eq!(problem(vec![evm("  ", false, "", "")]), "route id must not be empty");
    assert_eq!(
        problem(vec![evm("a", false, "", ""), evm(" a ", false, "", "")]),
        "duplicate route id: a"
    );
    assert_eq!(problem(vec![evm(" a ", true, " ", "0x1")]), "route a: evm rpc_url is empty");
    assert_eq!(
        problem(vec![evm("a", true, "http://e", "\t")]),
        "route a: evm bridge_address is empty"
    );
    assert_eq!(
        problem(vec![lightpool("a", "", "0x08", "0x02")]),
        "route a: lightpool rpc_url is empty"
    );
    assert_eq!(
        problem(vec![lightpool("a", "x", "", "0x02")]),
        "route a: outbound_bridge_contract is empty"
    );
    assert_eq!(
        problem(vec![lightpool("a", "x", "0x08", "")]),
        "route a: foreign_token is empty"
    );
}

#[test]
fn first_problem_is_reported() {
    let c = with_routes(vec![
        evm("a", true, "http://e", "0x1"),
        evm("b", true, "", ""),
        evm("", true, "", ""),
    ]);
    assert_eq!(validate_config(&c), Err("route b: evm rpc_url is empty".to_string()));
}

#[test]
fn normal_form_adds_the_route_of_the_old_settings() {
    let mut c = BridgeLinkConfig {
        evm_rpc_url: "http://e".to_string(),
        evm_bridge_address: "0xb".to_string(),
        evm_confirmations: 3,
        start_block: 9,
        ..BridgeLinkConfig::default()
    };
    c.normalize_routes();
    assert_eq!(c.routes, vec![BridgeRoute::legacy_reth("reth-default", &c)]);
    let ForeignLeg::Evm { chain_id, confirmations, start_block, .. } = &c.routes[0].foreign else {
        panic!("an EVM leg");
    };
    assert_eq!((*chain_id, *confirmations, *start_block), (1337, 3, 9));
    let once = c.clone();
    c.normalize_routes();
    assert_eq!(c, once);
}

#[test]
fn normal_form_without_a_bridge_adds_no_route() {
    let mut c = BridgeLinkConfig { evm_bridge_address: "  ".to_string(), ..Default::default() };
    c.normalize_routes();
    assert!(c.routes.is_empty());
}

#[test]
fn normal_form_takes_settings_from_the_first_enabled_route() {
    let mut c = with_routes(vec![
        evm("off", false, "http://off", "0xoff"),
        evm("on", true, "http://on", "0xon"),
    ]);
    c.normalize_routes();
    assert_eq!(c.evm_rpc_url, "http://on");
    assert_eq!(c.evm_bridge_address, "0xon");
    assert_eq!(c.evm_confirmations, 6);
    assert_eq!(c.start_block, 77);
    let mut only_off = with_routes(vec![evm("off", false, "http://off", "0xoff")]);
    only_off.evm_rpc_url = "http://kept".to_string();
    only_off.normalize_routes();
    assert_eq!(only_off.evm_rpc_url, "http://kept");
    assert_eq!(only_off.evm_bridge_address, "0xoff");
    assert_eq!(only_off.start_block, 77);
}

#[test]
fn normal_form_fills_the_local_addresses() {
    let mut a = BridgeLinkConfig { lightpool_rpc_url: "http://a".to_string(), ..Default::default() };
    a.local.rpc_url = String::new();
    a.normalize_routes();
    assert_eq!(a.local.rpc_url, "http://a");
    let mut b = BridgeLinkConfig { lightpool_rpc_url: String::new(), ..Default::default() };
    b.normalize_routes();
    assert_eq!(b.lightpool_rpc_url, "http://127.0.0.1:26300");
}

#[test]
fn configuration_file_outcomes() {
    let unreadable = BridgeLinkConfig::read("c.json", ConfigFile::Unreadable("gone".to_string()));
    assert_eq!(
        unreadable.unwrap_err().message(),
        "failed to read bridge config 'c.json': gone"
    );
    let malformed = BridgeLinkConfig::read("c.json", ConfigFile::Malformed("bad".to_string()));
    assert_eq!(
        malformed.unwrap_err().message(),
        "failed to parse bridge config 'c.json': bad"
    );
    let parsed = BridgeLinkConfig { evm_bridge_address: "0xb".to_string(), ..Default::default() };
    let read = BridgeLinkConfig::read("c.json", ConfigFile::Parsed(parsed)).unwrap();
    assert_eq!(read.routes.len(), 1);
}

#[test]
fn wallets() {
    let hex = "0101010101010101010101010101010101010101010101010101010101010101";
    assert_eq!(secret_key_from_hex("w", &format!(" {hex}\n")).unwrap().bytes, [1; 32]);
    let message = |text: &str| secret_key_from_hex("w", text).unwrap_err().message();
    assert_eq!(message("01"), "invalid wallet 'w': private_key must be 32 bytes, got 1");
    assert_eq!(message("0"), "invalid wallet 'w': invalid private_key hex: Odd number of digits");
    assert_eq!(
        message("0x01"),
        "invalid wallet 'w': invalid private_key hex: Invalid character 'x' at position 1"
    );
}

#[test]
fn wallet_file_outcomes() {
    let mut c = BridgeLinkConfig::default();
    let key = WalletFile::PrivateKey("02".repeat(32));
    assert_eq!(
        c.load_wallet(&key).unwrap_err().message(),
        "invalid wallet '': wallet_path is empty"
    );
    c.wallet_path = "w.json".to_string();
    assert_eq!(c.load_wallet(&key).unwrap().bytes, [2; 32]);
    assert_eq!(
        c.load_wallet(&WalletFile::Unreadable("gone".to_string())).unwrap_err().message(),
        "failed to read wallet 'w.json': gone"
    );
    assert_eq!(
        c.load_wallet(&WalletFile::Malformed("bad".to_string())).unwrap_err().message(),
        "failed to parse wallet 'w.json': bad"
    );
}

#[test]
fn secret_key_in_base64() {
    let key = SecretKey { bytes: [0; 32] };
    assert_eq!(key.encode_base64(), format!("{}=", "A".repeat(43)));
}

#[test]
fn storing_outcomes() {
    let c = BridgeLinkConfig::default();
    assert_eq!(c.write("c", &WriteOutcome::Written), Ok(()));
    let message = |o: WriteOutcome| c.write("c", &o).unwrap_err().message();
    assert_eq!(
        message(WriteOutcome::NotEncoded("e".to_string())),
        "invalid bridge config 'c': e"
    );
    assert_eq!(
        message(WriteOutcome::TempNotWritten { tmp: "t".to_string(), source: "e".to_string() }),
        "failed to write bridge config 't': e"
    );
    assert_eq!(
        message(WriteOutcome::NotRenamed("e".to_string())),
        "failed to write bridge config 'c': e"
    );
    let bad = with_routes(vec![evm("", true, "", "")]);
    assert_eq!(
        bad.write("c", &WriteOutcome::Written),
        Err(BridgeConfigError::Validation {
            path: "c".to_string(),
            message: "route id must not be empty".to_string()
        })
    );
}

#[test]
fn stored_configuration_is_read_back() {
    let mut c = BridgeLinkConfig {
        evm_rpc_url: "http://e".to_string(),
        evm_bridge_address: "0xb".to_string(),
        poll_interval_ms: Some(300),
        ..BridgeLinkConfig::default()
    };
    c.normalize_routes();
    assert_eq!(c.write("b.json", &WriteOutcome::Written), Ok(()));
    let read = BridgeLinkConfig::read("b.json", ConfigFile::Parsed(c.clone()));
    assert_eq!(read, Ok(c));
}
