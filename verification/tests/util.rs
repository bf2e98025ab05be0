use lightpool_bridge::chain::{
    BridgeConfig, BridgeWithdrawRecord, BridgeWithdrawStatus, ContractAddress, InboundTokenLane,
    OutboundBridgeConfig, OutboundTokenLane,
};
use lightpool_bridge::codec::{EthSignError, HexError};
use lightpool_bridge::route_config::{BridgeRoute, ForeignLeg, LocalInboundConfig};
use lightpool_bridge::util::{
    address_from_word, contract_to_foreign_token, default_inbound_contract, evm_address_hex,
    foreign_token_bytes, has_text_tail, inbound_lane_for_route, lock_source_hash,
    outbound_lane_for_inbound_withdraw, parse_b32, parse_contract_address, parse_evm_address,
    topic_address, topic_u64, u64_from_word, BridgeError,
};

fn contract(last: u8) -> ContractAddress {
    ContractAddress { bytes: [2, 0, 0, 0, 0, 0, 0, last] }
}

fn lane(index: u32, foreign: u8, lp: u8) -> InboundTokenLane {
    InboundTokenLane {
        lane_index: index,
        foreign_token: [foreign; 20],
        lp_token: contract(lp),
        next_withdraw_nonce: 1,
    }
}

fn evm_route(lp_token: &str, token_address: &str) -> BridgeRoute {
    BridgeRoute {
        id: "r".to_string(),
        enabled: true,
        local_inbound: LocalInboundConfig {
            bridge_contract: String::new(),
            lp_token: lp_token.to_string(),
        },
        foreign: ForeignLeg::Evm {
            rpc_url: "http://x".to_string(),
            chain_id: 1337,
            bridge_address: "0x01".to_string(),
            token_address: token_address.to_string(),
            confirmations: 1,
            start_block: 0,
        },
    }
}

#[test]
fn evm_address_reads_back() {
    let addr: [u8; 20] = [
        0x00, 0x01, 0x0f, 0x10, 0xab, 0xcd, 0xef, 0xff, 1, 2, 3, 4, 5, 6, 7, 8, 9, 10, 11, 12,
    ];
    assert_eq!(evm_address_hex(&addr), "0x00010f10abcdefff0102030405060708090a0b0c");
    assert_eq!(parse_evm_address(&evm_address_hex(&addr)), Ok(addr));
}

#[test]
fn evm_address_is_read_with_white_space_marks_and_upper_case() {
    let text = format!("  0x0x{}\n", "AB".repeat(20));
    assert_eq!(parse_evm_address(&text), Ok([0xab; 20]));
    assert_eq!(parse_evm_address(&"ab".repeat(20)), Ok([0xab; 20]));
}

#[test]
fn evm_address_errors() {
    assert_eq!(parse_evm_address("0xabc"), Err(BridgeError::Hex(HexError::OddLength)));
    assert_eq!(
        parse_evm_address("0xaz"),
        Err(BridgeError::Hex(HexError::InvalidHexCharacter { c: 'z', index: 1 }))
    );
    assert_eq!(parse_evm_address("0xab"), Err(BridgeError::AddressLength { got: 1 }));
    assert_eq!(parse_evm_address(""), Err(BridgeError::AddressLength { got: 0 }));
}

#[test]
fn contract_address_reads_back() {
    let c = ContractAddress { bytes: [8, 0, 0, 0, 0, 0, 1, 255] };
    assert_eq!(c.label(), "0x08000000000001ff");
    assert_eq!(parse_contract_address(&c.label()), Ok(c));
}

#[test]
fn empty_contract_is_the_first_inbound_bridge() {
    assert_eq!(default_inbound_contract().bytes, [8, 0, 0, 0, 0, 0, 0, 1]);
    assert_eq!(parse_contract_address(" "), Ok(default_inbound_contract()));
    assert_eq!(parse_contract_address("0x"), Ok(default_inbound_contract()));
}

#[test]
fn contract_address_errors() {
    assert_eq!(parse_contract_address("0x0801"), Err(BridgeError::ContractLength { got: 2 }));
    assert_eq!(parse_contract_address("0x080"), Err(BridgeError::Hex(HexError::OddLength)));
}

#[test]
fn topic_numbers() {
    let topic = format!("0x{}{}", "0".repeat(48), "00000000000000ff");
    assert_eq!(topic_u64(&topic), Ok(255));
    assert_eq!(topic_u64("0xff"), Err(BridgeError::NumberTopicTooShort));
    assert_eq!(topic_u64(&"g".repeat(16)), Err(BridgeError::Number));
    assert_eq!(topic_u64(&"f".repeat(64)), Ok(u64::MAX));
}

#[test]
fn topic_addresses() {
    let topic = format!("0x{}{}", "0".repeat(24), "cd".repeat(20));
    assert_eq!(topic_address(&topic), Ok([0xcd; 20]));
    assert_eq!(topic_address("0x"), Err(BridgeError::AddressTopicTooShort));
    assert_eq!(
        topic_address(&"z".repeat(40)),
        Err(BridgeError::Hex(HexError::InvalidHexCharacter { c: 'z', index: 0 }))
    );
}

#[test]
fn tails_that_split_a_character() {
    assert!(has_text_tail("0xab", 16));
    assert!(has_text_tail(&"a".repeat(20), 16));
    // The two bytes of the first character straddle the cut.
    let split = format!("\u{e9}{}", "a".repeat(15));
    assert!(!has_text_tail(&split, 16));
}

#[test]
fn words() {
    let mut word = [0u8; 32];
    word[30] = 1;
    word[31] = 2;
    assert_eq!(u64_from_word(&word), Ok(258));
    let wide = [0xffu8; 32];
    assert_eq!(u64_from_word(&wide), Ok(u64::MAX));
    assert_eq!(u64_from_word(&word[1..]), Err(BridgeError::WordLength));
    let mut expected = [0u8; 20];
    expected[18] = 1;
    expected[19] = 2;
    assert_eq!(address_from_word(&word), Ok(expected));
    assert_eq!(address_from_word(&[]), Err(BridgeError::WordLength));
}

#[test]
fn hashes() {
    assert_eq!(parse_b32(&format!("0x{}", "5a".repeat(32))), Ok([0x5a; 32]));
    assert_eq!(parse_b32("0x5a"), Err(BridgeError::HashLength));
    assert_eq!(parse_b32("0x5"), Err(BridgeError::Hex(HexError::OddLength)));
    // White space is not taken off here.
    assert!(parse_b32(&format!(" {}", "5a".repeat(32))).is_err());
}

#[test]
fn lock_hash_is_keccak_of_chain_bridge_and_nonce() {
    let hash = lock_source_hash(1, default_inbound_contract(), 5);
    assert_eq!(
        parse_b32("db7c6a7a8fce96ed8454d8d9a84da9dde87bcf91e8d47a2ec8971efacda05981"),
        Ok(hash)
    );
    assert_ne!(lock_source_hash(1, default_inbound_contract(), 6), hash);
    assert_ne!(lock_source_hash(2, default_inbound_contract(), 5), hash);
    assert_ne!(lock_source_hash(1, contract(1), 5), hash);
}

#[test]
fn foreign_tokens() {
    let mut padded = [0u8; 20];
    padded[12] = 2;
    padded[19] = 7;
    assert_eq!(foreign_token_bytes("0x0200000000000007"), Ok(padded));
    assert_eq!(contract_to_foreign_token(contract(7)), padded);
    let evm = format!("0x{}", "ab".repeat(20));
    assert_eq!(foreign_token_bytes(&evm), Ok([0xab; 20]));
    assert_eq!(foreign_token_bytes("  "), Err(BridgeError::EmptyForeignToken));
    // A mark of the token module makes even a long text a contract.
    let marked = format!("0x02{}", "ab".repeat(19));
    assert_eq!(foreign_token_bytes(&marked), Err(BridgeError::ContractLength { got: 20 }));
}

#[test]
fn inbound_lane_by_local_token_then_by_foreign_token() {
    let cfg = BridgeConfig {
        foreign_chain_id: 1337,
        lanes: vec![lane(0, 0xaa, 1), lane(1, 0xbb, 2), lane(2, 0xbb, 3)],
    };
    let by_lp = evm_route(&contract(2).label(), "");
    assert_eq!(inbound_lane_for_route(&cfg, &by_lp).unwrap().lane_index, 1);
    let by_foreign = evm_route("", &evm_address_hex(&[0xbb; 20]));
    assert_eq!(inbound_lane_for_route(&cfg, &by_foreign).unwrap().lane_index, 1);
    let fallback = evm_route(&contract(9).label(), &evm_address_hex(&[0xaa; 20]));
    assert_eq!(inbound_lane_for_route(&cfg, &fallback).unwrap().lane_index, 0);
    let none = evm_route("", "");
    assert_eq!(inbound_lane_for_route(&cfg, &none), Err(BridgeError::NoInboundLane));
    let unknown = evm_route("", &evm_address_hex(&[0xcc; 20]));
    assert_eq!(inbound_lane_for_route(&cfg, &unknown), Err(BridgeError::NoInboundLane));
    let broken = evm_route("0x1", &evm_address_hex(&[0xaa; 20]));
    assert_eq!(
        inbound_lane_for_route(&cfg, &broken),
        Err(BridgeError::Hex(HexError::OddLength))
    );
}

#[test]
fn outbound_lane_by_foreign_token_index_and_local_token() {
    let record = BridgeWithdrawRecord {
        lane_index: 4,
        nonce: 1,
        sender: [1; 20],
        foreign_recipient: [2; 20],
        amount: 3,
        token: contract(7),
        status: BridgeWithdrawStatus::Pending,
    };
    let out = |index: u32, foreign: [u8; 20], lp: u8| OutboundTokenLane {
        lane_index: index,
        foreign_token: foreign,
        lp_token: contract(lp),
    };
    let known = contract_to_foreign_token(contract(7));
    let mut cfg = OutboundBridgeConfig {
        epoch: 1,
        lanes: vec![out(1, [0; 20], 7), out(4, [0; 20], 1), out(9, known, 2)],
    };
    assert_eq!(outbound_lane_for_inbound_withdraw(&cfg, &record).unwrap().lane_index, 9);
    cfg.lanes.pop();
    assert_eq!(outbound_lane_for_inbound_withdraw(&cfg, &record).unwrap().lane_index, 4);
    cfg.lanes.pop();
    assert_eq!(outbound_lane_for_inbound_withdraw(&cfg, &record).unwrap().lane_index, 1);
    cfg.lanes.pop();
    assert_eq!(
        outbound_lane_for_inbound_withdraw(&cfg, &record),
        Err(BridgeError::NoOutboundLane { token: record.token, lane_index: record.lane_index })
    );
}

#[test]
fn errors_have_texts() {
    let text = |e: BridgeError| e.message();
    assert_eq!(text(BridgeError::Hex(HexError::OddLength)), "Odd number of digits");
    assert_eq!(
        text(parse_contract_address("0x0102").unwrap_err()),
        "contract address must be 8 bytes, got 2"
    );
    assert_eq!(
        text(parse_evm_address("0x0102").unwrap_err()),
        "evm address must be 20 bytes, got 2"
    );
    assert_eq!(text(topic_u64("0x1").unwrap_err()), "topic too short for u64");
    assert_eq!(text(topic_address("0x1").unwrap_err()), "topic too short for address");
    assert_eq!(text(topic_u64("zzzzzzzzzzzzzzzz").unwrap_err()), "invalid number");
    assert_eq!(text(u64_from_word(&[1]).unwrap_err()), "expected 32-byte word");
    assert_eq!(text(parse_b32("0x01").unwrap_err()), "expected 32-byte hash");
    assert_eq!(text(foreign_token_bytes(" ").unwrap_err()), "foreign token is empty");
    assert_eq!(
        text(BridgeError::NoOutboundLane { token: contract(7), lane_index: 3 }),
        "no outbound lane for local token 0x0200000000000007 (lane_index=3)"
    );
    assert_eq!(text(BridgeError::NoTopics), "log missing topics");
    assert_eq!(text(BridgeError::LogDataTooShort), "deposit log data too short");
    assert_eq!(text(BridgeError::Rpc), "error");
    assert_eq!(text(BridgeError::MissingResult), "missing result");
    assert_eq!(text(BridgeError::EmptyResult), "empty result");
    assert_eq!(text(BridgeError::SecretKey), "secret key must be 32 bytes");
    assert_eq!(text(BridgeError::Sign(EthSignError::InvalidKey)), "invalid secret key");
    assert_eq!(text(BridgeError::Sign(EthSignError::SignFailed)), "eth sign failed");
    assert_eq!(text(BridgeError::CommitteeTooLarge), "committee is too large");
    assert_eq!(text(BridgeError::NoInboundLane), "no inbound lane matched");
    assert_eq!(text(BridgeError::ConfigNotLoaded), "inbound config not loaded");
}

#[test]
fn errors_on_a_route_name_it() {
    assert_eq!(
        BridgeError::NoInboundLane.message_on("r1"),
        "no inbound lane matched for route r1"
    );
    assert_eq!(
        BridgeError::ConfigNotLoaded.message_on("r1"),
        "route r1 inbound config not loaded"
    );
    assert_eq!(BridgeError::NoTopics.message_on("r1"), "log missing topics");
}
