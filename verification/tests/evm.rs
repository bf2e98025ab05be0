use k256::ecdsa::{RecoveryId, Signature, SigningKey, VerifyingKey};
use lightpool_bridge::chain::{
    Authority, BridgeWithdrawRecord, BridgeWithdrawStatus, Committee, ContractAddress, PublicKey,
};
use lightpool_bridge::codec::EthSignError;
use lightpool_bridge::config::SecretKey;
use lightpool_bridge::evm::{
    addr_hex, already_processed_detail, block_duration_call, bytes32_hex,
    cast_finalize_committee_update, cast_finalize_withdraw, cast_request_committee_update,
    cast_request_withdraw, cast_result, committee_fits, dispute_block_delay, dispute_period_call,
    epoch_call, eth_block_number, eth_call_u64, eth_sign_digest, evm_withdraw_permanent_failure,
    fetch_dispute_params, key_text, request_committee_update_digest, request_withdraw_digest,
    secret_key_hex, split_signature, still_in_dispute_error, withdraw_id, CastOutput, EthSignature,
    EvmCommittee, EvmDisputeParams, RpcReply,
};
use lightpool_bridge::util::BridgeError;
use sha3::Digest;

fn authority(key: &str, addr: u8, stake: u64) -> Authority {
    Authority {
        public_key: PublicKey { encoded: key.to_string() },
        eth_address: [addr; 20],
        stake,
    }
}

fn bytes32(hex_text: &str) -> [u8; 32] {
    let mut out = [0u8; 32];
    for i in 0..32 {
        out[i] = u8::from_str_radix(&hex_text[2 * i..2 * i + 2], 16).unwrap();
    }
    out
}

const ID: &str = "ed0076b2f1bf332964322b1096769705d6c40957dfd0ab2f4307e35647010827";
const DIGEST: &str = "a3b92c08851fe7dd9654e99f73741cf40b2db4b5bf6e25190b229f156e4905d2";
const SIGNED: &str = "86bd36fa97c9be1daf85f067d0d9f22a1d7293734ccf552dbc0d0fe3921fb9d4";

#[test]
fn committees_are_sorted_and_keep_the_order_of_equals() {
    let list = vec![
        authority("a", 3, 30),
        authority("b", 1, 10),
        authority("c", 2, 0),
        authority("d", 1, 11),
    ];
    let all = EvmCommittee::from_authorities(9, &list);
    assert_eq!(all.epoch, 9);
    assert_eq!(all.validators, vec![[1; 20], [1; 20], [2; 20], [3; 20]]);
    assert_eq!(all.stakes, vec![10, 11, 0, 30]);
    let committee = Committee {
        epoch: (1u128 << 64) + 5,
        members: list,
        voting_keys: Vec::new(),
        quorum_threshold: 0,
    };
    let staked = EvmCommittee::from_validator_committee(&committee);
    assert_eq!(staked.epoch, 5);
    assert_eq!(staked.validators, vec![[1; 20], [1; 20], [3; 20]]);
    assert_eq!(staked.stakes, vec![10, 11, 30]);
}

#[test]
fn committee_does_not_depend_on_the_order_of_its_members() {
    let a = vec![authority("a", 3, 30), authority("b", 1, 10), authority("c", 2, 20)];
    let b = vec![authority("c", 2, 20), authority("a", 3, 30), authority("b", 1, 10)];
    assert_eq!(EvmCommittee::from_authorities(1, &a), EvmCommittee::from_authorities(1, &b));
}

#[test]
fn addresses_are_sorted_by_their_first_different_byte() {
    let mut low = authority("l", 0, 1);
    low.eth_address = [0; 20];
    low.eth_address[19] = 9;
    let mut high = authority("h", 0, 2);
    high.eth_address = [0; 20];
    high.eth_address[0] = 1;
    let c = EvmCommittee::from_authorities(0, &vec![high.clone(), low.clone()]);
    assert_eq!(c.validators, vec![low.eth_address, high.eth_address]);
    assert_eq!(c.stakes, vec![1, 2]);
}

#[test]
fn withdraws_are_named_by_the_hash_of_their_fields() {
    let id = withdraw_id(1, [0x11; 20], [0x22; 20], 1000, 7);
    assert_eq!(id, bytes32(ID));
    assert_ne!(withdraw_id(2, [0x11; 20], [0x22; 20], 1000, 7), id);
    assert_ne!(withdraw_id(1, [0x12; 20], [0x22; 20], 1000, 7), id);
    assert_ne!(withdraw_id(1, [0x11; 20], [0x23; 20], 1000, 7), id);
    assert_ne!(withdraw_id(1, [0x11; 20], [0x22; 20], 1001, 7), id);
    assert_eq!(
        withdraw_id(1, [0x11; 20], [0x22; 20], 1000, 0),
        bytes32("6aac1417bb33f1dc2a5788a0587a9253389c5053968f36509d1903575e951e57")
    );
}

#[test]
fn requests_are_signed_over_all_their_fields() {
    let digest =
        request_withdraw_digest(bytes32(ID), [0x11; 20], [0x22; 20], [0x33; 20], 1000, 1, 7);
    assert_eq!(digest, bytes32(DIGEST));
    assert_ne!(
        request_withdraw_digest(bytes32(ID), [0x11; 20], [0x22; 20], [0x34; 20], 1000, 1, 7),
        digest
    );
}

#[test]
fn signatures_recover_to_the_key() {
    let secret = SecretKey { bytes: [7; 32] };
    let s = eth_sign_digest(bytes32(DIGEST), &secret).unwrap();
    let mut bytes = [0u8; 64];
    bytes[..32].copy_from_slice(&s.r);
    bytes[32..].copy_from_slice(&s.s);
    let sig = Signature::from_slice(&bytes).unwrap();
    let id = RecoveryId::from_byte(s.v - 27).unwrap();
    let key = VerifyingKey::recover_from_prehash(&bytes32(SIGNED), &sig, id).unwrap();
    assert_eq!(&key, SigningKey::from_slice(&[7; 32]).unwrap().verifying_key());
    assert_eq!(eth_sign_digest(bytes32(DIGEST), &secret), Ok(s));
}

#[test]
fn a_zero_secret_signs_nothing() {
    let secret = SecretKey { bytes: [0; 32] };
    assert_eq!(eth_sign_digest([1; 32], &secret), Err(EthSignError::InvalidKey));
}

#[test]
fn signatures_are_taken_apart() {
    let mut bytes = [1u8; 64];
    bytes[32..].copy_from_slice(&[2; 32]);
    assert_eq!(split_signature(&bytes, 1), EthSignature { v: 28, r: [1; 32], s: [2; 32] });
}

#[test]
fn secrets_as_texts() {
    let secret = SecretKey { bytes: [0xab; 32] };
    assert_eq!(secret_key_hex(&secret), Ok(format!("0x{}", "ab".repeat(32))));
    assert_eq!(key_text(&vec![1; 31]), Err(BridgeError::SecretKey));
    assert_eq!(addr_hex(&[0x0f; 20]), format!("0x{}", "0f".repeat(20)));
    assert_eq!(bytes32_hex(&[0xf0; 32]), format!("0x{}", "f0".repeat(32)));
}

fn reply(error: bool, result: Option<&str>) -> RpcReply {
    RpcReply { error, result: result.map(|s| s.to_string()) }
}

#[test]
fn block_numbers() {
    assert_eq!(eth_block_number(&reply(false, Some("0x1a"))), Ok(26));
    // An error beside a result is not looked at here.
    assert_eq!(eth_block_number(&reply(true, Some("0x1a"))), Ok(26));
    assert_eq!(eth_block_number(&reply(false, None)), Err(BridgeError::MissingResult));
    assert_eq!(eth_block_number(&reply(false, Some("0x"))), Err(BridgeError::Number));
    assert_eq!(
        eth_block_number(&reply(false, Some("0x10000000000000000"))),
        Err(BridgeError::Number)
    );
    assert_eq!(eth_block_number(&reply(false, Some("+f"))), Ok(15));
}

#[test]
fn numbers_from_calls() {
    let word = format!("0x{}{}", "f".repeat(48), "00000000000003e8");
    assert_eq!(eth_call_u64(&reply(false, Some(&word))), Ok(1000));
    assert_eq!(eth_call_u64(&reply(false, Some("0x5"))), Ok(5));
    assert_eq!(eth_call_u64(&reply(true, Some("0x5"))), Err(BridgeError::Rpc));
    let cut = format!("{}123456789012345", "\u{e9}");
    assert_eq!(eth_call_u64(&reply(true, Some(&cut))), Err(BridgeError::Rpc));
    assert_eq!(eth_call_u64(&reply(false, None)), Err(BridgeError::MissingResult));
    assert_eq!(eth_call_u64(&reply(false, Some("0x"))), Err(BridgeError::EmptyResult));
    assert_eq!(eth_call_u64(&reply(false, Some("zz"))), Err(BridgeError::Number));
}

#[test]
fn dispute_parameters() {
    assert_eq!(dispute_period_call(), "0x0756183b");
    assert_eq!(block_duration_call(), "0x9d5bc9e1");
    assert_eq!(
        fetch_dispute_params(Ok(7), Ok(12)),
        Ok(EvmDisputeParams { period_seconds: 7, block_duration_millis: 12 })
    );
    assert_eq!(fetch_dispute_params(Err(BridgeError::Rpc), Ok(1)), Err(BridgeError::Rpc));
    assert_eq!(fetch_dispute_params(Ok(1), Err(BridgeError::Number)), Err(BridgeError::Number));
    assert_eq!(
        EvmDisputeParams::default(),
        EvmDisputeParams { period_seconds: 5, block_duration_millis: 1000 }
    );
}

#[test]
fn delay_outlasts_the_dispute_period() {
    let p = |period_seconds, block_duration_millis| EvmDisputeParams {
        period_seconds,
        block_duration_millis,
    };
    assert_eq!(dispute_block_delay(p(5, 1000), 1), 6);
    assert_eq!(dispute_block_delay(p(5, 12000), 1), 1);
    assert_eq!(dispute_block_delay(p(5, 300), 0), 17);
    assert_eq!(dispute_block_delay(p(5, 1000), 64), 64);
    assert_eq!(dispute_block_delay(p(5, 0), 1), 6);
    assert_eq!(dispute_block_delay(p(u64::MAX, 0), 1), u64::MAX);
    assert_eq!(dispute_block_delay(p(0, 1000), 0), 1);
    for (period, duration) in [(5, 300), (5, 1000), (60, 7), (1, 2000)] {
        let delay = dispute_block_delay(p(period, duration), 1);
        assert!(delay * duration > 1000 * period);
    }
    assert_eq!(dispute_block_delay(p(u64::MAX / 1000, 1), 1), (u64::MAX / 1000) * 1000 + 1);
}

#[test]
fn delay_of_a_period_with_more_milliseconds_than_a_word_counts() {
    let p = |period_seconds, block_duration_millis| EvmDisputeParams {
        period_seconds,
        block_duration_millis,
    };
    assert_eq!(dispute_block_delay(p(18446744073709552, 1000), 1), 18446744073709553);
    assert_eq!(dispute_block_delay(p(u64::MAX, 2000), 1), u64::MAX / 2 + 1);
    assert_eq!(dispute_block_delay(p(u64::MAX, u64::MAX), 1), 1001);
    assert_eq!(dispute_block_delay(p(u64::MAX - 1, 1000), 1), u64::MAX);
    assert_eq!(dispute_block_delay(p(u64::MAX, 1000), 1), u64::MAX);
    assert_eq!(dispute_block_delay(p(u64::MAX, 1), 7), u64::MAX);
}

#[test]
fn committee_update_digest() {
    let next = EvmCommittee {
        epoch: 9,
        validators: vec![[0x11; 20], [0x22; 20]],
        stakes: vec![100, 7],
    };
    let number = |n: u8| {
        let mut word = vec![0u8; 32];
        word[31] = n;
        word
    };
    let address = |a: u8| {
        let mut word = vec![0u8; 12];
        word.extend([a; 20]);
        word
    };
    let mut name = b"requestCommitteeUpdate".to_vec();
    name.resize(32, 0);
    let mut stakes_at = vec![0u8; 32];
    stakes_at[30] = 1;
    stakes_at[31] = 0x20;
    let words = [
        number(0x80),
        number(9),
        number(0xc0),
        stakes_at,
        number(22),
        name,
        number(2),
        address(0x11),
        address(0x22),
        number(2),
        number(100),
        number(7),
    ];
    let expected: [u8; 32] = sha3::Keccak256::digest(words.concat()).into();
    assert!(committee_fits(&next));
    assert_eq!(request_committee_update_digest(&next), expected);
    let mut other = next.clone();
    other.stakes[1] = 8;
    assert_ne!(request_committee_update_digest(&other), expected);
}

#[test]
fn committee_update_calls() {
    let next = EvmCommittee { epoch: 9, validators: vec![[0x11; 20]], stakes: vec![100] };
    let active = next.with_epoch(8);
    let signature = EthSignature { v: 27, r: [1; 32], s: [2; 32] };
    let address = format!("0x{}", "11".repeat(20));
    assert_eq!(
        cast_request_committee_update("http://e", "0xk", "0xb", &next, &active, &vec![signature]),
        vec![
            "send".to_string(),
            "0xb".to_string(),
            "requestCommitteeUpdate((uint64,address[],uint64[]),(uint64,address[],uint64[]),(uint8,bytes32,bytes32)[])"
                .to_string(),
            format!("(9,[{address}],[100])"),
            format!("(8,[{address}],[100])"),
            format!("[(27,0x{},0x{})]", "01".repeat(32), "02".repeat(32)),
            "--rpc-url".to_string(),
            "http://e".to_string(),
            "--private-key".to_string(),
            "0xk".to_string(),
            "--json".to_string(),
        ]
    );
    assert_eq!(
        cast_finalize_committee_update("http://e", "0xk", "0xb"),
        vec![
            "send",
            "0xb",
            "finalizeCommitteeUpdate()",
            "--rpc-url",
            "http://e",
            "--private-key",
            "0xk",
            "--json",
        ]
    );
    assert_eq!(epoch_call(), "0x900cf0cf");
    let selector = sha3::Keccak256::digest(b"epoch()");
    assert_eq!(selector[..4], [0x90, 0x0c, 0xf0, 0xcf]);
}

#[test]
fn errors_are_told_apart() {
    assert!(still_in_dispute_error("revert 0x2D3666C9"));
    assert!(still_in_dispute_error("StillInDispute()"));
    assert!(!still_in_dispute_error("other"));
    assert!(already_processed_detail("Message Already Processed"));
    assert!(already_processed_detail("AlreadyProcessed()"));
    assert!(already_processed_detail("data: 0x57EEE766"));
    assert!(!already_processed_detail("already"));
    assert!(evm_withdraw_permanent_failure("signer Not In Authorities"));
    assert!(evm_withdraw_permanent_failure("UNAUTHORIZED"));
    assert!(!evm_withdraw_permanent_failure("InvalidCommittee()"));
}

#[test]
fn arguments_of_a_request() {
    let record = BridgeWithdrawRecord {
        lane_index: 0,
        nonce: 1,
        sender: [0x11; 20],
        foreign_recipient: [0x22; 20],
        amount: 1000,
        token: ContractAddress { bytes: [2; 8] },
        status: BridgeWithdrawStatus::Pending,
    };
    let committee = EvmCommittee {
        epoch: 7,
        validators: vec![[0xaa; 20], [0xbb; 20]],
        stakes: vec![100, 200],
    };
    let args = cast_request_withdraw(
        "http://rpc",
        "0xkey",
        "0xbridge",
        [0xcd; 32],
        &record,
        [0x33; 20],
        7,
        &committee,
        &vec![EthSignature { v: 27, r: [1; 32], s: [2; 32] }],
    );
    let addr = |b: &str| format!("0x{}", b.repeat(20));
    let word = |b: &str| format!("0x{}", b.repeat(32));
    assert_eq!(
        args,
        vec![
            "send".to_string(),
            "0xbridge".to_string(),
            "requestWithdraw((bytes32,address,address,address,uint64,uint64,uint64),(uint64,address[],uint64[]),(uint8,bytes32,bytes32)[])".to_string(),
            format!("({},{},{},{},1000,1,7)", word("cd"), addr("11"), addr("22"), addr("33")),
            format!("(7,[{},{}],[100,200])", addr("aa"), addr("bb")),
            format!("[(27,{},{})]", word("01"), word("02")),
            "--rpc-url".to_string(),
            "http://rpc".to_string(),
            "--private-key".to_string(),
            "0xkey".to_string(),
            "--json".to_string(),
        ]
    );
    let empty = cast_request_withdraw(
        "r", "k", "b", [0; 32], &record, [0; 20], 0, &EvmCommittee::empty(0), &Vec::new(),
    );
    assert_eq!(empty[4], "(0,[],[])");
    assert_eq!(empty[5], "[]");
}

#[test]
fn arguments_of_a_finalization() {
    assert_eq!(
        cast_finalize_withdraw("http://rpc", "0xkey", "0xbridge", [0xcd; 32]),
        vec![
            "send".to_string(),
            "0xbridge".to_string(),
            "finalizeWithdraw(bytes32)".to_string(),
            format!("0x{}", "cd".repeat(32)),
            "--rpc-url".to_string(),
            "http://rpc".to_string(),
            "--private-key".to_string(),
            "0xkey".to_string(),
            "--json".to_string(),
        ]
    );
}

#[test]
fn results_of_cast() {
    assert_eq!(
        cast_result("requestWithdraw", &CastOutput::NotStarted),
        Err("failed to spawn cast for requestWithdraw".to_string())
    );
    assert_eq!(
        cast_result("finalizeWithdraw", &CastOutput::Failed("boom\n".to_string())),
        Err("cast finalizeWithdraw failed: boom\n".to_string())
    );
    assert_eq!(
        cast_result("x", &CastOutput::Succeeded(" {}\n".to_string())),
        Ok("{}".to_string())
    );
}
