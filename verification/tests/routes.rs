use lightpool_bridge::chain::{
    Authority, BridgeConfig, BridgeWithdrawRecord, BridgeWithdrawStatus, Committee,
    ContractAddress, InboundTokenLane, OutboundBridgeConfig, OutboundTokenLane,
    OutboundWithdrawRecord, OutboundWithdrawStatus, PublicKey,
};
use lightpool_bridge::codec::{EthSignError, HexError};
use lightpool_bridge::config::SecretKey;
use lightpool_bridge::events::{BridgeEventKind, BridgeEventLevel};
use lightpool_bridge::evm::withdraw_id;
use lightpool_bridge::labels::{
    emit_route, evm_token_label, foreign_kind_label, inbound_contract_for, is_evm_token_event,
    parse_inbound_contract, token_label,
};
use lightpool_bridge::lp_submit::LpReply;
use lightpool_bridge::messages::BridgeVote;
use lightpool_bridge::route_config::{BridgeRoute, ForeignLeg, LocalInboundConfig};
use lightpool_bridge::route_state::{EvmLog, RouteState};
use lightpool_bridge::util::{lock_source_hash, BridgeError};
use lightpool_bridge::withdraws::{bind_withdraw, lp_deposit_message};

const TOKEN: [u8; 20] = [0xaa; 20];

fn lp_token() -> ContractAddress {
    ContractAddress { bytes: [2, 0, 0, 0, 0, 0, 0, 7] }
}

fn cfg() -> BridgeConfig {
    BridgeConfig {
        foreign_chain_id: 1337,
        lanes: vec![InboundTokenLane {
            lane_index: 3,
            foreign_token: TOKEN,
            lp_token: lp_token(),
            next_withdraw_nonce: 12,
        }],
    }
}

fn evm_route() -> BridgeRoute {
    BridgeRoute {
        id: "evm".to_string(),
        enabled: true,
        local_inbound: LocalInboundConfig {
            bridge_contract: String::new(),
            lp_token: String::new(),
        },
        foreign: ForeignLeg::Evm {
            rpc_url: "http://e".to_string(),
            chain_id: 1337,
            bridge_address: "0xb".to_string(),
            token_address: format!(" 0x{} ", "aa".repeat(20)),
            confirmations: 1,
            start_block: 0,
        },
    }
}

fn lp_route() -> BridgeRoute {
    BridgeRoute {
        id: "lp".to_string(),
        enabled: true,
        local_inbound: LocalInboundConfig {
            bridge_contract: "0x0800000000000001".to_string(),
            lp_token: lp_token().label(),
        },
        foreign: ForeignLeg::Lightpool {
            rpc_url: "http://l".to_string(),
            chain_id: 2,
            outbound_bridge_contract: "0x0800000000000002".to_string(),
            foreign_token: "0x0200000000000001".to_string(),
        },
    }
}

fn loaded(id: &str) -> RouteState {
    let mut s = RouteState::new(id.to_string());
    s.refresh_route_config(Some(cfg()));
    s
}

fn word(hex_tail: &str) -> String {
    format!("{}{}", "0".repeat(64 - hex_tail.len()), hex_tail)
}

fn log(id: &str, token: &str, amount: &str) -> EvmLog {
    EvmLog {
        topics: Some(vec![
            "0xtopic".to_string(),
            format!("0x{}", word(id)),
            format!("0x{}", word(&"11".repeat(20))),
            format!("0x{}", word(&"22".repeat(20))),
        ]),
        data: Some(format!("0x{}{}{}", word(&token.repeat(20)), word(amount), word("5"))),
        transaction_hash: Some(format!("0x{}", "cd".repeat(32))),
        block_number: Some("0x5".to_string()),
    }
}

fn record(nonce: u64) -> BridgeWithdrawRecord {
    BridgeWithdrawRecord {
        lane_index: 3,
        nonce,
        sender: [0x11; 20],
        foreign_recipient: [0x22; 20],
        amount: 1000,
        token: lp_token(),
        status: BridgeWithdrawStatus::Pending,
    }
}

fn committee(epoch: u128) -> Committee {
    Committee {
        epoch,
        members: vec![Authority {
            public_key: PublicKey { encoded: "a".to_string() },
            eth_address: [9; 20],
            stake: 100,
        }],
        voting_keys: Vec::new(),
        quorum_threshold: 0,
    }
}

#[test]
fn deposit_log_gives_a_message_once() {
    let mut s = loaded("evm");
    let l = log("2a", "aa", "3e8");
    assert!(s.can_read(&evm_route(), &l));
    let (m, event) = s.on_evm_deposit_log(&evm_route(), &l, 9).unwrap().unwrap();
    assert_eq!(m.lane_index, 3);
    assert_eq!(m.message_id, 42);
    assert_eq!(m.source_chain_id, 1337);
    assert_eq!(m.token, lp_token());
    assert_eq!(m.amount, 1000);
    assert_eq!(m.sender_foreign, [0x11; 20]);
    assert_eq!(m.recipient, [0x22; 20]);
    assert_eq!(m.source_tx_hash, [0xcd; 32]);
    assert_eq!((m.source_block, m.epoch), (5, 9));
    assert_eq!(event.kind, BridgeEventKind::DepositSeen);
    assert_eq!(event.route_id, "evm");
    assert_eq!(event.token, Some(format!("0x{}", "aa".repeat(20))));
    assert_eq!((event.message_id, event.amount), (Some(42), Some(1000)));
    assert_eq!(event.detail, format!("EVM deposit recipient=0x{}", "22".repeat(20)));
    assert_eq!(s.on_evm_deposit_log(&evm_route(), &l, 10), Ok(None));
    assert_eq!(s.seen_deposits.len(), 1);
    assert!(s.on_evm_deposit_log(&evm_route(), &log("2b", "aa", "1"), 9).unwrap().is_some());
}

#[test]
fn other_logs_of_a_known_deposit_give_nothing() {
    let mut s = loaded("evm");
    assert!(s.on_evm_deposit_log(&evm_route(), &log("2a", "aa", "3e8"), 9).unwrap().is_some());
    assert!(s.on_evm_deposit_log(&evm_route(), &log("2b", "aa", "1"), 9).unwrap().is_some());
    assert_eq!(s.on_evm_deposit_log(&evm_route(), &log("2a", "aa", "7"), 11), Ok(None));
    assert_eq!(s.on_evm_deposit_log(&evm_route(), &log("2a", "bb", "3e8"), 11), Ok(None));
    assert_eq!(s.seen_deposits.len(), 2);
}

#[test]
fn topics_are_looked_at_only_as_far_as_they_are_read() {
    let cut = format!("0x{}{}", "\u{e9}", "1".repeat(39));
    let with_topic = |i: usize| {
        let mut l = log("2a", "aa", "3e8");
        l.topics.as_mut().unwrap()[i] = cut.clone();
        l
    };
    let mut s = loaded("evm");
    assert!(!s.can_read(&evm_route(), &with_topic(2)));
    assert!(!s.can_read(&evm_route(), &with_topic(3)));
    // Without a sender the recipient is not read.
    let mut no_sender = with_topic(3);
    no_sender.topics.as_mut().unwrap()[2] = "0x".to_string();
    assert!(s.can_read(&evm_route(), &no_sender));
    // Nor is anything of a log before the lane is known, or on another kind of route.
    assert!(RouteState::new("evm".to_string()).can_read(&evm_route(), &with_topic(2)));
    assert_eq!(
        RouteState::new("evm".to_string()).on_evm_deposit_log(&evm_route(), &with_topic(2), 9),
        Err(BridgeError::ConfigNotLoaded)
    );
    // Nor the accounts of a deposit that is known, or that has no number.
    assert!(s.on_evm_deposit_log(&evm_route(), &log("2a", "aa", "3e8"), 9).unwrap().is_some());
    assert!(s.can_read(&evm_route(), &with_topic(2)));
    assert_eq!(s.on_evm_deposit_log(&evm_route(), &with_topic(2), 9), Ok(None));
    let mut no_number = with_topic(2);
    no_number.topics.as_mut().unwrap()[1] = "0x".to_string();
    assert!(s.can_read(&evm_route(), &no_number));
    assert_eq!(
        s.on_evm_deposit_log(&evm_route(), &no_number, 9),
        Err(BridgeError::NumberTopicTooShort)
    );
}

#[test]
fn deposit_of_another_token_is_passed_over_and_remembered() {
    let mut s = loaded("evm");
    assert_eq!(s.on_evm_deposit_log(&evm_route(), &log("1", "bb", "1"), 0), Ok(None));
    assert_eq!(s.seen_deposits.len(), 1);
    // The hash of such a log is not even read.
    let mut no_hash = log("2", "bb", "1");
    no_hash.transaction_hash = None;
    assert_eq!(s.on_evm_deposit_log(&evm_route(), &no_hash, 0), Ok(None));
}

#[test]
fn deposit_log_errors() {
    let route = evm_route();
    let mut fresh = RouteState::new("evm".to_string());
    assert_eq!(
        fresh.on_evm_deposit_log(&route, &log("1", "aa", "1"), 0),
        Err(BridgeError::ConfigNotLoaded)
    );
    let mut s = loaded("evm");
    let mut l = log("1", "aa", "1");
    l.topics = None;
    assert_eq!(s.on_evm_deposit_log(&route, &l, 0), Err(BridgeError::NoTopics));
    l.topics = Some(vec!["0x".to_string(); 3]);
    assert_eq!(s.on_evm_deposit_log(&route, &l, 0), Ok(None));
    l.topics = Some(vec![String::new(); 4]);
    assert_eq!(s.on_evm_deposit_log(&route, &l, 0), Err(BridgeError::NumberTopicTooShort));
    assert_eq!(s.seen_deposits.len(), 0);
    let mut short = log("1", "aa", "1");
    short.data = Some("0x00".to_string());
    assert_eq!(s.on_evm_deposit_log(&route, &short, 0), Err(BridgeError::LogDataTooShort));
    let mut odd = log("2", "aa", "1");
    odd.data = Some("0x0".to_string());
    assert_eq!(
        s.on_evm_deposit_log(&route, &odd, 0),
        Err(BridgeError::Hex(HexError::OddLength))
    );
    let mut none = log("3", "aa", "1");
    none.data = None;
    assert_eq!(s.on_evm_deposit_log(&route, &none, 0), Err(BridgeError::LogDataTooShort));
    let mut no_hash = log("4", "aa", "1");
    no_hash.transaction_hash = None;
    assert_eq!(s.on_evm_deposit_log(&route, &no_hash, 0), Err(BridgeError::HashLength));
    // A log that failed after its number was read is not read again.
    assert_eq!(s.seen_deposits.len(), 4);
    assert_eq!(s.on_evm_deposit_log(&route, &log("4", "aa", "1"), 0), Ok(None));
}

#[test]
fn deposit_log_of_a_lightpool_route_is_passed_over() {
    let mut s = loaded("lp");
    assert_eq!(s.on_evm_deposit_log(&lp_route(), &log("1", "aa", "1"), 0), Ok(None));
    assert_eq!(s.seen_deposits.len(), 0);
}

#[test]
fn foreign_withdraw_gives_a_message_once() {
    let mut s = loaded("lp");
    let w = OutboundWithdrawRecord {
        lane_index: 0,
        nonce: 5,
        sender: [0x44; 20],
        foreign_recipient: [0x55; 20],
        amount: 6,
        token: lp_token(),
        status: OutboundWithdrawStatus::Pending,
    };
    let (m, event) = s.on_lp_foreign_withdraw(&lp_route(), &w, 8).unwrap().unwrap();
    assert_eq!((m.lane_index, m.message_id, m.source_chain_id), (3, 5, 2));
    assert_eq!((m.sender_foreign, m.recipient), ([0x44; 20], [0x55; 20]));
    assert_eq!((m.amount, m.source_block, m.epoch), (6, 0, 8));
    let bridge = ContractAddress { bytes: [8, 0, 0, 0, 0, 0, 0, 2] };
    assert_eq!(m.source_tx_hash, lock_source_hash(2, bridge, 5));
    assert_eq!(event.detail, format!("foreign LP deposit recipient=0x{}", "55".repeat(20)));
    assert_eq!(s.last_foreign_withdraw_nonce, 5);
    assert_eq!(s.on_lp_foreign_withdraw(&lp_route(), &w, 8), Ok(None));
    let lower = OutboundWithdrawRecord { nonce: 4, ..w };
    assert!(s.on_lp_foreign_withdraw(&lp_route(), &lower, 8).unwrap().is_some());
    assert_eq!(s.last_foreign_withdraw_nonce, 5);
    let settled = OutboundWithdrawRecord { nonce: 9, status: OutboundWithdrawStatus::Settled, ..w };
    assert_eq!(s.on_lp_foreign_withdraw(&lp_route(), &settled, 8), Ok(None));
    assert_eq!(s.last_foreign_withdraw_nonce, 5);
    let mut fresh = RouteState::new("lp".to_string());
    assert_eq!(
        fresh.on_lp_foreign_withdraw(&lp_route(), &w, 8),
        Err(BridgeError::ConfigNotLoaded)
    );
    let mut other = loaded("evm");
    assert_eq!(other.on_lp_foreign_withdraw(&evm_route(), &w, 8), Ok(None));
}

#[test]
fn evm_withdraw_is_queued_once() {
    let mut s = loaded("evm");
    let secret = SecretKey { bytes: [7; 32] };
    let event = s
        .enqueue_evm_withdraw(&evm_route(), &cfg(), &record(1), &committee(7), &secret)
        .unwrap()
        .unwrap();
    assert_eq!(event.kind, BridgeEventKind::WithdrawSeen);
    assert_eq!(event.token.as_deref(), Some("0x0200000000000007"));
    assert_eq!(event.detail, format!("withdraw to 0x{}", "22".repeat(20)));
    let item = s.pending_evm_withdraws[&1];
    assert_eq!(item.id, withdraw_id(1, [0x11; 20], [0x22; 20], 1000, 7));
    let bound = bind_withdraw(&record(1), TOKEN, 7, &secret).unwrap();
    assert_eq!((item.id, item.signature), bound);
    assert!(!item.requested && !item.finalized && !item.failed);
    assert_eq!((item.requested_block, item.requested_at_ms), (None, None));
    assert_eq!(
        s.enqueue_evm_withdraw(&evm_route(), &cfg(), &record(1), &committee(8), &secret),
        Ok(None)
    );
    assert_eq!(s.pending_evm_withdraws[&1].id, item.id);
}

#[test]
fn evm_withdraw_without_a_committee_is_bound_to_epoch_zero() {
    let mut s = loaded("evm");
    let empty = Committee {
        epoch: 44,
        members: Vec::new(),
        voting_keys: Vec::new(),
        quorum_threshold: 0,
    };
    let secret = SecretKey { bytes: [7; 32] };
    s.enqueue_evm_withdraw(&evm_route(), &cfg(), &record(1), &empty, &secret).unwrap();
    assert_eq!(
        s.pending_evm_withdraws[&1].id,
        withdraw_id(1, [0x11; 20], [0x22; 20], 1000, 0)
    );
}

#[test]
fn evm_withdraw_errors() {
    let mut s = loaded("evm");
    let bad = SecretKey { bytes: [0; 32] };
    assert_eq!(
        s.enqueue_evm_withdraw(&evm_route(), &cfg(), &record(1), &committee(7), &bad),
        Err(BridgeError::Sign(EthSignError::InvalidKey))
    );
    let no_lanes = BridgeConfig { foreign_chain_id: 1, lanes: Vec::new() };
    assert_eq!(
        s.enqueue_evm_withdraw(&evm_route(), &no_lanes, &record(1), &committee(7), &bad),
        Err(BridgeError::NoInboundLane)
    );
    assert!(s.pending_evm_withdraws.is_empty());
}

#[test]
fn local_withdraws_are_noted() {
    let mut s = RouteState::new("evm".to_string());
    assert!(s.wants_local_withdraw(&record(4)));
    let settled =
        BridgeWithdrawRecord { status: BridgeWithdrawStatus::Settled, ..record(4) };
    assert!(!s.wants_local_withdraw(&settled));
    assert_eq!(s.on_lp_local_withdraw(&record(4)), Err(BridgeError::ConfigNotLoaded));
    assert_eq!(s.last_withdraw_nonce, 4);
    s.refresh_route_config(Some(cfg()));
    assert_eq!(s.on_lp_local_withdraw(&record(2)), Ok(cfg()));
    assert_eq!(s.last_withdraw_nonce, 4);
    s.refresh_route_config(None);
    assert_eq!(s.require_route_config(), Ok(cfg()));
}

fn queue_payout(s: &mut RouteState) {
    let foreign = OutboundBridgeConfig {
        epoch: 6,
        lanes: vec![OutboundTokenLane {
            lane_index: 3,
            foreign_token: [0; 20],
            lp_token: ContractAddress { bytes: [2, 0, 0, 0, 0, 0, 0, 1] },
        }],
    };
    let bridge = s.lp_deposit_target(1, "0x0800000000000002").unwrap().unwrap();
    let m = lp_deposit_message(bridge, &foreign, &lp_route(), &record(1), 1).unwrap();
    assert_eq!(m.bridge.bytes, [8, 0, 0, 0, 0, 0, 0, 2]);
    assert_eq!((m.lane_index, m.message_id, m.source_chain_id), (3, 1, 1));
    assert_eq!(m.token.bytes, [2, 0, 0, 0, 0, 0, 0, 1]);
    assert_eq!((m.amount, m.source_block, m.epoch), (1000, 0, 6));
    assert_eq!((m.sender_foreign, m.recipient), ([0x11; 20], [0x22; 20]));
    let inbound = ContractAddress { bytes: [8, 0, 0, 0, 0, 0, 0, 1] };
    assert_eq!(m.source_tx_hash, lock_source_hash(1, inbound, 1));
    let vote = BridgeVote {
        validator: PublicKey { encoded: "a".to_string() },
        signature: vec![1],
    };
    let event = s.enqueue_lp_deposit(&lp_route(), &cfg(), &record(1), m, vote.clone()).unwrap();
    assert_eq!(event.kind, BridgeEventKind::WithdrawSeen);
    assert!(s.enqueue_lp_deposit(&lp_route(), &cfg(), &record(1), m, vote).is_none());
    assert_eq!(s.lp_deposit_target(1, "nonsense"), Ok(None));
}

#[test]
fn payout_is_submitted_by_the_leader_until_it_is_executed() {
    let mut s = loaded("lp");
    queue_payout(&mut s);
    assert!(s.try_submit_lp_deposit_nonce(&lp_route(), 1, false).unwrap().is_none());
    assert!(s.try_submit_lp_deposit_nonce(&lp_route(), 2, true).unwrap().is_none());
    assert!(s.try_submit_lp_deposit_nonce(&evm_route(), 1, true).unwrap().is_none());
    let (sub, event) = s.try_submit_lp_deposit_nonce(&lp_route(), 1, true).unwrap().unwrap();
    assert_eq!(sub.contract.bytes, [8, 0, 0, 0, 0, 0, 0, 2]);
    assert_eq!(sub.votes.len(), 1);
    assert_eq!(event.kind, BridgeEventKind::DepositSubmitted);
    assert_eq!(event.detail, "submitting foreign withdraw confirmation");
    let retry = s
        .finish_lp_deposit(&lp_route(), 1, &LpReply::Failed("timeout".to_string()))
        .unwrap();
    assert_eq!(retry.kind, BridgeEventKind::DepositFailed);
    assert_eq!((retry.level, retry.amount), (BridgeEventLevel::Error, None));
    assert!(s.wants_local_withdraw(&record(1)));
    assert_eq!(s.lp_deposit_nonces(), vec![1]);
    let ok = s.finish_lp_deposit(&lp_route(), 1, &LpReply::Executed).unwrap();
    assert_eq!(ok.kind, BridgeEventKind::DepositOk);
    assert_eq!(ok.detail, "foreign withdraw confirmed");
    assert_eq!(ok.amount, Some(1000));
    assert!(s.try_submit_lp_deposit_nonce(&lp_route(), 1, true).unwrap().is_none());
    assert!(!s.wants_local_withdraw(&record(1)));
    assert!(s.finish_lp_deposit(&lp_route(), 9, &LpReply::Executed).is_none());
}

#[test]
fn payout_that_was_executed_before_is_closed() {
    let mut s = loaded("lp");
    queue_payout(&mut s);
    let event = s
        .finish_lp_deposit(&lp_route(), 1, &LpReply::Rejected("AlreadyProcessed".to_string()))
        .unwrap();
    assert_eq!(event.detail, "foreign withdraw already processed");
    assert!(s.pending_lp_deposits[&1].submitted);
    let mut t = loaded("lp");
    queue_payout(&mut t);
    assert!(t
        .finish_lp_deposit(&lp_route(), 1, &LpReply::Failed("already processed".to_string()))
        .is_none());
    assert!(t.pending_lp_deposits[&1].submitted);
}

#[test]
fn payout_that_is_refused_for_good_is_closed() {
    for (status, closed) in [
        ("Failure(not in authorities)", true),
        ("Unauthorized", true),
        ("unauthorized", false),
        ("epoch mismatch: 1 vs 2", true),
        ("out of gas", false),
    ] {
        let mut s = loaded("lp");
        queue_payout(&mut s);
        let event = s
            .finish_lp_deposit(&lp_route(), 1, &LpReply::Rejected(status.to_string()))
            .unwrap();
        assert_eq!(event.kind, BridgeEventKind::DepositFailed);
        assert_eq!(event.detail, status);
        assert_eq!(s.pending_lp_deposits[&1].failed, closed);
        assert!(!s.pending_lp_deposits[&1].submitted);
    }
}

#[test]
fn labels_of_tokens_and_contracts() {
    let c = cfg();
    assert_eq!(token_label(&lp_route(), None), Some("0x0200000000000007".to_string()));
    assert_eq!(token_label(&evm_route(), None), None);
    assert_eq!(token_label(&evm_route(), Some(&c)), Some("0x0200000000000007".to_string()));
    assert_eq!(evm_token_label(&evm_route(), None), Some(format!("0x{}", "aa".repeat(20))));
    assert_eq!(evm_token_label(&lp_route(), None), None);
    assert_eq!(evm_token_label(&lp_route(), Some(&c)), Some(format!("0x{}", "aa".repeat(20))));
    assert_eq!(foreign_kind_label(&evm_route().foreign), "evm");
    assert_eq!(foreign_kind_label(&lp_route().foreign), "lightpool");
    assert_eq!(inbound_contract_for(&evm_route()).bytes, [8, 0, 0, 0, 0, 0, 0, 1]);
    let mut broken = evm_route();
    broken.local_inbound.bridge_contract = "xyz".to_string();
    assert!(parse_inbound_contract(&broken).is_err());
    assert_eq!(inbound_contract_for(&broken).bytes, [8, 0, 0, 0, 0, 0, 0, 0]);
}

#[test]
fn events_name_the_token_they_are_about() {
    let c = cfg();
    assert!(is_evm_token_event(BridgeEventKind::EvmFinalized));
    assert!(!is_evm_token_event(BridgeEventKind::WithdrawSeen));
    let token = |kind| {
        emit_route("r", &evm_route(), Some(&c), kind, BridgeEventLevel::Info, None, None, String::new())
            .token
    };
    assert_eq!(token(BridgeEventKind::EvmRequestSent), Some(format!("0x{}", "aa".repeat(20))));
    assert_eq!(token(BridgeEventKind::DepositOk), Some("0x0200000000000007".to_string()));
}

#[test]
fn blocks_that_were_read_never_go_back() {
    let mut s = RouteState::new("r".to_string());
    s.note_scanned_block(9);
    s.note_scanned_block(4);
    assert_eq!(s.last_scanned_block, 9);
}
