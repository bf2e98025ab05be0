use lightpool_bridge::chain::{BridgeConfig, ContractAddress, InboundTokenLane};
use lightpool_bridge::evm_ws::{
    block_param, catch_up_range, evm_ws_url, latest_block, log_block_number, parse_hex_u64,
    DepositFeed, FeedMessage, FeedResult, RpcMessage, RpcSession, RpcStep,
};
use lightpool_bridge::lp_ws::{
    extract_inbound_withdraws, extract_outbound_withdraws, lp_ws_url, try_lp_ws_url, ws_port,
    CatchUp, InboundWithdrawEventPayload, OutboundWithdrawEventPayload, ReceiptBlock,
    TransactionEvent, TransactionOutput, WsUrlError,
};
use lightpool_bridge::route_config::{BridgeRoute, ForeignLeg, LocalInboundConfig};
use lightpool_bridge::route_state::EvmLog;
use lightpool_bridge::util::BridgeError;

#[test]
fn evm_websocket_addresses() {
    assert_eq!(evm_ws_url(" ws://h:1 "), "ws://h:1");
    assert_eq!(evm_ws_url("wss://h"), "wss://h");
    assert_eq!(evm_ws_url("http://127.0.0.1:8545"), "ws://127.0.0.1:8546");
    assert_eq!(evm_ws_url("https://h:8545/p:8545"), "wss://h:8546/p:8545");
    assert_eq!(evm_ws_url("http://h:9000"), "ws://h:9000");
    assert_eq!(evm_ws_url("h:8545"), "ws://h:8545");
}

#[test]
fn lightpool_websocket_addresses() {
    assert_eq!(lp_ws_url(" http://127.0.0.1:26300 "), Ok("ws://127.0.0.1:26400/".to_string()));
    assert_eq!(lp_ws_url("http://h/path"), Ok("ws://h/path".to_string()));
    assert_eq!(lp_ws_url("not a url"), Err(WsUrlError::NotUrl));
    assert_eq!(lp_ws_url("mailto:a@b"), Err(WsUrlError::Scheme));
    assert_eq!(WsUrlError::NotUrl.message("x"), "invalid RPC URL: x");
    assert_eq!(WsUrlError::Scheme.message("mailto:a@b"), "invalid RPC URL scheme: mailto:a@b");
    assert_eq!(WsUrlError::Port.message("x"), "failed to derive WebSocket port from x");
    assert_eq!(try_lp_ws_url("http://h:1"), Some(Ok("ws://h:101/".to_string())));
    assert_eq!(try_lp_ws_url("http://h:65435"), Some(Ok("ws://h:65535/".to_string())));
    assert_eq!(try_lp_ws_url("http://h:65436"), None);
    assert_eq!(try_lp_ws_url("nonsense"), Some(Err(WsUrlError::NotUrl)));
    assert_eq!(ws_port(26300), Some(26400));
    assert_eq!(ws_port(u16::MAX), None);
}

fn log(block: Option<&str>) -> EvmLog {
    EvmLog {
        topics: None,
        data: None,
        transaction_hash: None,
        block_number: block.map(|s| s.to_string()),
    }
}

#[test]
fn numbers_in_hexadecimal() {
    assert_eq!(parse_hex_u64("0xff"), Ok(255));
    assert_eq!(parse_hex_u64("xyz"), Err(BridgeError::Number));
    assert_eq!(block_param(0), "0x0");
    assert_eq!(block_param(255), "0xff");
    assert_eq!(block_param(u64::MAX), "0xffffffffffffffff");
    assert_eq!(log_block_number(&log(Some("0x10"))), Some(16));
    assert_eq!(log_block_number(&log(Some("?"))), None);
    assert_eq!(log_block_number(&log(None)), None);
    assert_eq!(latest_block(Some("0x2")), Ok(2));
    assert_eq!(latest_block(None), Ok(0));
    assert_eq!(latest_block(Some("")), Err(BridgeError::Number));
}

#[test]
fn blocks_to_catch_up_with() {
    assert_eq!(catch_up_range(0, 5, 100, 10), Some((5, 90)));
    assert_eq!(catch_up_range(50, 5, 100, 10), Some((51, 90)));
    assert_eq!(catch_up_range(90, 5, 100, 10), None);
    assert_eq!(catch_up_range(0, 0, 3, 10), Some((0, 0)));
    assert_eq!(catch_up_range(u64::MAX, 0, 3, 0), None);
}

fn message(sub: &str, number: Option<&str>, block: Option<&str>) -> FeedMessage {
    FeedMessage {
        method: Some("eth_subscription".to_string()),
        subscription: Some(sub.to_string()),
        result: Some(FeedResult { number: number.map(|s| s.to_string()), log: log(block) }),
    }
}

#[test]
fn logs_wait_for_their_confirmations_in_order() {
    let mut feed = DepositFeed::new(2, "heads".to_string(), "logs".to_string(), 10);
    feed.on_message(message("logs", None, Some("0xb"))).unwrap();
    feed.on_message(message("logs", None, Some("0xa"))).unwrap();
    assert!(feed.next_ready().is_none());
    feed.on_message(message("heads", Some("0xc"), None)).unwrap();
    // The log that came first holds up the one behind it.
    assert!(feed.next_ready().is_none());
    feed.on_message(message("heads", Some("0xd"), None)).unwrap();
    assert_eq!(feed.next_ready().unwrap().block, 11);
    assert_eq!(feed.next_ready().unwrap().block, 10);
    assert!(feed.next_ready().is_none());
}

#[test]
fn log_without_a_block_counts_from_the_latest() {
    let mut feed = DepositFeed::new(1, "heads".to_string(), "logs".to_string(), 10);
    feed.on_message(message("logs", None, None)).unwrap();
    assert!(feed.next_ready().is_none());
    feed.on_message(message("heads", Some("0xb"), None)).unwrap();
    assert_eq!(feed.next_ready().unwrap().block, 10);
}

#[test]
fn other_messages_are_passed_over() {
    let mut feed = DepositFeed::new(0, "heads".to_string(), "logs".to_string(), 10);
    let mut other = message("logs", None, Some("0x1"));
    other.method = Some("other".to_string());
    assert_eq!(feed.on_message(other), Ok(()));
    let mut no_method = message("logs", None, Some("0x1"));
    no_method.method = None;
    assert_eq!(feed.on_message(no_method), Ok(()));
    let mut no_result = message("logs", None, None);
    no_result.result = None;
    assert_eq!(feed.on_message(no_result), Ok(()));
    assert_eq!(feed.on_message(message("third", Some("0xff"), Some("0x1"))), Ok(()));
    assert_eq!(feed.on_message(message("heads", None, None)), Ok(()));
    assert_eq!(feed.latest_head, 10);
    assert!(feed.next_ready().is_none());
    assert_eq!(
        feed.on_message(message("heads", Some("?"), None)),
        Err(BridgeError::Number)
    );
}

#[test]
fn calls_are_numbered_and_answered() {
    let mut session = RpcSession::new();
    assert_eq!(session.ws_call("eth_blockNumber"), 1);
    assert_eq!(session.ws_call("eth_getLogs"), 2);
    assert_eq!(session.pending[&2], "eth_getLogs");
    let msg = |id, error, result| RpcMessage { id, error, result };
    assert_eq!(session.wait_for_result(msg(None, true, true)), RpcStep::Skip);
    assert_eq!(session.wait_for_result(msg(Some(1), true, true)), RpcStep::Error);
    assert_eq!(session.wait_for_result(msg(Some(2), false, true)), RpcStep::Result);
    assert_eq!(session.wait_for_result(msg(Some(3), false, false)), RpcStep::MissingResult);
    assert!(session.pending.is_empty());
}

fn contract(last: u8) -> ContractAddress {
    ContractAddress { bytes: [8, 0, 0, 0, 0, 0, 0, last] }
}

fn event(action: &str, bridge: u8, nonce: u64) -> TransactionEvent {
    TransactionEvent {
        call: Some(action.to_string()),
        contract: Some(contract(bridge)),
        outbound: Some(OutboundWithdrawEventPayload {
            bridge: contract(bridge),
            lane_index: 1,
            nonce,
            sender: [1; 20],
            foreign_recipient: [2; 20],
            amount: 3,
            token: contract(9),
        }),
        inbound: Some(InboundWithdrawEventPayload {
            lane_index: 2,
            nonce,
            sender: [1; 20],
            foreign_recipient: [2; 20],
            amount: 4,
            token: contract(9),
        }),
    }
}

#[test]
fn withdraws_in_a_block() {
    let mut unreadable = event("withdraw", 1, 5);
    unreadable.outbound = None;
    unreadable.inbound = None;
    let mut no_call = event("withdraw", 1, 6);
    no_call.call = None;
    let mut no_contract = event("withdraw", 1, 7);
    no_contract.contract = None;
    let block = ReceiptBlock {
        transaction_outputs: vec![
            TransactionOutput {
                success: true,
                events: vec![
                    event("withdraw", 1, 1),
                    event("deposit", 1, 2),
                    event("withdraw", 2, 3),
                    unreadable,
                    no_call,
                    no_contract,
                ],
            },
            TransactionOutput { success: false, events: vec![event("withdraw", 1, 8)] },
            TransactionOutput { success: true, events: vec![event("withdraw", 1, 9)] },
        ],
    };
    let out = extract_outbound_withdraws(&block, contract(1));
    assert_eq!(out.iter().map(|w| (w.lane_index, w.nonce, w.amount)).collect::<Vec<_>>(), vec![
        (1, 1, 3),
        (1, 9, 3)
    ]);
    let inb = extract_inbound_withdraws(&block, contract(2));
    assert_eq!(inb.len(), 1);
    assert_eq!((inb[0].lane_index, inb[0].nonce, inb[0].amount), (2, 3, 4));
}

fn route(lightpool: bool) -> BridgeRoute {
    BridgeRoute {
        id: "r".to_string(),
        enabled: true,
        local_inbound: LocalInboundConfig::default(),
        foreign: if lightpool {
            ForeignLeg::Lightpool {
                rpc_url: String::new(),
                chain_id: 2,
                outbound_bridge_contract: String::new(),
                foreign_token: String::new(),
            }
        } else {
            ForeignLeg::Evm {
                rpc_url: String::new(),
                chain_id: 2,
                bridge_address: String::new(),
                token_address: String::new(),
                confirmations: 0,
                start_block: 0,
            }
        },
    }
}

#[test]
fn every_earlier_withdraw_is_looked_at() {
    let lane = |lane_index, next_withdraw_nonce| InboundTokenLane {
        lane_index,
        foreign_token: [0; 20],
        lp_token: contract(1),
        next_withdraw_nonce,
    };
    let cfg = BridgeConfig {
        foreign_chain_id: 1,
        lanes: vec![lane(0, 1), lane(4, 3), lane(5, 0), lane(6, 2)],
    };
    let mut c = CatchUp::new(&route(true), &cfg);
    let mut all = Vec::new();
    while let Some(w) = c.next_withdraw() {
        all.push(w);
    }
    assert_eq!(all, vec![(4, 1), (4, 2), (6, 1)]);
    assert_eq!(c.next_withdraw(), None);
    assert_eq!(CatchUp::new(&route(false), &cfg).next_withdraw(), None);
}
