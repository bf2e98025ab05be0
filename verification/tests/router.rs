use lightpool_bridge::admin::{
    changes_status, create_route, default_event_page, default_event_page_size, delete_route, health,
    update_route, AppError, EventFilter,
};
use lightpool_bridge::chain::{
    Authority, BridgeConfig, BridgeDepositMessage, Committee, ContractAddress, InboundTokenLane,
    PublicKey,
};
use lightpool_bridge::config::{BridgeConfigError, BridgeLinkConfig, SecretKey, WriteOutcome};
use lightpool_bridge::events::{
    BridgeEventKind, BridgeEventLevel, BridgeEventRecord,
};
use lightpool_bridge::messages::BridgeLinkVote;
use lightpool_bridge::route_config::{BridgeRoute, ForeignLeg, LocalInboundConfig};
use lightpool_bridge::route_state::RouteState;
use lightpool_bridge::router::{
    build_route_states, subscriber_steps, BridgeRouter, RouteSlot, SubscriberKind, SubscriberStep,
};

fn evm(id: &str, enabled: bool) -> BridgeRoute {
    BridgeRoute {
        id: id.to_string(),
        enabled,
        local_inbound: LocalInboundConfig::default(),
        foreign: ForeignLeg::Evm {
            rpc_url: "http://e".to_string(),
            chain_id: 1,
            bridge_address: "0x1".to_string(),
            token_address: format!("0x{}", "aa".repeat(20)),
            confirmations: 1,
            start_block: 0,
        },
    }
}

fn lp(id: &str) -> BridgeRoute {
    BridgeRoute {
        foreign: ForeignLeg::Lightpool {
            rpc_url: "http://l".to_string(),
            chain_id: 2,
            outbound_bridge_contract: "0x0800000000000002".to_string(),
            foreign_token: "0x0200000000000001".to_string(),
        },
        ..evm(id, true)
    }
}

fn config(routes: Vec<BridgeRoute>) -> BridgeLinkConfig {
    BridgeLinkConfig { routes, ..BridgeLinkConfig::default() }
}

fn key(name: &str) -> PublicKey {
    PublicKey { encoded: name.to_string() }
}

fn committee() -> Committee {
    Committee {
        epoch: 3,
        members: vec![Authority { public_key: key("me"), eth_address: [1; 20], stake: 10 }],
        voting_keys: vec![key("me"), key("you")],
        quorum_threshold: 7,
    }
}

fn router(routes: Vec<BridgeRoute>) -> BridgeRouter {
    BridgeRouter::new(
        "c.json".to_string(),
        config(routes),
        key("me"),
        SecretKey { bytes: [7; 32] },
        committee(),
    )
}

#[test]
fn deposit_topic_is_the_hash_of_the_event() {
    assert_eq!(
        router(Vec::new()).deposit_topic(),
        "0x6b05e15d838e5a6f00aceccb7d2068b792ee9526f8a475baa31aa31c066a757b"
    );
}

#[test]
fn router_knows_itself() {
    let r = router(vec![evm("a", true)]);
    assert_eq!(r.local_name(), key("me"));
    assert_eq!(r.secret_key().bytes, [7; 32]);
    assert_eq!(r.config_snapshot(), config(vec![evm("a", true)]));
    assert!(r.is_leader(0));
    assert!(!r.is_leader(200));
    assert_eq!(r.route_cfg("a"), Some(evm("a", true)));
    assert_eq!(r.route_cfg("b"), None);
    assert_eq!(router(vec![evm("a", false)]).route_cfg("a"), None);
}

#[test]
fn configuration_is_taken_up_when_it_was_stored() {
    let mut r = router(vec![evm("a", true)]);
    let next = config(vec![evm("b", true)]);
    let prepared = r.prepare_config(next.clone()).unwrap();
    assert_eq!(prepared.evm_rpc_url, "http://e");
    let failed = WriteOutcome::NotRenamed("full".to_string());
    assert!(r.update_config(next.clone(), &failed).is_err());
    assert_eq!(r.config_snapshot(), config(vec![evm("a", true)]));
    assert_eq!(r.update_config(next, &WriteOutcome::Written), Ok(prepared.clone()));
    assert_eq!(r.config_snapshot(), prepared);
    let bad = config(vec![evm("b", true), evm("b", true)]);
    assert_eq!(
        r.update_config(bad, &WriteOutcome::Written),
        Err(BridgeConfigError::Validation {
            path: "c.json".to_string(),
            message: "duplicate route id: b".to_string()
        })
    );
    assert_eq!(r.config_snapshot(), prepared);
}

#[test]
fn committee_is_kept_when_it_cannot_be_read() {
    let mut r = router(Vec::new());
    r.refresh_committee(None);
    assert_eq!(r.committee, committee());
    let next = Committee { epoch: 4, ..committee() };
    r.refresh_committee(Some(next.clone()));
    assert_eq!(r.committee, next);
}

fn message() -> BridgeDepositMessage {
    BridgeDepositMessage {
        lane_index: 0,
        message_id: 1,
        source_chain_id: 1,
        token: ContractAddress { bytes: [2; 8] },
        amount: 5,
        sender_foreign: [0; 20],
        recipient: [0; 20],
        source_tx_hash: [0; 32],
        source_block: 0,
        epoch: 3,
    }
}

#[test]
fn status_of_routes() {
    let mut r = router(vec![evm("a", true), evm("off", false)]);
    let mut state = RouteState::new("a".to_string());
    state.refresh_route_config(Some(BridgeConfig {
        foreign_chain_id: 1,
        lanes: vec![InboundTokenLane {
            lane_index: 0,
            foreign_token: [0xaa; 20],
            lp_token: ContractAddress { bytes: [2, 0, 0, 0, 0, 0, 0, 5] },
            next_withdraw_nonce: 8,
        }],
    }));
    state.note_scanned_block(99);
    let vote = BridgeLinkVote::from_deposit(&message(), key("me"), vec![1], vec![2]);
    r.ingest_deposit_vote("a", &evm("a", true), vote.clone(), message());
    r.ingest_vote(BridgeLinkVote { validator: key("you"), ..vote });
    assert_eq!(r.pending.buckets[0].votes.len(), 2);
    assert_eq!(r.pending.buckets[0].inbound_contract.bytes, [8, 0, 0, 0, 0, 0, 0, 1]);
    assert_eq!(r.try_submit_deposits(0).len(), 1);
    assert!(r.try_submit_deposits(200).is_empty());
    let s = r.status_snapshot(&vec![state.summary()], "validator");
    assert!(s.running);
    assert_eq!((s.config_path.as_str(), s.validator.as_str()), ("c.json", "validator"));
    assert_eq!((s.committee_epoch, s.committee_size), (3, 1));
    assert_eq!((s.route_count, s.enabled_route_count), (2, 1));
    let a = &s.routes[0];
    assert_eq!((a.id.as_str(), a.enabled, a.foreign_kind.as_str()), ("a", true, "evm"));
    assert_eq!(a.inbound_contract, "0x0800000000000001");
    assert!(a.config_loaded);
    assert_eq!(a.lp_token_on_chain.as_deref(), Some("0x0200000000000005"));
    assert_eq!(a.evm_token_on_chain, Some(format!("0x{}", "aa".repeat(20))));
    assert_eq!((a.next_withdraw_nonce, a.last_scanned_block), (Some(8), 99));
    assert_eq!((a.pending_deposits, a.pending_evm_withdraws), (1, 0));
    assert_eq!((a.pending_lp_deposits, a.seen_deposits), (0, 0));
    let off = &s.routes[1];
    assert_eq!((off.id.as_str(), off.enabled, off.config_loaded), ("off", false, false));
    assert_eq!(off.inbound_contract, "0x0800000000000001");
    assert_eq!(off.next_withdraw_nonce, None);
}

#[test]
fn status_of_routes_with_a_broken_contract() {
    let mut broken = evm("a", true);
    broken.local_inbound.bridge_contract = "xyz".to_string();
    let r = router(vec![broken]);
    let idle = r.status_snapshot(&Vec::new(), "v");
    assert_eq!(idle.routes[0].inbound_contract, "");
    let active = r.status_snapshot(&vec![RouteState::new("a".to_string()).summary()], "v");
    assert_eq!(active.routes[0].inbound_contract, "0x0800000000000000");
    assert!(!active.routes[0].config_loaded);
}

#[test]
fn known_routes_keep_their_memory() {
    let c = config(vec![evm("new", true), evm("off", false), lp("old")]);
    let previous = vec!["off".to_string(), "old".to_string()];
    assert_eq!(
        build_route_states(&c, &previous),
        vec![RouteSlot::Fresh("new".to_string()), RouteSlot::Existing(1)]
    );
}

fn steps(kind: SubscriberKind, running: &[&str], states: &[&str]) -> Vec<String> {
    let c = config(vec![evm("a", true), lp("b"), evm("off", false), evm("c", true)]);
    let owned = |v: &[&str]| v.iter().map(|s| s.to_string()).collect::<Vec<_>>();
    subscriber_steps(&c, kind, &owned(running), &owned(states))
        .iter()
        .map(|step| match step {
            SubscriberStep::Stop(id) => format!("-{id}"),
            SubscriberStep::Start(route) => format!("+{}", route.id),
        })
        .collect()
}

#[test]
fn subscriptions_follow_the_configuration() {
    assert_eq!(
        steps(SubscriberKind::Evm, &["off", "a", "gone"], &["a", "b", "c"]),
        vec!["-off", "-gone", "+a", "+c"]
    );
    assert_eq!(steps(SubscriberKind::LpForeign, &["a"], &["b"]), vec!["-a", "+b"]);
    assert_eq!(steps(SubscriberKind::LpLocal, &[], &["a", "b", "c"]), vec!["+a", "+b", "+c"]);
    assert_eq!(steps(SubscriberKind::Evm, &["c"], &["a"]), vec!["+a", "-c"]);
}

#[test]
fn health_counts_routes() {
    let h = health(&config(vec![evm("a", true), evm("b", false)]), "p");
    assert!(h.ok);
    assert_eq!((h.config_path.as_str(), h.route_count, h.enabled_route_count), ("p", 2, 1));
    assert_eq!((default_event_page(), default_event_page_size()), (1, 50));
}

#[test]
fn routes_are_created() {
    let c = create_route(config(vec![evm("a", true)]), lp("b")).unwrap();
    assert_eq!(c.routes, vec![evm("a", true), lp("b")]);
    assert_eq!(
        create_route(c.clone(), evm(" ", true)),
        Err(AppError { status: 400, message: "route id must not be empty".to_string() })
    );
    assert_eq!(
        create_route(c.clone(), evm("a", true)),
        Err(AppError { status: 400, message: "route id already exists: a".to_string() })
    );
    assert_eq!(delete_route(c, "b"), Ok(config(vec![evm("a", true)])));
}

#[test]
fn routes_are_updated() {
    let c = config(vec![evm("a", true), evm("b", true)]);
    let updated = update_route(c.clone(), "b", evm("b", false)).unwrap();
    assert_eq!(updated.routes, vec![evm("a", true), evm("b", false)]);
    assert_eq!(
        update_route(c.clone(), "a", evm("b", true)),
        Err(AppError {
            status: 400,
            message: "route id in path and body must match".to_string()
        })
    );
    assert_eq!(
        update_route(c, "z", evm("z", true)),
        Err(AppError { status: 404, message: "route not found: z".to_string() })
    );
}

#[test]
fn routes_are_deleted() {
    let c = config(vec![evm("a", true), evm("b", true), evm("a", false)]);
    assert_eq!(delete_route(c.clone(), "a"), Ok(config(vec![evm("b", true)])));
    assert_eq!(
        delete_route(c, "z"),
        Err(AppError { status: 404, message: "route not found: z".to_string() })
    );
    let err = AppError::from_config(&BridgeConfigError::Validation {
        path: "p".to_string(),
        message: "m".to_string(),
    });
    assert_eq!(err, AppError { status: 500, message: "invalid bridge config 'p': m".to_string() });
}

#[test]
fn listeners_get_the_events_they_want() {
    let event = BridgeEventRecord {
        id: 1,
        ts_ms: 2,
        route_id: "r".to_string(),
        token: Some("t".to_string()),
        kind: BridgeEventKind::DepositOk,
        level: BridgeEventLevel::Info,
        message_id: None,
        amount: None,
        detail: String::new(),
    };
    let some = |s: &str| Some(s.to_string());
    assert!(EventFilter::new(None, None).accepts(&event));
    assert!(EventFilter::new(some(""), some("")).accepts(&event));
    assert!(EventFilter::new(some("r"), some("t")).accepts(&event));
    assert!(!EventFilter::new(some("x"), None).accepts(&event));
    assert!(!EventFilter::new(None, some("x")).accepts(&event));
    let no_token = BridgeEventRecord { token: None, ..event };
    assert!(!EventFilter::new(None, some("t")).accepts(&no_token));
    assert!(changes_status(BridgeEventKind::ConfigUpdated));
    assert!(changes_status(BridgeEventKind::RouteReloaded));
    assert!(!changes_status(BridgeEventKind::DepositOk));
}
