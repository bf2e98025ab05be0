use lightpool_bridge::chain::{
    Authority, BridgeConfig, BridgeWithdrawRecord, BridgeWithdrawStatus, Committee,
    ContractAddress, InboundTokenLane, PublicKey,
};
use lightpool_bridge::codec::EthSignError;
use lightpool_bridge::committee_sync::{CommitteeSync, SyncAction};
use lightpool_bridge::config::{BridgeLinkConfig, SecretKey};
use lightpool_bridge::events::{BridgeEventKind, BridgeEventLevel};
use lightpool_bridge::evm::{
    cast_request_committee_update, eth_sign_digest, request_committee_update_digest, withdraw_id,
    EvmDisputeParams,
};
use lightpool_bridge::evm_finalize::{FinalizeAction, FinalizeRun};
use lightpool_bridge::evm_request::{
    can_request, invalid_committee_error, with_hint, CastRequest, RequestAction, RequestRun,
};
use lightpool_bridge::route_config::{BridgeRoute, ForeignLeg, LocalInboundConfig};
use lightpool_bridge::route_state::RouteState;
use lightpool_bridge::util::BridgeError;

const SECRET: SecretKey = SecretKey { bytes: [7; 32] };

fn link() -> BridgeLinkConfig {
    BridgeLinkConfig::default()
}

fn cfg() -> BridgeConfig {
    BridgeConfig {
        foreign_chain_id: 1337,
        lanes: vec![InboundTokenLane {
            lane_index: 0,
            foreign_token: [0xaa; 20],
            lp_token: ContractAddress { bytes: [2, 0, 0, 0, 0, 0, 0, 7] },
            next_withdraw_nonce: 2,
        }],
    }
}

fn route() -> BridgeRoute {
    BridgeRoute {
        id: "r".to_string(),
        enabled: true,
        local_inbound: LocalInboundConfig::default(),
        foreign: ForeignLeg::Evm {
            rpc_url: "http://e".to_string(),
            chain_id: 1337,
            bridge_address: "0xb".to_string(),
            token_address: format!("0x{}", "aa".repeat(20)),
            confirmations: 2,
            start_block: 0,
        },
    }
}

fn lp_route() -> BridgeRoute {
    BridgeRoute {
        foreign: ForeignLeg::Lightpool {
            rpc_url: "http://l".to_string(),
            chain_id: 2,
            outbound_bridge_contract: "0x0800000000000002".to_string(),
            foreign_token: "0x0200000000000001".to_string(),
        },
        ..route()
    }
}

fn committee(epoch: u128, stakes: &[u64]) -> Committee {
    Committee {
        epoch,
        members: stakes
            .iter()
            .enumerate()
            .map(|(i, stake)| Authority {
                public_key: PublicKey { encoded: format!("k{i}") },
                eth_address: [i as u8; 20],
                stake: *stake,
            })
            .collect(),
        voting_keys: Vec::new(),
        quorum_threshold: 0,
    }
}

fn record() -> BridgeWithdrawRecord {
    BridgeWithdrawRecord {
        lane_index: 0,
        nonce: 1,
        sender: [0x11; 20],
        foreign_recipient: [0x22; 20],
        amount: 1000,
        token: ContractAddress { bytes: [2, 0, 0, 0, 0, 0, 0, 7] },
        status: BridgeWithdrawStatus::Pending,
    }
}

fn queued() -> RouteState {
    let mut s = RouteState::new("r".to_string());
    s.refresh_route_config(Some(cfg()));
    s.enqueue_evm_withdraw(&route(), &cfg(), &record(), &committee(7, &[100]), &SECRET).unwrap();
    s
}

fn run() -> RequestRun {
    RequestRun::open("r", &route(), &cfg(), 1).unwrap()
}

fn cast(action: RequestAction) -> CastRequest {
    match action {
        RequestAction::Cast(request) => request,
        other => panic!("expected a request, got {other:?}"),
    }
}

#[test]
fn request_succeeds() {
    let mut s = queued();
    let mut r = run();
    let request = cast(r.begin(&mut s, &committee(8, &[100, 0, 50]), 5000, &SECRET).unwrap());
    // The withdraw is named anew for the epoch of the moment.
    assert_eq!(request.id, withdraw_id(1, [0x11; 20], [0x22; 20], 1000, 8));
    assert_eq!(s.pending_evm_withdraws[&1].id, request.id);
    assert_eq!((request.epoch, request.committee.epoch), (8, 8));
    assert_eq!(request.committee.stakes, vec![100, 50]);
    assert_eq!(request.foreign_token, [0xaa; 20]);
    assert_eq!(request.record, record());
    let sent = r.on_cast_ok();
    assert!(matches!(sent.action, RequestAction::AskBlock));
    let event = sent.event.unwrap();
    assert_eq!(event.kind, BridgeEventKind::EvmRequestSent);
    assert_eq!(event.detail, "EVM requestWithdraw sent nonce=1");
    assert_eq!(event.token, Some(format!("0x{}", "aa".repeat(20))));
    assert_eq!((event.message_id, event.amount), (Some(1), Some(1000)));
    assert!(matches!(r.on_block(&mut s, Some(77)), RequestAction::Finish(true)));
    let item = s.pending_evm_withdraws[&1];
    assert!(item.requested);
    assert_eq!((item.requested_block, item.requested_at_ms), (Some(77), Some(5000)));
    // A later run has nothing to request.
    let mut again = run();
    let action = again.begin(&mut s, &committee(8, &[100]), 6000, &SECRET).unwrap();
    assert!(matches!(action, RequestAction::Finish(true)));
}

#[test]
fn request_is_repeated_when_the_block_is_unknown() {
    let mut s = queued();
    let mut r = run();
    let c = committee(8, &[100]);
    for _ in 0..5 {
        cast(r.begin(&mut s, &c, 1, &SECRET).unwrap());
        r.on_cast_ok();
        assert!(matches!(r.on_block(&mut s, None), RequestAction::Retry(0)));
        let item = s.pending_evm_withdraws[&1];
        assert!(!item.requested);
        assert_eq!((item.requested_block, item.requested_at_ms), (None, None));
    }
    let last = r.begin(&mut s, &c, 1, &SECRET).unwrap();
    assert!(matches!(last, RequestAction::Finish(false)));
}

#[test]
fn request_that_is_on_the_chain_already() {
    let mut s = queued();
    let mut r = run();
    cast(r.begin(&mut s, &committee(8, &[100]), 9, &SECRET).unwrap());
    let reply = r.on_cast_err(&mut s, "revert AlreadyProcessed()".to_string());
    assert!(reply.event.is_none());
    assert!(matches!(reply.action, RequestAction::AskBlock));
    assert!(matches!(r.on_block(&mut s, Some(5)), RequestAction::Finish(true)));
    assert_eq!(s.pending_evm_withdraws[&1].requested_block, Some(5));
    let mut t = queued();
    let mut q = run();
    cast(q.begin(&mut t, &committee(8, &[100]), 9, &SECRET).unwrap());
    q.on_cast_err(&mut t, "already processed".to_string());
    assert!(matches!(q.on_block(&mut t, None), RequestAction::Finish(false)));
    let item = t.pending_evm_withdraws[&1];
    assert!(item.requested);
    assert_eq!((item.requested_block, item.requested_at_ms), (None, Some(9)));
}

#[test]
fn request_fails_after_five_attempts() {
    let mut s = queued();
    let mut r = run();
    let c = committee(8, &[100]);
    for attempt in 1..=5 {
        cast(r.begin(&mut s, &c, 1, &SECRET).unwrap());
        let reply = r.on_cast_err(&mut s, "boom".to_string());
        if attempt < 5 {
            assert!(reply.event.is_none());
            assert!(matches!(reply.action, RequestAction::Retry(1)));
        } else {
            let event = reply.event.unwrap();
            assert_eq!(event.kind, BridgeEventKind::EvmRequestFailed);
            assert_eq!(event.level, BridgeEventLevel::Warn);
            assert_eq!(event.detail, "boom");
            assert!(matches!(reply.action, RequestAction::Finish(false)));
        }
    }
    assert!(!s.pending_evm_withdraws[&1].failed);
}

#[test]
fn request_refused_for_good() {
    let mut s = queued();
    let mut r = run();
    cast(r.begin(&mut s, &committee(8, &[100]), 1, &SECRET).unwrap());
    let reply = r.on_cast_err(&mut s, "Unauthorized".to_string());
    assert_eq!(reply.event.unwrap().detail, "Unauthorized");
    assert!(matches!(reply.action, RequestAction::Finish(false)));
    assert!(s.pending_evm_withdraws[&1].failed);
    let mut again = run();
    let action = again.begin(&mut s, &committee(8, &[100]), 1, &SECRET).unwrap();
    assert!(matches!(action, RequestAction::Finish(false)));
}

#[test]
fn unknown_committee_is_brought_up_to_date() {
    let mut s = queued();
    let mut r = run();
    let c = committee(8, &[100]);
    cast(r.begin(&mut s, &c, 1, &SECRET).unwrap());
    let reply = r.on_cast_err(&mut s, "InvalidCommittee()".to_string());
    assert!(matches!(reply.action, RequestAction::SyncCommittee));
    let synced = r.on_sync(&mut s, None);
    assert!(synced.event.is_none());
    assert!(matches!(synced.action, RequestAction::Retry(1)));
    for _ in 0..3 {
        cast(r.begin(&mut s, &c, 1, &SECRET).unwrap());
        r.on_cast_err(&mut s, "boom".to_string());
    }
    cast(r.begin(&mut s, &c, 1, &SECRET).unwrap());
    r.on_cast_err(&mut s, "0x7ffe1a65".to_string());
    let failed = r.on_sync(&mut s, Some("no epoch".to_string()));
    assert_eq!(failed.event.unwrap().detail, "0x7ffe1a65; committee sync: no epoch");
    assert!(matches!(failed.action, RequestAction::Finish(false)));
}

#[test]
fn requests_that_cannot_begin() {
    let mut s = queued();
    let mut r = run();
    let bad = SecretKey { bytes: [0; 32] };
    assert!(matches!(
        r.begin(&mut s, &committee(8, &[100]), 1, &bad),
        Err(BridgeError::Sign(EthSignError::InvalidKey))
    ));
    let mut other = RequestRun::open("r", &route(), &cfg(), 2).unwrap();
    let action = other.begin(&mut s, &committee(8, &[100]), 1, &SECRET).unwrap();
    assert!(matches!(action, RequestAction::Finish(false)));
    let empty = BridgeConfig { foreign_chain_id: 1, lanes: Vec::new() };
    assert!(matches!(
        RequestRun::open("r", &route(), &empty, 1),
        Err(BridgeError::NoInboundLane)
    ));
    assert!(can_request(&route(), Some(&cfg())));
    assert!(!can_request(&route(), None));
    assert!(!can_request(&lp_route(), Some(&cfg())));
}

#[test]
fn request_without_a_committee_has_epoch_zero() {
    let mut s = queued();
    let mut r = run();
    let request = cast(r.begin(&mut s, &committee(8, &[]), 1, &SECRET).unwrap());
    assert_eq!((request.epoch, request.committee.epoch), (0, 0));
    assert!(request.committee.validators.is_empty());
}

#[test]
fn errors_of_requests() {
    assert!(invalid_committee_error("InvalidCommittee()"));
    assert!(invalid_committee_error("invalid Committee"));
    assert!(invalid_committee_error("0x7ffe1a65"));
    assert!(!invalid_committee_error("0x7FFE1A65"));
    assert_eq!(with_hint("boom".to_string()), "boom");
    let hint = " (hint: EVM Bridge genesis committee likely mismatches LightPool; redeploy Bridge with VALIDATOR_STAKE matching getCommitteeInfo, default 100)";
    assert_eq!(with_hint("cannot estimate gas".to_string()), format!("cannot estimate gas{hint}"));
    assert_eq!(with_hint("eth_estimateGas".to_string()), format!("eth_estimateGas{hint}"));
}

fn requested_at(block: u64, at_ms: u64) -> RouteState {
    let mut s = queued();
    let mut r = run();
    cast(r.begin(&mut s, &committee(8, &[100]), at_ms, &SECRET).unwrap());
    r.on_cast_ok();
    r.on_block(&mut s, Some(block));
    s
}

#[test]
fn withdraw_is_finalized_after_the_dispute_window() {
    let mut s = requested_at(100, 50_000);
    let f = FinalizeRun::open("r", &route(), Some(&cfg()), 1, None, &link()).unwrap();
    assert_eq!((f.period_seconds, f.delay), (5, 6));
    let item = f.waiting(&s).unwrap();
    let wait = FinalizeAction::Wait(1000);
    assert_eq!(f.on_look(&item, 60_000, None), wait);
    assert_eq!(f.on_look(&item, 60_000, Some(105)), wait);
    assert_eq!(f.on_look(&item, 55_000, Some(106)), wait);
    assert_eq!(f.on_look(&item, 55_001, Some(106)), FinalizeAction::Finalize);
    let disputed = f.on_finalize_err(&item, "StillInDispute()");
    assert!(disputed.event.is_none());
    assert_eq!(disputed.action, wait);
    let reply = f.on_finalize_err(&item, "boom");
    assert_eq!(reply.action, wait);
    let failed = reply.event.unwrap();
    assert_eq!(failed.kind, BridgeEventKind::EvmFinalizeFailed);
    assert_eq!(failed.detail, "nonce=1: boom");
    let done = f.on_finalized(&mut s, &item);
    assert_eq!(done.kind, BridgeEventKind::EvmFinalized);
    assert_eq!(done.detail, "EVM withdraw finalized nonce=1");
    assert_eq!((done.message_id, done.amount), (Some(1), Some(1000)));
    assert!(s.pending_evm_withdraws[&1].finalized);
    assert!(f.waiting(&s).is_none());
}

#[test]
fn finalization_is_polled_at_the_interval_that_is_set() {
    let s = requested_at(100, 50_000);
    assert_eq!(link().finalize_wait_ms(), 1000);
    let often = BridgeLinkConfig { poll_interval_ms: Some(250), ..link() };
    assert_eq!(often.finalize_wait_ms(), 250);
    let f = FinalizeRun::open("r", &route(), Some(&cfg()), 1, None, &often).unwrap();
    let item = f.waiting(&s).unwrap();
    assert_eq!(f.on_look(&item, 50_001, Some(101)), FinalizeAction::Wait(250));
    assert_eq!(f.on_finalize_err(&item, "boom").action, FinalizeAction::Wait(250));
}

#[test]
fn nothing_to_wait_for() {
    let s = queued();
    let f = FinalizeRun::open("r", &route(), None, 1, None, &link()).unwrap();
    assert!(f.waiting(&s).is_none());
    let g = FinalizeRun::open("r", &route(), None, 9, None, &link()).unwrap();
    assert!(g.waiting(&s).is_none());
    assert!(FinalizeRun::open("r", &lp_route(), None, 1, None, &link()).is_none());
}

#[test]
fn waits_near_the_end_of_the_range_are_cut_off() {
    let s = requested_at(u64::MAX, u64::MAX);
    let params = EvmDisputeParams { period_seconds: u64::MAX, block_duration_millis: 0 };
    let f = FinalizeRun::open("r", &route(), None, 1, Some(params), &link()).unwrap();
    assert_eq!(f.delay, u64::MAX);
    let item = f.waiting(&s).unwrap();
    assert!(!f.is_due(&item, u64::MAX - 1, Some(u64::MAX)));
    assert!(f.is_due(&item, u64::MAX, Some(u64::MAX)));
}

fn finish(action: SyncAction) -> Option<String> {
    match action {
        SyncAction::Finish(error) => error,
        other => panic!("expected the end, got {other:?}"),
    }
}

fn requested_sync() -> CommitteeSync {
    let mut sync = CommitteeSync::open(&route(), &committee(9, &[100])).unwrap();
    assert!(matches!(sync.on_epoch(Ok(8)), SyncAction::LockAndAskEpoch));
    match sync.on_epoch(Ok(8)) {
        SyncAction::Request { active } => {
            assert_eq!(active.epoch, 8);
            assert_eq!(active.stakes, vec![100]);
        }
        other => panic!("expected a request, got {other:?}"),
    }
    sync
}

fn waiting_sync() -> CommitteeSync {
    let mut sync = requested_sync();
    assert!(matches!(sync.on_request(None), SyncAction::AskDispute));
    assert!(matches!(sync.on_dispute(Some(10), 1000, None), SyncAction::Look));
    sync
}

#[test]
fn committee_needs_no_change() {
    assert!(CommitteeSync::open(&lp_route(), &committee(9, &[100])).is_none());
    assert!(CommitteeSync::open(&route(), &committee(9, &[])).is_none());
    assert!(CommitteeSync::open(&route(), &committee(9, &[0])).is_none());
    let mut same = CommitteeSync::open(&route(), &committee(9, &[100])).unwrap();
    assert_eq!(finish(same.on_epoch(Ok(9))), None);
    let mut unknown = CommitteeSync::open(&route(), &committee(9, &[100])).unwrap();
    assert_eq!(finish(unknown.on_epoch(Err("no epoch()".to_string()))), None);
    let mut raced = CommitteeSync::open(&route(), &committee(9, &[100])).unwrap();
    raced.on_epoch(Ok(8));
    assert_eq!(finish(raced.on_epoch(Ok(9))), None);
    let mut lost = CommitteeSync::open(&route(), &committee(9, &[100])).unwrap();
    lost.on_epoch(Ok(8));
    assert_eq!(finish(lost.on_epoch(Err("gone".to_string()))), Some("gone".to_string()));
}

#[test]
fn committee_is_finalized_after_the_dispute_window() {
    let mut sync = waiting_sync();
    assert!(matches!(sync.on_look(7000, Some(15)), SyncAction::Sleep(500)));
    assert!(matches!(sync.on_slept(), SyncAction::Look));
    assert!(matches!(sync.on_look(6000, Some(16)), SyncAction::Sleep(500)));
    assert!(matches!(sync.on_slept(), SyncAction::Look));
    assert!(matches!(sync.on_look(6001, None), SyncAction::Sleep(500)));
    assert!(matches!(sync.on_slept(), SyncAction::Look));
    assert!(matches!(sync.on_look(6001, Some(16)), SyncAction::Finalize));
    assert!(matches!(
        sync.on_finalize(Some("0x2d3666c9".to_string())),
        SyncAction::Sleep(500)
    ));
    assert!(matches!(sync.on_slept(), SyncAction::Look));
    assert!(matches!(sync.on_look(6001, Some(16)), SyncAction::Finalize));
    assert!(matches!(sync.on_finalize(None), SyncAction::AskEpoch));
    assert_eq!(finish(sync.on_epoch(Ok(9))), None);
}

#[test]
fn committee_errors() {
    let mut refused = requested_sync();
    assert_eq!(
        finish(refused.on_request(Some("boom".to_string()))),
        Some("boom".to_string())
    );
    let mut pending = requested_sync();
    assert!(matches!(
        pending.on_request(Some("AlreadyProcessed".to_string())),
        SyncAction::AskDispute
    ));
    let finalize = |error: Option<&str>| {
        let mut sync = waiting_sync();
        sync.on_look(6001, Some(16));
        assert!(matches!(
            sync.on_finalize(error.map(|e| e.to_string())),
            SyncAction::AskEpoch
        ));
        sync
    };
    assert_eq!(
        finish(finalize(None).on_epoch(Ok(8))),
        Some("EVM Bridge epoch 8 still behind LightPool epoch 9".to_string())
    );
    assert_eq!(
        finish(finalize(None).on_epoch(Err("gone".to_string()))),
        Some("gone".to_string())
    );
    assert_eq!(finish(finalize(Some("boom")).on_epoch(Ok(9))), None);
    let failed = Some("finalizeCommitteeUpdate failed: boom".to_string());
    assert_eq!(finish(finalize(Some("boom")).on_epoch(Ok(8))), failed);
    assert_eq!(finish(finalize(Some("boom")).on_epoch(Err("x".to_string()))), failed);
}

#[test]
fn committee_times_out_after_forty_looks() {
    let mut sync = waiting_sync();
    for _ in 1..40 {
        assert!(matches!(sync.on_look(0, Some(0)), SyncAction::Sleep(500)));
        assert!(matches!(sync.on_slept(), SyncAction::Look));
    }
    sync.on_look(0, Some(0));
    assert_eq!(
        finish(sync.on_slept()),
        Some("timed out waiting to finalize EVM committee update to epoch 9".to_string())
    );
}

#[test]
fn committee_change_is_signed_for_the_new_committee() {
    let sync = requested_sync();
    let active = sync.next.with_epoch(8);
    let args = sync.request_args(&active, "http://e", "0xb", &SECRET).unwrap();
    let digest = request_committee_update_digest(&sync.next);
    let signature = eth_sign_digest(digest, &SECRET).unwrap();
    let key = format!("0x{}", "07".repeat(32));
    assert_eq!(
        args,
        cast_request_committee_update(
            "http://e",
            &key,
            "0xb",
            &sync.next,
            &active,
            &vec![signature]
        )
    );
    let no_key = SecretKey { bytes: [0; 32] };
    assert_eq!(
        sync.request_args(&active, "http://e", "0xb", &no_key),
        Err(BridgeError::Sign(EthSignError::InvalidKey))
    );
    let mut large = requested_sync();
    large.next.stakes = vec![1; 2_100_000];
    assert_eq!(
        large.request_args(&active, "http://e", "0xb", &SECRET),
        Err(BridgeError::CommitteeTooLarge)
    );
}
