//! Withdraws from the local chain: how they are queued for the foreign chain.
use vstd::prelude::*;
use vstd::string::*;
use crate::chain::{
    BridgeConfig, BridgeWithdrawRecord, BridgeWithdrawStatus, Committee, ContractAddress,
    InboundTokenLane, OutboundBridgeConfig, OutboundDepositMessage, OutboundDepositView,
    OutboundTokenLane,
};
use crate::codec::{keccak, EthSignError};
use crate::config::SecretKey;
use crate::events::{BridgeEventKind, BridgeEventLevel, DraftView, EventDraft};
use crate::evm::{
    eth_sign_digest, is_eth_signature, request_hash, request_withdraw_digest, withdraw_hash,
    withdraw_id, EthSignature,
};
use crate::labels::{emit_route, event_token, inbound_bytes, inbound_contract_for};
use crate::messages::{vote_views, BridgeVote};
use crate::route_config::{BridgeRoute, RouteView};
use crate::route_state::{larger, PendingEvmWithdraw, PendingLpDeposit, RouteState, StateView};
use crate::text::cat;
use crate::util::{
    address_text, contract_bytes, evm_address_hex, inbound_lane, inbound_lane_for_route,
    lock_preimage, lock_source_hash, outbound_lane, outbound_lane_for_inbound_withdraw,
    parse_contract_address, BridgeError,
};

verus! {

broadcast use vstd::std_specs::hash::group_hash_axioms;

/// Whether a withdraw on the local chain is still to be dealt with.
pub open spec fn wants_local_withdraw(s: StateView, record: BridgeWithdrawRecord) -> bool {
    record.status == BridgeWithdrawStatus::Pending && !(s.lp.contains_key(record.nonce) && (
    s.lp[record.nonce].submitted || s.lp[record.nonce].failed))
}

/// Whether the id and signature of a withdraw are those for an epoch.
pub open spec fn bound_to(
    item: PendingEvmWithdraw,
    foreign_token: Seq<u8>,
    epoch: u64,
    secret: Seq<u8>,
) -> bool {
    let r = item.record;
    &&& item.id@ == withdraw_hash(r.nonce, r.sender@, r.foreign_recipient@, r.amount, epoch)
    &&& is_eth_signature(
        Ok(item.signature),
        request_hash(
            item.id@,
            r.sender@,
            r.foreign_recipient@,
            foreign_token,
            r.amount,
            r.nonce,
            epoch,
        ),
        secret,
    )
}

/// Whether the withdraw cannot be signed for an epoch, and why.
pub open spec fn not_signable(
    r: BridgeWithdrawRecord,
    foreign_token: Seq<u8>,
    epoch: u64,
    secret: Seq<u8>,
    e: EthSignError,
) -> bool {
    is_eth_signature(
        Err(e),
        request_hash(
            withdraw_hash(r.nonce, r.sender@, r.foreign_recipient@, r.amount, epoch),
            r.sender@,
            r.foreign_recipient@,
            foreign_token,
            r.amount,
            r.nonce,
            epoch,
        ),
        secret,
    )
}

/// Names and signs a withdraw for an epoch.
pub fn bind_withdraw(
    record: &BridgeWithdrawRecord,
    foreign_token: [u8; 20],
    epoch: u64,
    secret: &SecretKey,
) -> (r: Result<([u8; 32], EthSignature), EthSignError>)
    ensures
        match r {
            Ok((id, signature)) => {
                &&& id@ == withdraw_hash(
                    record.nonce,
                    record.sender@,
                    record.foreign_recipient@,
                    record.amount,
                    epoch,
                )
                &&& is_eth_signature(
                    Ok(signature),
                    request_hash(
                        id@,
                        record.sender@,
                        record.foreign_recipient@,
                        foreign_token@,
                        record.amount,
                        record.nonce,
                        epoch,
                    ),
                    secret.bytes@,
                )
            },
            Err(e) => not_signable(*record, foreign_token@, epoch, secret.bytes@, e),
        },
{
    let id = withdraw_id(
        record.nonce,
        record.sender,
        record.foreign_recipient,
        record.amount,
        epoch,
    );
    let digest = request_withdraw_digest(
        id,
        record.sender,
        record.foreign_recipient,
        foreign_token,
        record.amount,
        record.nonce,
        epoch,
    );
    match eth_sign_digest(digest, secret) {
        Ok(signature) => Ok((id, signature)),
        Err(e) => Err(e),
    }
}

/// What is reported of a withdraw that was seen.
pub open spec fn withdraw_seen_event(
    route_id: Seq<char>,
    route: RouteView,
    lanes: Seq<InboundTokenLane>,
    record: BridgeWithdrawRecord,
) -> DraftView {
    DraftView {
        route_id,
        token: event_token(BridgeEventKind::WithdrawSeen, route, Some(lanes)),
        kind: BridgeEventKind::WithdrawSeen,
        level: BridgeEventLevel::Info,
        message_id: Some(record.nonce),
        amount: Some(record.amount),
        detail: "withdraw to "@ + address_text(record.foreign_recipient@),
    }
}

/// A withdraw that has just been queued for an EVM chain.
pub open spec fn is_fresh_withdraw(
    item: PendingEvmWithdraw,
    record: BridgeWithdrawRecord,
    foreign_token: Seq<u8>,
    epoch: u64,
    secret: Seq<u8>,
) -> bool {
    &&& item.record == record
    &&& bound_to(item, foreign_token, epoch, secret)
    &&& !item.requested
    &&& item.requested_block is None
    &&& item.requested_at_ms is None
    &&& !item.finalized
    &&& !item.failed
}

/// What a foreign LightPool chain is asked to pay out for a withdraw.
pub open spec fn outbound_message(
    bridge: Seq<u8>,
    lane: OutboundTokenLane,
    epoch: u64,
    record: BridgeWithdrawRecord,
    local_chain_id: u64,
    inbound: Seq<u8>,
) -> OutboundDepositView {
    OutboundDepositView {
        bridge,
        lane_index: lane.lane_index,
        message_id: record.nonce,
        source_chain_id: local_chain_id,
        token: lane.lp_token.bytes@,
        amount: record.amount,
        sender_foreign: record.sender@,
        recipient: record.foreign_recipient@,
        source_tx_hash: keccak(lock_preimage(local_chain_id, inbound, record.nonce)),
        source_block: 0,
        epoch,
    }
}

/// Writes down what a foreign LightPool chain is asked to pay out for a
/// withdraw.
pub fn lp_deposit_message(
    bridge: ContractAddress,
    foreign_cfg: &OutboundBridgeConfig,
    route: &BridgeRoute,
    record: &BridgeWithdrawRecord,
    local_chain_id: u64,
) -> (r: Result<OutboundDepositMessage, BridgeError>)
    ensures
        match outbound_lane(foreign_cfg.lanes@, record.token.bytes@, record.lane_index) {
            Some(lane) => r matches Ok(m) && m@ == outbound_message(
                bridge.bytes@,
                lane,
                foreign_cfg.epoch,
                *record,
                local_chain_id,
                inbound_bytes(route@),
            ),
            None => r == Err::<OutboundDepositMessage, BridgeError>(
                BridgeError::NoOutboundLane { token: record.token, lane_index: record.lane_index },
            ),
        },
        r matches Ok(m) ==> {
            &&& outbound_lane(
                foreign_cfg.lanes@,
                record.token.bytes@,
                record.lane_index,
            ) matches Some(lane) && m.lane_index == lane.lane_index && m.token == lane.lp_token
            &&& m.bridge == bridge
            &&& m.message_id == record.nonce
            &&& m.amount == record.amount
            &&& m.sender_foreign == record.sender
            &&& m.recipient == record.foreign_recipient
            &&& m.source_chain_id == local_chain_id
            &&& m.epoch == foreign_cfg.epoch
        },
{
    let lane = match outbound_lane_for_inbound_withdraw(foreign_cfg, record) {
        Ok(lane) => lane,
        Err(e) => {
            return Err(e);
        },
    };
    let inbound = inbound_contract_for(route);
    Ok(
        OutboundDepositMessage {
            bridge,
            lane_index: lane.lane_index,
            message_id: record.nonce,
            source_chain_id: local_chain_id,
            token: lane.lp_token,
            amount: record.amount,
            sender_foreign: record.sender,
            recipient: record.foreign_recipient,
            source_tx_hash: lock_source_hash(local_chain_id, inbound, record.nonce),
            source_block: 0,
            epoch: foreign_cfg.epoch,
        },
    )
}

impl RouteState {
    /// Tells whether a withdraw on the local chain is still to be dealt with.
    pub fn wants_local_withdraw(&self, record: &BridgeWithdrawRecord) -> (r: bool)
        ensures
            r == wants_local_withdraw(self@, *record),
    {
        if record.status != BridgeWithdrawStatus::Pending {
            return false;
        }
        match self.pending_lp_deposits.get(&record.nonce) {
            Some(item) => !item.submitted && !item.failed,
            None => true,
        }
    }

    /// Takes note of a withdraw on the local chain and gives what the inbound
    /// bridge says of itself.
    pub fn on_lp_local_withdraw(&mut self, record: &BridgeWithdrawRecord) -> (r: Result<
        BridgeConfig,
        BridgeError,
    >)
        ensures
            final(self)@ == (StateView {
                last_withdraw_nonce: larger(old(self)@.last_withdraw_nonce, record.nonce),
                ..old(self)@
            }),
            match r {
                Ok(cfg) => old(self)@.config == Some(cfg@),
                Err(e) => e == BridgeError::ConfigNotLoaded && old(self)@.config is None,
            },
    {
        if record.nonce > self.last_withdraw_nonce {
            self.last_withdraw_nonce = record.nonce;
        }
        self.require_route_config()
    }

    /// Queues a withdraw for an EVM chain, named and signed for the epoch of the
    /// committee. One that is queued already is left alone.
    pub fn enqueue_evm_withdraw(
        &mut self,
        route: &BridgeRoute,
        cfg: &BridgeConfig,
        record: &BridgeWithdrawRecord,
        committee: &Committee,
        secret: &SecretKey,
    ) -> (r: Result<Option<EventDraft>, BridgeError>)
        ensures
            match inbound_lane(cfg.lanes@, route@) {
                Err(e) => r == Err::<Option<EventDraft>, BridgeError>(e) && final(self)@ == old(
                    self,
                )@,
                Ok(lane) => if old(self)@.evm.contains_key(record.nonce) {
                    r == Ok::<Option<EventDraft>, BridgeError>(None) && final(self)@ == old(self)@
                } else {
                    match r {
                        Ok(Some(event)) => {
                            &&& event@ == withdraw_seen_event(
                                old(self)@.route_id,
                                route@,
                                cfg.lanes@,
                                *record,
                            )
                            &&& final(self)@.evm.contains_key(record.nonce)
                            &&& is_fresh_withdraw(
                                final(self)@.evm[record.nonce],
                                *record,
                                lane.foreign_token@,
                                committee.epoch_number(),
                                secret.bytes@,
                            )
                            &&& final(self)@ == (StateView {
                                evm: old(self)@.evm.insert(
                                    record.nonce,
                                    final(self)@.evm[record.nonce],
                                ),
                                ..old(self)@
                            })
                        },
                        Ok(None) => false,
                        Err(BridgeError::Sign(e)) => not_signable(
                            *record,
                            lane.foreign_token@,
                            committee.epoch_number(),
                            secret.bytes@,
                            e,
                        ) && final(self)@ == old(self)@,
                        Err(_) => false,
                    }
                },
            },
            old(self)@.wf() ==> final(self)@.wf(),
    {
        let lane = match inbound_lane_for_route(cfg, route) {
            Ok(lane) => *lane,
            Err(e) => {
                return Err(e);
            },
        };
        let epoch: u64 = committee.message_epoch();
        if self.pending_evm_withdraws.contains_key(&record.nonce) {
            return Ok(None);
        }
        let (id, signature) = match bind_withdraw(record, lane.foreign_token, epoch, secret) {
            Ok(bound) => bound,
            Err(e) => {
                return Err(BridgeError::Sign(e));
            },
        };
        let event = emit_route(
            self.route_id.as_str(),
            route,
            Some(cfg),
            BridgeEventKind::WithdrawSeen,
            BridgeEventLevel::Info,
            Some(record.nonce),
            Some(record.amount),
            cat("withdraw to ", evm_address_hex(&record.foreign_recipient).as_str()),
        );
        self.pending_evm_withdraws.insert(
            record.nonce,
            PendingEvmWithdraw {
                record: *record,
                id,
                signature,
                requested: false,
                requested_block: None,
                requested_at_ms: None,
                finalized: false,
                failed: false,
            },
        );
        Ok(Some(event))
    }

    /// The outbound bridge that a withdraw is to be queued for; none where it is
    /// queued already.
    pub fn lp_deposit_target(&self, nonce: u64, outbound_bridge_contract: &str) -> (r: Result<
        Option<ContractAddress>,
        BridgeError,
    >)
        ensures
            self@.lp.contains_key(nonce) ==> r == Ok::<Option<ContractAddress>, BridgeError>(None),
            !self@.lp.contains_key(nonce) ==> match r {
                Ok(Some(c)) => contract_bytes(outbound_bridge_contract@) == Ok::<
                    Seq<u8>,
                    BridgeError,
                >(c.bytes@),
                Ok(None) => false,
                Err(e) => contract_bytes(outbound_bridge_contract@) == Err::<
                    Seq<u8>,
                    BridgeError,
                >(e),
            },
    {
        if self.pending_lp_deposits.contains_key(&nonce) {
            return Ok(None);
        }
        match parse_contract_address(outbound_bridge_contract) {
            Ok(contract) => Ok(Some(contract)),
            Err(e) => Err(e),
        }
    }

    /// Queues a withdraw for a foreign LightPool chain, with this validator's
    /// vote. One that is queued already is left alone.
    pub fn enqueue_lp_deposit(
        &mut self,
        route: &BridgeRoute,
        cfg: &BridgeConfig,
        record: &BridgeWithdrawRecord,
        message: OutboundDepositMessage,
        vote: BridgeVote,
    ) -> (r: Option<EventDraft>)
        ensures
            old(self)@.lp.contains_key(record.nonce) ==> r is None && final(self)@ == old(self)@,
            !old(self)@.lp.contains_key(record.nonce) ==> {
                &&& r matches Some(event)
                &&& event@ == withdraw_seen_event(
                    old(self)@.route_id,
                    route@,
                    cfg.lanes@,
                    *record,
                )
                &&& final(self)@.lp.contains_key(record.nonce)
                &&& final(self)@.lp[record.nonce].message == message
                &&& vote_views(final(self)@.lp[record.nonce].votes@) == seq![vote@]
                &&& !final(self)@.lp[record.nonce].submitted
                &&& !final(self)@.lp[record.nonce].failed
                &&& final(self)@ == (StateView {
                    lp: old(self)@.lp.insert(record.nonce, final(self)@.lp[record.nonce]),
                    ..old(self)@
                })
            },
    {
        if self.pending_lp_deposits.contains_key(&record.nonce) {
            return None;
        }
        let event = emit_route(
            self.route_id.as_str(),
            route,
            Some(cfg),
            BridgeEventKind::WithdrawSeen,
            BridgeEventLevel::Info,
            Some(record.nonce),
            Some(record.amount),
            cat("withdraw to ", evm_address_hex(&record.foreign_recipient).as_str()),
        );
        let ghost v = vote@;
        let mut votes: Vec<BridgeVote> = Vec::new();
        votes.push(vote);
        assert(vote_views(votes@) =~= seq![v]);
        self.pending_lp_deposits.insert(
            record.nonce,
            PendingLpDeposit { message, votes, submitted: false, failed: false },
        );
        Some(event)
    }
}

} // verus!
