//! What the bridge remembers of one route, and what it does with the deposits
//! and withdraws that it sees there.
use std::collections::{HashMap, HashSet};
use vstd::prelude::*;
use vstd::slice::slice_subrange;
use vstd::string::*;
use vstd::utf8::encode_utf8;
use crate::bytes::{be_value, lemma_be_value_bound, lemma_pow_256, same_20};
use crate::chain::{
    BridgeConfig, BridgeConfigView, BridgeDepositMessage, BridgeWithdrawRecord, DepositView,
    InboundTokenLane, OutboundDepositMessage, OutboundWithdrawRecord, OutboundWithdrawStatus,
};
use crate::codec::{hex_decode, hex_decoded, keccak};
use crate::events::{BridgeEventKind, BridgeEventLevel, DraftView, EventDraft};
use crate::evm::{text_of, EthSignature};
use crate::labels::{emit_route, event_token};
use crate::messages::BridgeVote;
use crate::route_config::{BridgeRoute, ForeignLeg, LegView, RouteView};
use crate::text::{cat, hex_body, strip_0x, texts};
use crate::util::{
    address_from_word, address_text, contract_bytes, evm_address_hex, hash_bytes, has_text_tail,
    inbound_lane, inbound_lane_for_route, lock_preimage, lock_source_hash, parse_b32,
    parse_contract_address, tail_is_text, topic_account, topic_address, topic_number, topic_u64,
    u64_from_word, word_account, word_number, BridgeError,
};

verus! {

broadcast use vstd::std_specs::hash::group_hash_axioms;

/// A withdraw to an EVM chain and how far it has come.
#[derive(Clone, Copy, Debug)]
pub struct PendingEvmWithdraw {
    pub record: BridgeWithdrawRecord,
    pub id: [u8; 32],
    pub signature: EthSignature,
    pub requested: bool,
    pub requested_block: Option<u64>,
    pub requested_at_ms: Option<u64>,
    pub finalized: bool,
    pub failed: bool,
}

impl PendingEvmWithdraw {
    /// Whether the block of a request is known only with the request and its
    /// time.
    pub open spec fn wf(self) -> bool {
        self.requested_block is Some ==> self.requested && self.requested_at_ms is Some
    }

    /// Whether nothing is left to do.
    pub open spec fn closed(self) -> bool {
        self.failed || self.finalized
    }
}

/// A withdraw to a foreign LightPool chain and how far it has come.
#[derive(Clone, Debug)]
pub struct PendingLpDeposit {
    pub message: OutboundDepositMessage,
    pub votes: Vec<BridgeVote>,
    pub submitted: bool,
    pub failed: bool,
}

/// What the bridge remembers of one route.
#[derive(Debug)]
pub struct RouteState {
    pub route_id: String,
    pub last_scanned_block: u64,
    pub last_withdraw_nonce: u64,
    pub last_foreign_withdraw_nonce: u64,
    pub seen_deposits: HashSet<u128>,
    pub bridge_config: Option<BridgeConfig>,
    pub pending_evm_withdraws: HashMap<u64, PendingEvmWithdraw>,
    pub pending_lp_deposits: HashMap<u64, PendingLpDeposit>,
}

/// A [`RouteState`] in mathematical terms.
#[verifier::ext_equal]
pub struct StateView {
    pub route_id: Seq<char>,
    pub last_scanned_block: u64,
    pub last_withdraw_nonce: u64,
    pub last_foreign_withdraw_nonce: u64,
    pub seen: Set<u128>,
    pub config: Option<BridgeConfigView>,
    pub evm: Map<u64, PendingEvmWithdraw>,
    pub lp: Map<u64, PendingLpDeposit>,
}

/// The view of an inbound bridge that may be unknown.
pub open spec fn config_view(cfg: Option<BridgeConfig>) -> Option<BridgeConfigView> {
    match cfg {
        Some(c) => Some(c@),
        None => None,
    }
}

impl View for RouteState {
    type V = StateView;

    open spec fn view(&self) -> StateView {
        StateView {
            route_id: self.route_id@,
            last_scanned_block: self.last_scanned_block,
            last_withdraw_nonce: self.last_withdraw_nonce,
            last_foreign_withdraw_nonce: self.last_foreign_withdraw_nonce,
            seen: self.seen_deposits@,
            config: config_view(self.bridge_config),
            evm: self.pending_evm_withdraws@,
            lp: self.pending_lp_deposits@,
        }
    }
}

impl StateView {
    /// Whether every withdraw stands under its own nonce and is in order.
    pub open spec fn wf(self) -> bool {
        forall|nonce: u64| #[trigger]
            self.evm.contains_key(nonce) ==> self.evm[nonce].wf()
                && self.evm[nonce].record.nonce == nonce
    }
}

/// The state of a route that nothing has happened on.
pub open spec fn fresh_state(route_id: Seq<char>) -> StateView {
    StateView {
        route_id,
        last_scanned_block: 0,
        last_withdraw_nonce: 0,
        last_foreign_withdraw_nonce: 0,
        seen: Set::empty(),
        config: None,
        evm: Map::empty(),
        lp: Map::empty(),
    }
}

/// The number under which a deposit is remembered: its lane and its own number.
pub open spec fn seen_key(lane_index: u32, id: u64) -> u128 {
    (lane_index * 0x1_0000_0000_0000_0000 + id) as u128
}

/// The number under which a deposit is remembered.
fn seen_number(lane_index: u32, id: u64) -> (r: u128)
    ensures
        r == seen_key(lane_index, id),
{
    (lane_index as u128) * 0x1_0000_0000_0000_0000u128 + (id as u128)
}

/// Deposits of different lanes or with different numbers are remembered apart.
pub proof fn law_seen_keys_are_distinct(lane_1: u32, id_1: u64, lane_2: u32, id_2: u64)
    requires
        seen_key(lane_1, id_1) == seen_key(lane_2, id_2),
    ensures
        lane_1 == lane_2,
        id_1 == id_2,
{
}

/// A log of the EVM chain. A topic that is no text stands as an empty one.
#[derive(Clone, Debug)]
pub struct EvmLog {
    pub topics: Option<Vec<String>>,
    pub data: Option<String>,
    pub transaction_hash: Option<String>,
    pub block_number: Option<String>,
}

/// An [`EvmLog`] as text sequences.
#[verifier::ext_equal]
pub struct LogView {
    pub topics: Option<Seq<Seq<char>>>,
    pub data: Option<Seq<char>>,
    pub transaction_hash: Option<Seq<char>>,
    pub block_number: Option<Seq<char>>,
}

impl View for EvmLog {
    type V = LogView;

    open spec fn view(&self) -> LogView {
        LogView {
            topics: match self.topics {
                Some(t) => Some(texts(t@)),
                None => None,
            },
            data: text_of(self.data),
            transaction_hash: text_of(self.transaction_hash),
            block_number: text_of(self.block_number),
        }
    }
}

impl LogView {
    /// Whether the topics of a log, as far as they are read, do not end inside a
    /// character where the numbers at their ends begin: that of the deposit, and
    /// those of the two accounts if the deposit is not among those seen on the
    /// lane.
    pub open spec fn topics_split(self, seen: Set<u128>, lane_index: u32) -> bool {
        self.topics matches Some(t) ==> t.len() >= 4 ==> {
            &&& tail_is_text(t[1], 16)
            &&& topic_number(t[1]) matches Ok(id) ==> !seen.contains(seen_key(lane_index, id))
                ==> {
                &&& tail_is_text(t[2], 40)
                &&& topic_account(t[2]) is Ok ==> tail_is_text(t[3], 40)
            }
        }
    }
}

/// Whether the topics of a log can be taken apart as far as a route in this
/// state reads them.
pub open spec fn can_read(s: StateView, route: RouteView, log: LogView) -> bool {
    match s.config {
        None => true,
        Some(cfg) => match inbound_lane(cfg.lanes, route) {
            Err(_) => true,
            Ok(lane) => route.foreign is Evm ==> log.topics_split(s.seen, lane.lane_index),
        },
    }
}

/// The data of a deposit log: token, amount and block.
pub open spec fn log_data(log: LogView) -> Result<Seq<u8>, BridgeError> {
    let text = match log.data {
        Some(d) => d,
        None => "0x"@,
    };
    match hex_decoded(encode_utf8(hex_body(text))) {
        Err(e) => Err(BridgeError::Hex(e)),
        Ok(data) => if data.len() < 96 {
            Err(BridgeError::LogDataTooShort)
        } else {
            Ok(data)
        },
    }
}

/// The hash of the transaction of a log.
pub open spec fn log_hash(log: LogView) -> Result<Seq<u8>, BridgeError> {
    hash_bytes(
        match log.transaction_hash {
            Some(h) => h,
            None => Seq::empty(),
        },
    )
}

/// What the log of the deposit `id` says: the message to confirm; nothing where
/// it is about another token.
pub open spec fn deposit_in_log(
    log: LogView,
    topics: Seq<Seq<char>>,
    lane: InboundTokenLane,
    source_chain_id: u64,
    epoch: u64,
    id: u64,
) -> Result<Option<DepositView>, BridgeError> {
    let sender = topic_account(topics[2]);
    let recipient = topic_account(topics[3]);
    let data = log_data(log);
    if sender is Err {
        Err(sender->Err_0)
    } else if recipient is Err {
        Err(recipient->Err_0)
    } else if data is Err {
        Err(data->Err_0)
    } else if word_account(data->Ok_0.subrange(0, 32)) != Ok::<Seq<u8>, BridgeError>(
        lane.foreign_token@,
    ) {
        Ok(None)
    } else if log_hash(log) is Err {
        Err(log_hash(log)->Err_0)
    } else {
        Ok(
            Some(
                DepositView {
                    lane_index: lane.lane_index,
                    message_id: id,
                    source_chain_id,
                    token: lane.lp_token.bytes@,
                    amount: word_number(data->Ok_0.subrange(32, 64))->Ok_0 as u64,
                    sender_foreign: sender->Ok_0,
                    recipient: recipient->Ok_0,
                    source_tx_hash: log_hash(log)->Ok_0,
                    source_block: word_number(data->Ok_0.subrange(64, 96))->Ok_0 as u64,
                    epoch,
                },
            ),
        )
    }
}

/// The deposit that a log is about, if it has topics enough to say so.
pub open spec fn log_deposit_id(log: LogView) -> Result<Option<u64>, BridgeError> {
    match log.topics {
        None => Err(BridgeError::NoTopics),
        Some(t) => if t.len() < 4 {
            Ok(None)
        } else {
            match topic_number(t[1]) {
                Ok(id) => Ok(Some(id)),
                Err(e) => Err(e),
            }
        },
    }
}

/// The state after a deposit was seen.
pub open spec fn with_seen(s: StateView, lane_index: u32, id: u64) -> StateView {
    StateView { seen: s.seen.insert(seen_key(lane_index, id)), ..s }
}

/// What a message that was read comes to: a message, none, or an error.
pub open spec fn message_view(r: Result<Option<BridgeDepositMessage>, BridgeError>) -> Result<
    Option<DepositView>,
    BridgeError,
> {
    match r {
        Ok(Some(m)) => Ok(Some(m@)),
        Ok(None) => Ok(None),
        Err(e) => Err(e),
    }
}

/// Reads the log of the deposit `id`.
fn read_deposit_log(
    log: &EvmLog,
    topics: &Vec<String>,
    lane: &InboundTokenLane,
    source_chain_id: u64,
    epoch: u64,
    id: u64,
) -> (r: Result<Option<BridgeDepositMessage>, BridgeError>)
    requires
        topics@.len() >= 4,
        tail_is_text(topics@[2]@, 40),
        topic_account(topics@[2]@) is Ok ==> tail_is_text(topics@[3]@, 40),
    ensures
        message_view(r) == deposit_in_log(log@, texts(topics@), *lane, source_chain_id, epoch, id),
{
    let sender_foreign = match topic_address(topics[2].as_str()) {
        Ok(a) => a,
        Err(e) => {
            return Err(e);
        },
    };
    let recipient = match topic_address(topics[3].as_str()) {
        Ok(a) => a,
        Err(e) => {
            return Err(e);
        },
    };
    let data_hex = match &log.data {
        Some(d) => strip_0x(d.as_str()),
        None => strip_0x("0x"),
    };
    let data = match hex_decode(data_hex.as_bytes()) {
        Ok(data) => data,
        Err(e) => {
            return Err(BridgeError::Hex(e));
        },
    };
    if data.len() < 96 {
        return Err(BridgeError::LogDataTooShort);
    }
    let bytes = data.as_slice();
    let log_token = match address_from_word(slice_subrange(bytes, 0, 32)) {
        Ok(a) => a,
        Err(e) => {
            return Err(e);
        },
    };
    if !same_20(&log_token, &lane.foreign_token) {
        return Ok(None);
    }
    let amount = match u64_from_word(slice_subrange(bytes, 32, 64)) {
        Ok(n) => n,
        Err(e) => {
            return Err(e);
        },
    };
    let source_block = match u64_from_word(slice_subrange(bytes, 64, 96)) {
        Ok(n) => n,
        Err(e) => {
            return Err(e);
        },
    };
    let hash_text = match &log.transaction_hash {
        Some(h) => h.clone(),
        None => String::new(),
    };
    let source_tx_hash = match parse_b32(hash_text.as_str()) {
        Ok(h) => h,
        Err(e) => {
            return Err(e);
        },
    };
    Ok(
        Some(
            BridgeDepositMessage {
                lane_index: lane.lane_index,
                message_id: id,
                source_chain_id,
                token: lane.lp_token,
                amount,
                sender_foreign,
                recipient,
                source_tx_hash,
                source_block,
                epoch,
            },
        ),
    )
}

/// The state after a deposit log, and what it said: each deposit is read once.
pub open spec fn after_deposit_log(
    s: StateView,
    log: LogView,
    lane: InboundTokenLane,
    source_chain_id: u64,
    epoch: u64,
) -> (StateView, Result<Option<DepositView>, BridgeError>) {
    match log_deposit_id(log) {
        Err(e) => (s, Err(e)),
        Ok(None) => (s, Ok(None)),
        Ok(Some(id)) => if s.seen.contains(seen_key(lane.lane_index, id)) {
            (s, Ok(None))
        } else {
            (
                with_seen(s, lane.lane_index, id),
                deposit_in_log(log, log.topics->0, lane, source_chain_id, epoch, id),
            )
        },
    }
}

/// The chain id of an EVM leg.
pub open spec fn evm_chain_id(leg: LegView) -> Option<u64> {
    match leg {
        LegView::Evm { chain_id, .. } => Some(chain_id),
        _ => None,
    }
}

/// The state of a route after a deposit log, and what it said.
pub open spec fn after_evm_log(s: StateView, route: RouteView, log: LogView, epoch: u64) -> (
    StateView,
    Result<Option<DepositView>, BridgeError>,
) {
    match s.config {
        None => (s, Err(BridgeError::ConfigNotLoaded)),
        Some(cfg) => match inbound_lane(cfg.lanes, route) {
            Err(e) => (s, Err(e)),
            Ok(lane) => match evm_chain_id(route.foreign) {
                None => (s, Ok(None)),
                Some(chain_id) => after_deposit_log(s, log, lane, chain_id, epoch),
            },
        },
    }
}

/// The message for a withdraw on the foreign LightPool chain.
pub open spec fn foreign_withdraw_message(
    lane: InboundTokenLane,
    source_chain_id: u64,
    bridge: Seq<u8>,
    w: OutboundWithdrawRecord,
    epoch: u64,
) -> DepositView {
    DepositView {
        lane_index: lane.lane_index,
        message_id: w.nonce,
        source_chain_id,
        token: lane.lp_token.bytes@,
        amount: w.amount,
        sender_foreign: w.sender@,
        recipient: w.foreign_recipient@,
        source_tx_hash: keccak(lock_preimage(source_chain_id, bridge, w.nonce)),
        source_block: 0,
        epoch,
    }
}

/// The larger of two numbers.
pub open spec fn larger(a: u64, b: u64) -> u64 {
    if a >= b {
        a
    } else {
        b
    }
}

/// The state of a route after a withdraw on the foreign LightPool chain, and
/// the message for it: each withdraw is taken once.
pub open spec fn after_foreign_withdraw(
    s: StateView,
    route: RouteView,
    w: OutboundWithdrawRecord,
    epoch: u64,
) -> (StateView, Result<Option<DepositView>, BridgeError>) {
    if w.status != OutboundWithdrawStatus::Pending {
        (s, Ok(None))
    } else {
        match s.config {
            None => (s, Err(BridgeError::ConfigNotLoaded)),
            Some(cfg) => match route.foreign {
                LegView::Evm { .. } => (s, Ok(None)),
                LegView::Lightpool { chain_id, outbound_bridge_contract, .. } => {
                    let noted = StateView {
                        last_foreign_withdraw_nonce: larger(s.last_foreign_withdraw_nonce, w.nonce),
                        ..s
                    };
                    match inbound_lane(cfg.lanes, route) {
                        Err(e) => (noted, Err(e)),
                        Ok(lane) => if s.seen.contains(seen_key(lane.lane_index, w.nonce)) {
                            (noted, Ok(None))
                        } else {
                            (
                                with_seen(noted, lane.lane_index, w.nonce),
                                match contract_bytes(outbound_bridge_contract) {
                                    Err(e) => Err(e),
                                    Ok(bridge) => Ok(
                                        Some(
                                            foreign_withdraw_message(
                                                lane,
                                                chain_id,
                                                bridge,
                                                w,
                                                epoch,
                                            ),
                                        ),
                                    ),
                                },
                            )
                        },
                    }
                },
            },
        }
    }
}

impl RouteState {
    /// The state of a route that nothing has happened on.
    pub fn new(route_id: String) -> (r: Self)
        ensures
            r@ == fresh_state(route_id@),
            r@.wf(),
    {
        RouteState {
            route_id,
            last_scanned_block: 0,
            last_withdraw_nonce: 0,
            last_foreign_withdraw_nonce: 0,
            seen_deposits: HashSet::new(),
            bridge_config: None,
            pending_evm_withdraws: HashMap::new(),
            pending_lp_deposits: HashMap::new(),
        }
    }

    /// Notes what the inbound bridge says of itself; where it could not be
    /// asked, what it said before stands.
    pub fn refresh_route_config(&mut self, fetched: Option<BridgeConfig>)
        ensures
            final(self)@ == (StateView {
                config: if fetched is Some {
                    config_view(fetched)
                } else {
                    old(self)@.config
                },
                ..old(self)@
            }),
    {
        if fetched.is_some() {
            self.bridge_config = fetched;
        }
    }

    /// What the inbound bridge says of itself.
    pub fn require_route_config(&self) -> (r: Result<BridgeConfig, BridgeError>)
        ensures
            match r {
                Ok(cfg) => self@.config == Some(cfg@),
                Err(e) => e == BridgeError::ConfigNotLoaded && self@.config is None,
            },
    {
        match &self.bridge_config {
            Some(cfg) => Ok(cfg.duplicate()),
            None => Err(BridgeError::ConfigNotLoaded),
        }
    }

    /// Notes that the EVM chain was read up to a block.
    pub fn note_scanned_block(&mut self, block: u64)
        ensures
            final(self)@ == (StateView {
                last_scanned_block: larger(old(self)@.last_scanned_block, block),
                ..old(self)@
            }),
    {
        if block > self.last_scanned_block {
            self.last_scanned_block = block;
        }
    }

    /// Reads a deposit log, each deposit once.
    fn handle_evm_deposit_log(
        &mut self,
        log: &EvmLog,
        lane: &InboundTokenLane,
        source_chain_id: u64,
        epoch: u64,
    ) -> (r: Result<Option<BridgeDepositMessage>, BridgeError>)
        requires
            log@.topics_split(old(self)@.seen, lane.lane_index),
        ensures
            (final(self)@, message_view(r)) == after_deposit_log(
                old(self)@,
                log@,
                *lane,
                source_chain_id,
                epoch,
            ),
    {
        let topics = match &log.topics {
            Some(t) => t,
            None => {
                return Err(BridgeError::NoTopics);
            },
        };
        assert(texts(topics@).len() == topics@.len());
        if topics.len() < 4 {
            return Ok(None);
        }
        let id: u64 = match topic_u64(topics[1].as_str()) {
            Ok(id) => id,
            Err(e) => {
                return Err(e);
            },
        };
        if !self.seen_deposits.insert(seen_number(lane.lane_index, id)) {
            assert(self@.seen =~= old(self)@.seen);
            return Ok(None);
        }
        read_deposit_log(log, topics, lane, source_chain_id, epoch, id)
    }

    /// Tells whether the topics of a log can be taken apart as far as they are
    /// read.
    pub fn can_read(&self, route: &BridgeRoute, log: &EvmLog) -> (r: bool)
        ensures
            r == can_read(self@, route@, log@),
    {
        let cfg = match &self.bridge_config {
            Some(cfg) => cfg,
            None => {
                return true;
            },
        };
        let lane = match inbound_lane_for_route(cfg, route) {
            Ok(lane) => *lane,
            Err(_) => {
                return true;
            },
        };
        let topics = match (&route.foreign, &log.topics) {
            (ForeignLeg::Evm { .. }, Some(t)) => t,
            _ => {
                return true;
            },
        };
        assert(texts(topics@).len() == topics@.len());
        if topics.len() < 4 {
            return true;
        }
        if !has_text_tail(topics[1].as_str(), 16) {
            return false;
        }
        let id: u64 = match topic_u64(topics[1].as_str()) {
            Ok(id) => id,
            Err(_) => {
                return true;
            },
        };
        if self.seen_deposits.contains(&seen_number(lane.lane_index, id)) {
            return true;
        }
        if !has_text_tail(topics[2].as_str(), 40) {
            return false;
        }
        topic_address(topics[2].as_str()).is_err() || has_text_tail(topics[3].as_str(), 40)
    }

    /// Takes in a deposit log: gives the message to confirm and the event that
    /// reports it, unless the deposit is known or about another token.
    pub fn on_evm_deposit_log(&mut self, route: &BridgeRoute, log: &EvmLog, epoch: u64) -> (r: Result<
        Option<(BridgeDepositMessage, EventDraft)>,
        BridgeError,
    >)
        requires
            can_read(old(self)@, route@, log@),
        ensures
            ({
                let (state, said) = after_evm_log(old(self)@, route@, log@, epoch);
                &&& final(self)@ == state
                &&& match r {
                    Err(e) => said == Err::<Option<DepositView>, BridgeError>(e),
                    Ok(None) => said == Ok::<Option<DepositView>, BridgeError>(None),
                    Ok(Some((m, event))) => said == Ok::<Option<DepositView>, BridgeError>(
                        Some(m@),
                    ) && event@ == seen_event(
                        old(self)@,
                        route@,
                        m.message_id,
                        m.amount,
                        "EVM deposit recipient="@,
                        m.recipient@,
                    ),
                }
            }),
            r matches Ok(Some((m, _))) ==> {
                &&& old(self)@.config matches Some(cfg) && inbound_lane(
                    cfg.lanes,
                    route@,
                ) matches Ok(lane) && m.lane_index == lane.lane_index && m.token.bytes@ == lane.lp_token.bytes@
                &&& log_deposit_id(log@) == Ok::<Option<u64>, BridgeError>(Some(m.message_id))
                &&& log_data(log@) matches Ok(data) && m.amount == be_value(data.subrange(56, 64))
                    && m.source_block == be_value(data.subrange(88, 96))
                &&& log_hash(log@) == Ok::<Seq<u8>, BridgeError>(m.source_tx_hash@)
                &&& m.epoch == epoch
            },
    {
        let cfg = match self.require_route_config() {
            Ok(cfg) => cfg,
            Err(e) => {
                return Err(e);
            },
        };
        let lane = match inbound_lane_for_route(&cfg, route) {
            Ok(lane) => *lane,
            Err(e) => {
                return Err(e);
            },
        };
        let chain_id = match &route.foreign {
            ForeignLeg::Evm { chain_id, .. } => *chain_id,
            ForeignLeg::Lightpool { .. } => {
                return Ok(None);
            },
        };
        match self.handle_evm_deposit_log(log, &lane, chain_id, epoch) {
            Err(e) => Err(e),
            Ok(None) => Ok(None),
            Ok(Some(message)) => {
                proof {
                    let data = log_data(log@)->Ok_0;
                    assert(data.subrange(32, 64).subrange(24, 32) =~= data.subrange(56, 64));
                    assert(data.subrange(64, 96).subrange(24, 32) =~= data.subrange(88, 96));
                    lemma_be_value_bound(data.subrange(56, 64));
                    lemma_be_value_bound(data.subrange(88, 96));
                    lemma_pow_256();
                }
                let event = emit_route(
                    self.route_id.as_str(),
                    route,
                    Some(&cfg),
                    BridgeEventKind::DepositSeen,
                    BridgeEventLevel::Info,
                    Some(message.message_id),
                    Some(message.amount),
                    cat(
                        "EVM deposit recipient=",
                        evm_address_hex(&message.recipient).as_str(),
                    ),
                );
                Ok(Some((message, event)))
            },
        }
    }

    /// Takes in a withdraw on the foreign LightPool chain: gives the message to
    /// confirm and the event that reports it, unless the withdraw is settled or
    /// known.
    pub fn on_lp_foreign_withdraw(
        &mut self,
        route: &BridgeRoute,
        withdraw: &OutboundWithdrawRecord,
        epoch: u64,
    ) -> (r: Result<Option<(BridgeDepositMessage, EventDraft)>, BridgeError>)
        ensures
            ({
                let (state, said) = after_foreign_withdraw(old(self)@, route@, *withdraw, epoch);
                &&& final(self)@ == state
                &&& match r {
                    Err(e) => said == Err::<Option<DepositView>, BridgeError>(e),
                    Ok(None) => said == Ok::<Option<DepositView>, BridgeError>(None),
                    Ok(Some((m, event))) => said == Ok::<Option<DepositView>, BridgeError>(
                        Some(m@),
                    ) && event@ == seen_event(
                        old(self)@,
                        route@,
                        m.message_id,
                        m.amount,
                        "foreign LP deposit recipient="@,
                        m.recipient@,
                    ),
                }
            }),
            r matches Ok(Some((m, _))) ==> {
                &&& old(self)@.config matches Some(cfg) && inbound_lane(
                    cfg.lanes,
                    route@,
                ) matches Ok(lane) && m.lane_index == lane.lane_index && m.token.bytes@ == lane.lp_token.bytes@
                &&& m.message_id == withdraw.nonce
                &&& m.amount == withdraw.amount
                &&& m.sender_foreign == withdraw.sender
                &&& m.recipient == withdraw.foreign_recipient
                &&& m.source_block == 0
                &&& m.epoch == epoch
            },
    {
        if withdraw.status != OutboundWithdrawStatus::Pending {
            return Ok(None);
        }
        let cfg = match self.require_route_config() {
            Ok(cfg) => cfg,
            Err(e) => {
                return Err(e);
            },
        };
        let (chain_id, contract_text) = match &route.foreign {
            ForeignLeg::Evm { .. } => {
                return Ok(None);
            },
            ForeignLeg::Lightpool { chain_id, outbound_bridge_contract, .. } => (
                *chain_id,
                outbound_bridge_contract,
            ),
        };
        if withdraw.nonce > self.last_foreign_withdraw_nonce {
            self.last_foreign_withdraw_nonce = withdraw.nonce;
        }
        let lane = match inbound_lane_for_route(&cfg, route) {
            Ok(lane) => *lane,
            Err(e) => {
                return Err(e);
            },
        };
        if !self.seen_deposits.insert(seen_number(lane.lane_index, withdraw.nonce)) {
            assert(self@.seen =~= old(self)@.seen);
            return Ok(None);
        }
        let bridge = match parse_contract_address(contract_text.as_str()) {
            Ok(bridge) => bridge,
            Err(e) => {
                return Err(e);
            },
        };
        let message = BridgeDepositMessage {
            lane_index: lane.lane_index,
            message_id: withdraw.nonce,
            source_chain_id: chain_id,
            token: lane.lp_token,
            amount: withdraw.amount,
            sender_foreign: withdraw.sender,
            recipient: withdraw.foreign_recipient,
            source_tx_hash: lock_source_hash(chain_id, bridge, withdraw.nonce),
            source_block: 0,
            epoch,
        };
        let event = emit_route(
            self.route_id.as_str(),
            route,
            Some(&cfg),
            BridgeEventKind::DepositSeen,
            BridgeEventLevel::Info,
            Some(message.message_id),
            Some(message.amount),
            cat(
                "foreign LP deposit recipient=",
                evm_address_hex(&message.recipient).as_str(),
            ),
        );
        Ok(Some((message, event)))
    }
}

/// The lanes that a route knows of.
pub open spec fn state_lanes(s: StateView) -> Option<Seq<InboundTokenLane>> {
    match s.config {
        Some(cfg) => Some(cfg.lanes),
        None => None,
    }
}

/// What is reported of a deposit that was seen.
pub open spec fn seen_event(
    s: StateView,
    route: RouteView,
    message_id: u64,
    amount: u64,
    head: Seq<char>,
    recipient: Seq<u8>,
) -> DraftView {
    DraftView {
        route_id: s.route_id,
        token: event_token(BridgeEventKind::DepositSeen, route, state_lanes(s)),
        kind: BridgeEventKind::DepositSeen,
        level: BridgeEventLevel::Info,
        message_id: Some(message_id),
        amount: Some(amount),
        detail: head + address_text(recipient),
    }
}

/// A deposit is acted on once: after a log about it was taken in, no log with
/// its number gives anything more or changes anything on the lane, whatever
/// else was seen in the meantime.
pub proof fn law_evm_deposit_is_seen_once(
    s: StateView,
    route: RouteView,
    log: LogView,
    epoch: u64,
    id: u64,
    later: StateView,
    later_route: RouteView,
    later_log: LogView,
    later_epoch: u64,
)
    requires
        s.config is Some,
        inbound_lane(s.config->0.lanes, route) is Ok,
        route.foreign is Evm,
        log_deposit_id(log) == Ok::<Option<u64>, BridgeError>(Some(id)),
        after_evm_log(s, route, log, epoch).0.seen.subset_of(later.seen),
        later.config is Some,
        inbound_lane(later.config->0.lanes, later_route) is Ok,
        inbound_lane(later.config->0.lanes, later_route)->Ok_0.lane_index == inbound_lane(
            s.config->0.lanes,
            route,
        )->Ok_0.lane_index,
        later_route.foreign is Evm,
        log_deposit_id(later_log) == Ok::<Option<u64>, BridgeError>(Some(id)),
    ensures
        after_evm_log(later, later_route, later_log, later_epoch) == (
            later,
            Ok::<Option<DepositView>, BridgeError>(None),
        ),
{
    let lane_index = inbound_lane(s.config->0.lanes, route)->Ok_0.lane_index;
    assert(after_evm_log(s, route, log, epoch).0.seen.contains(seen_key(lane_index, id)));
}

/// A withdraw on the foreign LightPool chain is acted on once: after it was
/// taken in, none with its nonce gives anything more on the lane, whatever else
/// was seen in the meantime; at most the counter moves on.
pub proof fn law_foreign_withdraw_is_seen_once(
    s: StateView,
    route: RouteView,
    w: OutboundWithdrawRecord,
    epoch: u64,
    later: StateView,
    later_route: RouteView,
    later_w: OutboundWithdrawRecord,
    later_epoch: u64,
)
    requires
        s.config is Some,
        inbound_lane(s.config->0.lanes, route) is Ok,
        route.foreign is Lightpool,
        w.status == OutboundWithdrawStatus::Pending,
        after_foreign_withdraw(s, route, w, epoch).0.seen.subset_of(later.seen),
        later.config is Some,
        inbound_lane(later.config->0.lanes, later_route) is Ok,
        inbound_lane(later.config->0.lanes, later_route)->Ok_0.lane_index == inbound_lane(
            s.config->0.lanes,
            route,
        )->Ok_0.lane_index,
        later_route.foreign is Lightpool,
        later_w.nonce == w.nonce,
    ensures
        after_foreign_withdraw(later, later_route, later_w, later_epoch).1 == Ok::<
            Option<DepositView>,
            BridgeError,
        >(None),
        after_foreign_withdraw(later, later_route, later_w, later_epoch).0 == (StateView {
            last_foreign_withdraw_nonce: after_foreign_withdraw(
                later,
                later_route,
                later_w,
                later_epoch,
            ).0.last_foreign_withdraw_nonce,
            ..later
        }),
{
    let lane_index = inbound_lane(s.config->0.lanes, route)->Ok_0.lane_index;
    assert(after_foreign_withdraw(s, route, w, epoch).0.seen.contains(
        seen_key(lane_index, w.nonce),
    ));
}

/// Nothing that was seen is forgotten, and the counters never go back.
pub proof fn law_sightings_only_grow(
    s: StateView,
    route: RouteView,
    log: LogView,
    w: OutboundWithdrawRecord,
    epoch: u64,
)
    ensures
        s.seen.subset_of(after_evm_log(s, route, log, epoch).0.seen),
        s.seen.subset_of(after_foreign_withdraw(s, route, w, epoch).0.seen),
        after_foreign_withdraw(s, route, w, epoch).0.last_foreign_withdraw_nonce
            >= s.last_foreign_withdraw_nonce,
{
}

/// A deposit that is confirmed comes from the lane of its route: its token, its
/// lane and the foreign token that was locked belong together.
pub proof fn law_deposits_stay_in_their_lane(
    s: StateView,
    route: RouteView,
    log: LogView,
    epoch: u64,
)
    requires
        after_evm_log(s, route, log, epoch).1 matches Ok(Some(_)),
    ensures
        ({
            let m = after_evm_log(s, route, log, epoch).1->Ok_0->0;
            let lane = inbound_lane(s.config->0.lanes, route)->Ok_0;
            &&& s.config is Some
            &&& inbound_lane(s.config->0.lanes, route) is Ok
            &&& m.lane_index == lane.lane_index
            &&& m.token == lane.lp_token.bytes@
            &&& word_account(log_data(log)->Ok_0.subrange(0, 32)) == Ok::<Seq<u8>, BridgeError>(
                lane.foreign_token@,
            )
            &&& Some(m.source_chain_id) == evm_chain_id(route.foreign)
        }),
{
}

} // verus!
