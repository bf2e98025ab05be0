//! The stream of receipts of a LightPool chain.
use vstd::prelude::*;
use vstd::string::*;
use crate::chain::{
    BridgeConfig, BridgeWithdrawRecord, BridgeWithdrawStatus, ContractAddress, InboundTokenLane,
    OutboundWithdrawRecord, OutboundWithdrawStatus,
};
use crate::codec::{
    parse_url, port_of_url, set_url_port, set_url_scheme, url_normal, url_port, url_with_port,
    url_with_scheme,
};
use crate::route_config::{BridgeRoute, ForeignLeg};
use crate::text::{cat, same_text, trimmed};

verus! {

/// Why an RPC address has no WebSocket address.
#[derive(Clone, Copy, Debug, PartialEq, Eq, Structural)]
pub enum WsUrlError {
    /// It is no URL.
    NotUrl,
    /// Its scheme cannot be exchanged.
    Scheme,
    /// Its port cannot be exchanged.
    Port,
}

impl WsUrlError {
    /// The text of the error for the address of a node.
    pub open spec fn text(self, http_rpc: Seq<char>) -> Seq<char> {
        match self {
            WsUrlError::NotUrl => "invalid RPC URL: "@ + http_rpc,
            WsUrlError::Scheme => "invalid RPC URL scheme: "@ + http_rpc,
            WsUrlError::Port => "failed to derive WebSocket port from "@ + http_rpc,
        }
    }

    /// The text of the error for the address of a node.
    pub fn message(&self, http_rpc: &str) -> (r: String)
        ensures
            r@ == self.text(http_rpc@),
    {
        match *self {
            WsUrlError::NotUrl => cat("invalid RPC URL: ", http_rpc),
            WsUrlError::Scheme => cat("invalid RPC URL scheme: ", http_rpc),
            WsUrlError::Port => cat("failed to derive WebSocket port from ", http_rpc),
        }
    }
}

/// The RPC address with the WebSocket scheme.
pub open spec fn ws_scheme_url(http_rpc: Seq<char>) -> Result<Seq<char>, WsUrlError> {
    match url_normal(trimmed(http_rpc)) {
        None => Err(WsUrlError::NotUrl),
        Some(url) => match url_with_scheme(url, "ws"@) {
            None => Err(WsUrlError::Scheme),
            Some(ws) => Ok(ws),
        },
    }
}

/// Whether the WebSocket port of an RPC address is a port.
pub open spec fn ws_port_fits(http_rpc: Seq<char>) -> bool {
    ws_scheme_url(http_rpc) matches Ok(ws) ==> url_port(ws) matches Some(port) ==> port + 100
        <= u16::MAX
}

/// The WebSocket address for the RPC address of a LightPool node.
pub open spec fn lp_ws_text(http_rpc: Seq<char>) -> Result<Seq<char>, WsUrlError> {
    match ws_scheme_url(http_rpc) {
        Err(e) => Err(e),
        Ok(ws) => match url_port(ws) {
            None => Ok(ws),
            Some(port) => match url_with_port(ws, (port + 100) as u16) {
                None => Err(WsUrlError::Port),
                Some(url) => Ok(url),
            },
        },
    }
}

/// The view of an address that was found or not.
pub open spec fn url_view(r: Result<String, WsUrlError>) -> Result<Seq<char>, WsUrlError> {
    match r {
        Ok(s) => Ok(s@),
        Err(e) => Err(e),
    }
}

/// The port of the WebSocket for the port of the RPC, if it is a port.
pub fn ws_port(port: u16) -> (r: Option<u16>)
    ensures
        r == (if port + 100 <= u16::MAX {
            Some((port + 100) as u16)
        } else {
            None::<u16>
        }),
{
    port.checked_add(100)
}

/// The RPC address with the WebSocket scheme.
fn with_ws_scheme(http_rpc: &str) -> (r: Result<String, WsUrlError>)
    ensures
        url_view(r) == ws_scheme_url(http_rpc@),
{
    match parse_url(http_rpc.trim()) {
        None => Err(WsUrlError::NotUrl),
        Some(url) => match set_url_scheme(url.as_str(), "ws") {
            None => Err(WsUrlError::Scheme),
            Some(ws) => Ok(ws),
        },
    }
}

/// The WebSocket address for the RPC address of a LightPool node: the scheme is
/// exchanged, and a port that is named is moved up by a hundred.
pub fn lp_ws_url(http_rpc: &str) -> (r: Result<String, WsUrlError>)
    requires
        ws_port_fits(http_rpc@),
    ensures
        url_view(r) == lp_ws_text(http_rpc@),
{
    let url = match with_ws_scheme(http_rpc) {
        Ok(url) => url,
        Err(e) => {
            return Err(e);
        },
    };
    match port_of_url(url.as_str()) {
        None => Ok(url),
        Some(port) => match set_url_port(url.as_str(), port + 100) {
            None => Err(WsUrlError::Port),
            Some(moved) => Ok(moved),
        },
    }
}

/// The WebSocket address for the RPC address of a LightPool node; none where
/// the port would be too large.
pub fn try_lp_ws_url(http_rpc: &str) -> (r: Option<Result<String, WsUrlError>>)
    ensures
        match r {
            Some(url) => ws_port_fits(http_rpc@) && url_view(url) == lp_ws_text(http_rpc@),
            None => !ws_port_fits(http_rpc@),
        },
{
    if let Ok(url) = with_ws_scheme(http_rpc) {
        if let Some(port) = port_of_url(url.as_str()) {
            if ws_port(port).is_none() {
                return None;
            }
        }
    }
    Some(lp_ws_url(http_rpc))
}

/// What the event of a withdraw on an outbound bridge holds.
#[derive(Clone, Copy, Debug)]
pub struct OutboundWithdrawEventPayload {
    pub bridge: ContractAddress,
    pub lane_index: u32,
    pub nonce: u64,
    pub sender: [u8; 20],
    pub foreign_recipient: [u8; 20],
    pub amount: u64,
    pub token: ContractAddress,
}

/// What the event of a withdraw on an inbound bridge holds.
#[derive(Clone, Copy, Debug)]
pub struct InboundWithdrawEventPayload {
    pub lane_index: u32,
    pub nonce: u64,
    pub sender: [u8; 20],
    pub foreign_recipient: [u8; 20],
    pub amount: u64,
    pub token: ContractAddress,
}

/// An event of a transaction: the action of a call, the contract, and what the
/// data hold, read in either way.
#[derive(Clone, Debug)]
pub struct TransactionEvent {
    pub call: Option<String>,
    pub contract: Option<ContractAddress>,
    pub outbound: Option<OutboundWithdrawEventPayload>,
    pub inbound: Option<InboundWithdrawEventPayload>,
}

/// A transaction that was executed.
#[derive(Clone, Debug)]
pub struct TransactionOutput {
    pub success: bool,
    pub events: Vec<TransactionEvent>,
}

/// The transactions of one block.
#[derive(Clone, Debug)]
pub struct ReceiptBlock {
    pub transaction_outputs: Vec<TransactionOutput>,
}

/// Whether an event is a call of `withdraw` on a contract.
pub open spec fn is_withdraw_of(event: TransactionEvent, bridge: ContractAddress) -> bool {
    &&& event.call matches Some(action)
    &&& action@ == "withdraw"@
    &&& event.contract matches Some(c)
    &&& c.bytes@ == bridge.bytes@
}

/// Tells whether an event is a call of `withdraw` on a contract.
fn is_withdraw_call(event: &TransactionEvent, bridge: &ContractAddress) -> (r: bool)
    ensures
        r == is_withdraw_of(*event, *bridge),
{
    match (&event.call, &event.contract) {
        (Some(action), Some(contract)) => same_text(action.as_str(), "withdraw") && contract.same(
            bridge,
        ),
        _ => false,
    }
}

/// The withdraw on an outbound bridge that an event is about.
pub open spec fn outbound_withdraw_in(event: TransactionEvent, bridge: ContractAddress) -> Option<
    OutboundWithdrawRecord,
> {
    match event.outbound {
        Some(p) => if is_withdraw_of(event, bridge) {
            Some(
                OutboundWithdrawRecord {
                    lane_index: p.lane_index,
                    nonce: p.nonce,
                    sender: p.sender,
                    foreign_recipient: p.foreign_recipient,
                    amount: p.amount,
                    token: p.token,
                    status: OutboundWithdrawStatus::Pending,
                },
            )
        } else {
            None
        },
        None => None,
    }
}

/// Reads the withdraw on an outbound bridge that an event is about.
pub fn parse_outbound_withdraw_event(event: &TransactionEvent, outbound_bridge: ContractAddress) -> (r:
    Option<OutboundWithdrawRecord>)
    ensures
        r == outbound_withdraw_in(*event, outbound_bridge),
{
    if !is_withdraw_call(event, &outbound_bridge) {
        return None;
    }
    match event.outbound {
        Some(p) => Some(
            OutboundWithdrawRecord {
                lane_index: p.lane_index,
                nonce: p.nonce,
                sender: p.sender,
                foreign_recipient: p.foreign_recipient,
                amount: p.amount,
                token: p.token,
                status: OutboundWithdrawStatus::Pending,
            },
        ),
        None => None,
    }
}

/// The withdraw on an inbound bridge that an event is about.
pub open spec fn inbound_withdraw_in(event: TransactionEvent, bridge: ContractAddress) -> Option<
    BridgeWithdrawRecord,
> {
    match event.inbound {
        Some(p) => if is_withdraw_of(event, bridge) {
            Some(
                BridgeWithdrawRecord {
                    lane_index: p.lane_index,
                    nonce: p.nonce,
                    sender: p.sender,
                    foreign_recipient: p.foreign_recipient,
                    amount: p.amount,
                    token: p.token,
                    status: BridgeWithdrawStatus::Pending,
                },
            )
        } else {
            None
        },
        None => None,
    }
}

/// Reads the withdraw on an inbound bridge that an event is about.
pub fn parse_inbound_withdraw_event(event: &TransactionEvent, inbound_bridge: ContractAddress) -> (r:
    Option<BridgeWithdrawRecord>)
    ensures
        r == inbound_withdraw_in(*event, inbound_bridge),
{
    if !is_withdraw_call(event, &inbound_bridge) {
        return None;
    }
    match event.inbound {
        Some(p) => Some(
            BridgeWithdrawRecord {
                lane_index: p.lane_index,
                nonce: p.nonce,
                sender: p.sender,
                foreign_recipient: p.foreign_recipient,
                amount: p.amount,
                token: p.token,
                status: BridgeWithdrawStatus::Pending,
            },
        ),
        None => None,
    }
}

/// The withdraws on an outbound bridge among some events, in order.
pub open spec fn outbound_in_events(events: Seq<TransactionEvent>, bridge: ContractAddress) -> Seq<
    OutboundWithdrawRecord,
>
    decreases events.len(),
{
    if events.len() == 0 {
        Seq::empty()
    } else {
        let rest = outbound_in_events(events.drop_last(), bridge);
        match outbound_withdraw_in(events.last(), bridge) {
            Some(w) => rest.push(w),
            None => rest,
        }
    }
}

/// The withdraws on an outbound bridge in some transactions, in order. Those of
/// a transaction that failed do not count.
pub open spec fn outbound_in_block(txs: Seq<TransactionOutput>, bridge: ContractAddress) -> Seq<
    OutboundWithdrawRecord,
>
    decreases txs.len(),
{
    if txs.len() == 0 {
        Seq::empty()
    } else {
        let rest = outbound_in_block(txs.drop_last(), bridge);
        if txs.last().success {
            rest + outbound_in_events(txs.last().events@, bridge)
        } else {
            rest
        }
    }
}

/// The withdraws on an inbound bridge among some events, in order.
pub open spec fn inbound_in_events(events: Seq<TransactionEvent>, bridge: ContractAddress) -> Seq<
    BridgeWithdrawRecord,
>
    decreases events.len(),
{
    if events.len() == 0 {
        Seq::empty()
    } else {
        let rest = inbound_in_events(events.drop_last(), bridge);
        match inbound_withdraw_in(events.last(), bridge) {
            Some(w) => rest.push(w),
            None => rest,
        }
    }
}

/// The withdraws on an inbound bridge in some transactions, in order. Those of
/// a transaction that failed do not count.
pub open spec fn inbound_in_block(txs: Seq<TransactionOutput>, bridge: ContractAddress) -> Seq<
    BridgeWithdrawRecord,
>
    decreases txs.len(),
{
    if txs.len() == 0 {
        Seq::empty()
    } else {
        let rest = inbound_in_block(txs.drop_last(), bridge);
        if txs.last().success {
            rest + inbound_in_events(txs.last().events@, bridge)
        } else {
            rest
        }
    }
}

/// The withdraws on an outbound bridge in a block.
pub fn extract_outbound_withdraws(block: &ReceiptBlock, outbound_bridge: ContractAddress) -> (r: Vec<
    OutboundWithdrawRecord,
>)
    ensures
        r@ == outbound_in_block(block.transaction_outputs@, outbound_bridge),
{
    let txs = &block.transaction_outputs;
    let mut records: Vec<OutboundWithdrawRecord> = Vec::new();
    let mut i: usize = 0;
    assert(txs@.take(0) =~= Seq::<TransactionOutput>::empty());
    while i < txs.len()
        invariant
            i <= txs.len(),
            records@ == outbound_in_block(txs@.take(i as int), outbound_bridge),
        decreases txs.len() - i,
    {
        let ghost earlier = records@;
        proof {
            let now = txs@.take(i + 1);
            assert(now.drop_last() =~= txs@.take(i as int));
            assert(now.last() == txs@[i as int]);
        }
        if txs[i].success {
            let events = &txs[i].events;
            let mut j: usize = 0;
            assert(events@.take(0) =~= Seq::<TransactionEvent>::empty());
            assert(earlier + Seq::<OutboundWithdrawRecord>::empty() =~= earlier);
            while j < events.len()
                invariant
                    j <= events.len(),
                    records@ == earlier + outbound_in_events(
                        events@.take(j as int),
                        outbound_bridge,
                    ),
                decreases events.len() - j,
            {
                proof {
                    let now = events@.take(j + 1);
                    assert(now.drop_last() =~= events@.take(j as int));
                    assert(now.last() == events@[j as int]);
                }
                if let Some(record) = parse_outbound_withdraw_event(&events[j], outbound_bridge) {
                    records.push(record);
                    assert(records@ =~= earlier + outbound_in_events(
                        events@.take(j + 1),
                        outbound_bridge,
                    ));
                }
                j += 1;
            }
            assert(events@.take(j as int) =~= events@);
        }
        i += 1;
    }
    assert(txs@.take(i as int) =~= txs@);
    records
}

/// The withdraws on an inbound bridge in a block.
pub fn extract_inbound_withdraws(block: &ReceiptBlock, inbound_bridge: ContractAddress) -> (r: Vec<
    BridgeWithdrawRecord,
>)
    ensures
        r@ == inbound_in_block(block.transaction_outputs@, inbound_bridge),
{
    let txs = &block.transaction_outputs;
    let mut records: Vec<BridgeWithdrawRecord> = Vec::new();
    let mut i: usize = 0;
    assert(txs@.take(0) =~= Seq::<TransactionOutput>::empty());
    while i < txs.len()
        invariant
            i <= txs.len(),
            records@ == inbound_in_block(txs@.take(i as int), inbound_bridge),
        decreases txs.len() - i,
    {
        let ghost earlier = records@;
        proof {
            let now = txs@.take(i + 1);
            assert(now.drop_last() =~= txs@.take(i as int));
            assert(now.last() == txs@[i as int]);
        }
        if txs[i].success {
            let events = &txs[i].events;
            let mut j: usize = 0;
            assert(events@.take(0) =~= Seq::<TransactionEvent>::empty());
            assert(earlier + Seq::<BridgeWithdrawRecord>::empty() =~= earlier);
            while j < events.len()
                invariant
                    j <= events.len(),
                    records@ == earlier + inbound_in_events(
                        events@.take(j as int),
                        inbound_bridge,
                    ),
                decreases events.len() - j,
            {
                proof {
                    let now = events@.take(j + 1);
                    assert(now.drop_last() =~= events@.take(j as int));
                    assert(now.last() == events@[j as int]);
                }
                if let Some(record) = parse_inbound_withdraw_event(&events[j], inbound_bridge) {
                    records.push(record);
                    assert(records@ =~= earlier + inbound_in_events(
                        events@.take(j + 1),
                        inbound_bridge,
                    ));
                }
                j += 1;
            }
            assert(events@.take(j as int) =~= events@);
        }
        i += 1;
    }
    assert(txs@.take(i as int) =~= txs@);
    records
}

/// The withdraws that stand before those of the stream: a place among all
/// withdraws of an inbound bridge.
#[derive(Clone, Debug)]
pub struct CatchUp {
    pub lanes: Vec<InboundTokenLane>,
    pub lane: usize,
    pub nonce: u64,
}

/// The withdraws of one lane from `nonce` on.
pub open spec fn lane_withdraws(lane: InboundTokenLane, nonce: u64) -> Seq<(u32, u64)>
    decreases lane.next_withdraw_nonce - nonce,
{
    if nonce >= lane.next_withdraw_nonce {
        Seq::empty()
    } else {
        seq![(lane.lane_index, nonce)] + lane_withdraws(lane, (nonce + 1) as u64)
    }
}

/// The withdraws of all lanes from the lane `from` on, each counted from one.
pub open spec fn all_withdraws(lanes: Seq<InboundTokenLane>, from: nat) -> Seq<(u32, u64)>
    decreases lanes.len() - from,
{
    if from >= lanes.len() {
        Seq::empty()
    } else {
        lane_withdraws(lanes[from as int], 1) + all_withdraws(lanes, from + 1)
    }
}

impl CatchUp {
    /// The withdraws that are still to be looked at.
    pub open spec fn remaining(self) -> Seq<(u32, u64)> {
        if self.lane < self.lanes@.len() {
            lane_withdraws(self.lanes@[self.lane as int], self.nonce) + all_withdraws(
                self.lanes@,
                self.lane as nat + 1,
            )
        } else {
            Seq::empty()
        }
    }

    /// All withdraws of the inbound bridge of a route to a LightPool chain; none
    /// of a route to an EVM chain.
    pub fn new(route: &BridgeRoute, cfg: &BridgeConfig) -> (r: Self)
        ensures
            r.remaining() == (if route@.foreign is Lightpool {
                all_withdraws(cfg.lanes@, 0)
            } else {
                Seq::empty()
            }),
    {
        match &route.foreign {
            ForeignLeg::Lightpool { .. } => {
                let lanes = cfg.lanes.clone();
                assert(lanes@ =~= cfg.lanes@);
                CatchUp { lanes, lane: 0, nonce: 1 }
            },
            ForeignLeg::Evm { .. } => CatchUp { lanes: Vec::new(), lane: 0, nonce: 1 },
        }
    }

    /// The lane and the nonce of the next withdraw.
    pub fn next_withdraw(&mut self) -> (r: Option<(u32, u64)>)
        ensures
            final(self).lanes == old(self).lanes,
            match r {
                Some(w) => old(self).remaining().len() > 0 && w == old(self).remaining()[0]
                    && final(self).remaining() == old(self).remaining().skip(1),
                None => old(self).remaining().len() == 0 && final(self).remaining() == old(
                    self,
                ).remaining(),
            },
    {
        let ghost all = self.remaining();
        while self.lane < self.lanes.len()
            invariant
                self.lanes == old(self).lanes,
                self.remaining() == all,
                all == old(self).remaining(),
            decreases self.lanes@.len() - self.lane,
        {
            let lane = self.lanes[self.lane];
            if self.nonce < lane.next_withdraw_nonce {
                let w = (lane.lane_index, self.nonce);
                self.nonce = self.nonce + 1;
                assert(all.skip(1) =~= self.remaining());
                return Some(w);
            }
            self.lane = self.lane + 1;
            self.nonce = 1;
            assert(self.remaining() =~= all);
        }
        None
    }
}

/// Every withdraw below the next nonce of its lane is looked at, and no other.
pub proof fn law_catch_up_is_complete(lane: InboundTokenLane, first: u64, nonce: u64)
    requires
        first <= nonce,
    ensures
        lane_withdraws(lane, first).contains((lane.lane_index, nonce)) == (nonce
            < lane.next_withdraw_nonce),
    decreases lane.next_withdraw_nonce - first,
{
    if first < lane.next_withdraw_nonce {
        let all = lane_withdraws(lane, first);
        let rest = lane_withdraws(lane, (first + 1) as u64);
        if nonce == first {
            assert(all[0] == (lane.lane_index, nonce));
        } else {
            law_catch_up_is_complete(lane, (first + 1) as u64, nonce);
            if nonce < lane.next_withdraw_nonce {
                let i = rest.index_of((lane.lane_index, nonce));
                assert(all[i + 1] == rest[i]);
            } else if all.contains((lane.lane_index, nonce)) {
                let i = all.index_of((lane.lane_index, nonce));
                assert(rest[i - 1] == all[i]);
            }
        }
    }
}

} // verus!
