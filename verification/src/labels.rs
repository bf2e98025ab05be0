//! The names under which routes, tokens and contracts are reported.
use vstd::prelude::*;
use vstd::string::*;
use crate::chain::{BridgeConfig, ContractAddress, InboundTokenLane, BRIDGE_MODULE};
use crate::events::{BridgeEventKind, BridgeEventLevel, DraftView, EventDraft};
use crate::evm::text_of;
use crate::route_config::{BridgeRoute, ForeignLeg, LegView, RouteView};
use crate::text::{blank, is_blank, trimmed};
use crate::util::{
    address_text, contract_bytes, contract_view, evm_address_hex, inbound_lane,
    inbound_lane_for_route, parse_contract_address, BridgeError,
};

verus! {

/// The inbound bridge of a route; no instance of the bridge module where the
/// configuration names none.
pub open spec fn inbound_bytes(route: RouteView) -> Seq<u8> {
    match contract_bytes(route.local_inbound.bridge_contract) {
        Ok(b) => b,
        Err(_) => seq![8u8, 0, 0, 0, 0, 0, 0, 0],
    }
}

/// Reads the inbound bridge of a route.
pub fn parse_inbound_contract(route: &BridgeRoute) -> (r: Result<ContractAddress, BridgeError>)
    ensures
        contract_view(r) == contract_bytes(route@.local_inbound.bridge_contract),
{
    parse_contract_address(route.local_inbound.bridge_contract.as_str())
}

/// The inbound bridge of a route.
pub fn inbound_contract_for(route: &BridgeRoute) -> (r: ContractAddress)
    ensures
        r.bytes@ == inbound_bytes(route@),
{
    match parse_inbound_contract(route) {
        Ok(contract) => contract,
        Err(_) => {
            let rest: [u8; 7] = [0, 0, 0, 0, 0, 0, 0];
            ContractAddress::new(BRIDGE_MODULE, rest)
        },
    }
}

/// The kind of a foreign chain.
pub open spec fn kind_of_leg(leg: LegView) -> Seq<char> {
    match leg {
        LegView::Evm { .. } => "evm"@,
        LegView::Lightpool { .. } => "lightpool"@,
    }
}

/// The kind of a foreign chain.
pub fn foreign_kind_label(foreign: &ForeignLeg) -> (r: String)
    ensures
        r@ == kind_of_leg(foreign@),
{
    match foreign {
        ForeignLeg::Evm { .. } => "evm".to_owned(),
        ForeignLeg::Lightpool { .. } => "lightpool".to_owned(),
    }
}

/// The lanes of an inbound bridge that is known.
pub open spec fn lanes_of(cfg: Option<&BridgeConfig>) -> Option<Seq<InboundTokenLane>> {
    match cfg {
        Some(c) => Some(c.lanes@),
        None => None,
    }
}

/// The lane of a route on an inbound bridge that is known.
pub open spec fn known_lane(
    route: RouteView,
    lanes: Option<Seq<InboundTokenLane>>,
) -> Option<InboundTokenLane> {
    match lanes {
        Some(lanes) => match inbound_lane(lanes, route) {
            Ok(lane) => Some(lane),
            Err(_) => None,
        },
        None => None,
    }
}

/// The lane of a route on an inbound bridge, if both are known.
pub fn lane_if_known(route: &BridgeRoute, cfg: Option<&BridgeConfig>) -> (r: Option<
    InboundTokenLane,
>)
    ensures
        r == known_lane(route@, lanes_of(cfg)),
{
    match cfg {
        Some(c) => match inbound_lane_for_route(c, route) {
            Ok(lane) => Some(*lane),
            Err(_) => None,
        },
        None => None,
    }
}

/// The local token of a route: as configured, else as the bridge says.
pub open spec fn token_text(
    route: RouteView,
    lanes: Option<Seq<InboundTokenLane>>,
) -> Option<Seq<char>> {
    if route.local_inbound.lp_token.len() > 0 {
        Some(route.local_inbound.lp_token)
    } else {
        match known_lane(route, lanes) {
            Some(lane) => Some(lane.lp_token.text()),
            None => None,
        }
    }
}

/// The local token of a route.
pub fn token_label(route: &BridgeRoute, cfg: Option<&BridgeConfig>) -> (r: Option<String>)
    ensures
        text_of(r) == token_text(route@, lanes_of(cfg)),
{
    if !route.local_inbound.lp_token.as_str().is_empty() {
        return Some(route.local_inbound.lp_token.clone());
    }
    match lane_if_known(route, cfg) {
        Some(lane) => Some(lane.lp_token.label()),
        None => None,
    }
}

/// The EVM token of a route: as configured, else as the bridge says.
pub open spec fn evm_token_text(
    route: RouteView,
    lanes: Option<Seq<InboundTokenLane>>,
) -> Option<Seq<char>> {
    let from_lane = match known_lane(route, lanes) {
        Some(lane) => Some(address_text(lane.foreign_token@)),
        None => None,
    };
    match route.foreign {
        LegView::Evm { token_address, .. } => if is_blank(token_address) {
            from_lane
        } else {
            Some(trimmed(token_address))
        },
        LegView::Lightpool { .. } => from_lane,
    }
}

/// The EVM token of a route.
pub fn evm_token_label(route: &BridgeRoute, cfg: Option<&BridgeConfig>) -> (r: Option<String>)
    ensures
        text_of(r) == evm_token_text(route@, lanes_of(cfg)),
{
    if let ForeignLeg::Evm { token_address, .. } = &route.foreign {
        if !blank(token_address.as_str()) {
            return Some(token_address.as_str().trim().to_owned());
        }
    }
    match lane_if_known(route, cfg) {
        Some(lane) => Some(evm_address_hex(&lane.foreign_token)),
        None => None,
    }
}

/// Whether an event is about the foreign token.
pub open spec fn about_foreign_token(kind: BridgeEventKind) -> bool {
    match kind {
        BridgeEventKind::DepositSeen => true,
        BridgeEventKind::EvmRequestSent => true,
        BridgeEventKind::EvmRequestFailed => true,
        BridgeEventKind::EvmFinalized => true,
        BridgeEventKind::EvmFinalizeFailed => true,
        _ => false,
    }
}

/// Tells whether an event is about the foreign token.
pub fn is_evm_token_event(kind: BridgeEventKind) -> (r: bool)
    ensures
        r == about_foreign_token(kind),
{
    match kind {
        BridgeEventKind::DepositSeen => true,
        BridgeEventKind::EvmRequestSent => true,
        BridgeEventKind::EvmRequestFailed => true,
        BridgeEventKind::EvmFinalized => true,
        BridgeEventKind::EvmFinalizeFailed => true,
        _ => false,
    }
}

/// The token that an event of a route names.
pub open spec fn event_token(
    kind: BridgeEventKind,
    route: RouteView,
    lanes: Option<Seq<InboundTokenLane>>,
) -> Option<Seq<char>> {
    if about_foreign_token(kind) {
        evm_token_text(route, lanes)
    } else {
        token_text(route, lanes)
    }
}

/// The event of a route, with the token that it is about.
pub fn emit_route(
    route_id: &str,
    route: &BridgeRoute,
    cfg: Option<&BridgeConfig>,
    kind: BridgeEventKind,
    level: BridgeEventLevel,
    message_id: Option<u64>,
    amount: Option<u64>,
    detail: String,
) -> (r: EventDraft)
    ensures
        r@ == (DraftView {
            route_id: route_id@,
            token: event_token(kind, route@, lanes_of(cfg)),
            kind,
            level,
            message_id,
            amount,
            detail: detail@,
        }),
{
    let token = if is_evm_token_event(kind) {
        evm_token_label(route, cfg)
    } else {
        token_label(route, cfg)
    };
    EventDraft { route_id: route_id.to_owned(), token, kind, level, message_id, amount, detail }
}

} // verus!
