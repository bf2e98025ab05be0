//! What the bridge says of its own state.
use vstd::prelude::*;
use vstd::string::*;
use crate::chain::{BridgeConfig, BridgeConfigView};
use crate::evm::text_of;
use crate::labels::{
    foreign_kind_label, inbound_bytes, inbound_contract_for, kind_of_leg, known_lane,
    lane_if_known, parse_inbound_contract,
};
use crate::route_config::{BridgeRoute, RouteView};
use crate::route_state::{config_view, RouteState, StateView};
use crate::text::same_text;
use crate::util::{address_text, contract_bytes, evm_address_hex};
use crate::votes::{pending_count, BucketView, VoteBook};

verus! {

broadcast use vstd::std_specs::hash::group_hash_axioms;

/// The state of the bridge.
#[derive(Clone, Debug)]
pub struct BridgeStatusResponse {
    pub running: bool,
    pub config_path: String,
    pub validator: String,
    pub committee_epoch: u128,
    pub committee_size: usize,
    pub route_count: usize,
    pub enabled_route_count: usize,
    pub routes: Vec<RouteStatusSnapshot>,
}

/// The state of one route.
#[derive(Clone, Debug)]
pub struct RouteStatusSnapshot {
    pub id: String,
    pub enabled: bool,
    pub foreign_kind: String,
    pub inbound_contract: String,
    pub lp_token: String,
    pub config_loaded: bool,
    pub lp_token_on_chain: Option<String>,
    pub evm_token_on_chain: Option<String>,
    pub next_withdraw_nonce: Option<u64>,
    pub last_scanned_block: u64,
    pub last_withdraw_nonce_scanned: u64,
    pub last_foreign_withdraw_nonce_scanned: u64,
    pub pending_deposits: u64,
    pub pending_evm_withdraws: u64,
    pub pending_lp_deposits: u64,
    pub seen_deposits: u64,
}

/// A [`RouteStatusSnapshot`] in mathematical terms.
#[verifier::ext_equal]
pub struct SnapshotView {
    pub id: Seq<char>,
    pub enabled: bool,
    pub foreign_kind: Seq<char>,
    pub inbound_contract: Seq<char>,
    pub lp_token: Seq<char>,
    pub config_loaded: bool,
    pub lp_token_on_chain: Option<Seq<char>>,
    pub evm_token_on_chain: Option<Seq<char>>,
    pub next_withdraw_nonce: Option<u64>,
    pub last_scanned_block: u64,
    pub last_withdraw_nonce_scanned: u64,
    pub last_foreign_withdraw_nonce_scanned: u64,
    pub pending_deposits: int,
    pub pending_evm_withdraws: int,
    pub pending_lp_deposits: int,
    pub seen_deposits: int,
}

impl View for RouteStatusSnapshot {
    type V = SnapshotView;

    open spec fn view(&self) -> SnapshotView {
        SnapshotView {
            id: self.id@,
            enabled: self.enabled,
            foreign_kind: self.foreign_kind@,
            inbound_contract: self.inbound_contract@,
            lp_token: self.lp_token@,
            config_loaded: self.config_loaded,
            lp_token_on_chain: text_of(self.lp_token_on_chain),
            evm_token_on_chain: text_of(self.evm_token_on_chain),
            next_withdraw_nonce: self.next_withdraw_nonce,
            last_scanned_block: self.last_scanned_block,
            last_withdraw_nonce_scanned: self.last_withdraw_nonce_scanned,
            last_foreign_withdraw_nonce_scanned: self.last_foreign_withdraw_nonce_scanned,
            pending_deposits: self.pending_deposits as int,
            pending_evm_withdraws: self.pending_evm_withdraws as int,
            pending_lp_deposits: self.pending_lp_deposits as int,
            seen_deposits: self.seen_deposits as int,
        }
    }
}

/// What the status tells of the memory of a route.
#[derive(Clone, Debug)]
pub struct RouteSummary {
    pub route_id: String,
    pub config: Option<BridgeConfig>,
    pub last_scanned_block: u64,
    pub last_withdraw_nonce: u64,
    pub last_foreign_withdraw_nonce: u64,
    pub pending_evm_withdraws: u64,
    pub pending_lp_deposits: u64,
    pub seen_deposits: u64,
}

/// A [`RouteSummary`] in mathematical terms.
#[verifier::ext_equal]
pub struct SummaryView {
    pub route_id: Seq<char>,
    pub config: Option<BridgeConfigView>,
    pub last_scanned_block: u64,
    pub last_withdraw_nonce: u64,
    pub last_foreign_withdraw_nonce: u64,
    pub pending_evm_withdraws: int,
    pub pending_lp_deposits: int,
    pub seen_deposits: int,
}

impl View for RouteSummary {
    type V = SummaryView;

    open spec fn view(&self) -> SummaryView {
        SummaryView {
            route_id: self.route_id@,
            config: config_view(self.config),
            last_scanned_block: self.last_scanned_block,
            last_withdraw_nonce: self.last_withdraw_nonce,
            last_foreign_withdraw_nonce: self.last_foreign_withdraw_nonce,
            pending_evm_withdraws: self.pending_evm_withdraws as int,
            pending_lp_deposits: self.pending_lp_deposits as int,
            seen_deposits: self.seen_deposits as int,
        }
    }
}

/// The views of a list of summaries.
pub open spec fn summary_views(active: Seq<RouteSummary>) -> Seq<SummaryView> {
    Seq::new(active.len(), |i: int| active[i]@)
}

/// What the status tells of the memory of a route.
pub open spec fn summary_of(s: StateView) -> SummaryView {
    SummaryView {
        route_id: s.route_id,
        config: s.config,
        last_scanned_block: s.last_scanned_block,
        last_withdraw_nonce: s.last_withdraw_nonce,
        last_foreign_withdraw_nonce: s.last_foreign_withdraw_nonce,
        pending_evm_withdraws: s.evm.len() as int,
        pending_lp_deposits: s.lp.len() as int,
        seen_deposits: s.seen.len() as int,
    }
}

impl RouteState {
    /// What the status tells of the memory of the route.
    pub fn summary(&self) -> (r: RouteSummary)
        ensures
            r@ == summary_of(self@),
    {
        let config = match &self.bridge_config {
            Some(cfg) => Some(cfg.duplicate()),
            None => None,
        };
        RouteSummary {
            route_id: self.route_id.clone(),
            config,
            last_scanned_block: self.last_scanned_block,
            last_withdraw_nonce: self.last_withdraw_nonce,
            last_foreign_withdraw_nonce: self.last_foreign_withdraw_nonce,
            pending_evm_withdraws: self.pending_evm_withdraws.len() as u64,
            pending_lp_deposits: self.pending_lp_deposits.len() as u64,
            seen_deposits: self.seen_deposits.len() as u64,
        }
    }
}

/// The place of the memory of a route, from `from` on; the length of the list
/// where it has none.
pub open spec fn summary_place(active: Seq<SummaryView>, id: Seq<char>, from: nat) -> nat
    decreases active.len() - from,
{
    if from >= active.len() {
        active.len()
    } else if active[from as int].route_id == id {
        from
    } else {
        summary_place(active, id, from + 1)
    }
}

/// The state of a route that runs.
pub open spec fn active_snapshot(
    route: RouteView,
    summary: SummaryView,
    book: Seq<BucketView>,
) -> SnapshotView {
    let lanes = match summary.config {
        Some(cfg) => Some(cfg.lanes),
        None => None,
    };
    let lane = known_lane(route, lanes);
    SnapshotView {
        id: route.id,
        enabled: route.enabled,
        foreign_kind: kind_of_leg(route.foreign),
        inbound_contract: address_text(inbound_bytes(route)),
        lp_token: route.local_inbound.lp_token,
        config_loaded: summary.config is Some,
        lp_token_on_chain: match lane {
            Some(l) => Some(l.lp_token.text()),
            None => None,
        },
        evm_token_on_chain: match lane {
            Some(l) => Some(address_text(l.foreign_token@)),
            None => None,
        },
        next_withdraw_nonce: match lane {
            Some(l) => Some(l.next_withdraw_nonce),
            None => None,
        },
        last_scanned_block: summary.last_scanned_block,
        last_withdraw_nonce_scanned: summary.last_withdraw_nonce,
        last_foreign_withdraw_nonce_scanned: summary.last_foreign_withdraw_nonce,
        pending_deposits: pending_count(book, route.id) as int,
        pending_evm_withdraws: summary.pending_evm_withdraws,
        pending_lp_deposits: summary.pending_lp_deposits,
        seen_deposits: summary.seen_deposits,
    }
}

/// The state of a route that does not run.
pub open spec fn idle_snapshot(route: RouteView) -> SnapshotView {
    SnapshotView {
        id: route.id,
        enabled: route.enabled,
        foreign_kind: kind_of_leg(route.foreign),
        inbound_contract: match contract_bytes(route.local_inbound.bridge_contract) {
            Ok(b) => address_text(b),
            Err(_) => Seq::empty(),
        },
        lp_token: route.local_inbound.lp_token,
        config_loaded: false,
        lp_token_on_chain: None,
        evm_token_on_chain: None,
        next_withdraw_nonce: None,
        last_scanned_block: 0,
        last_withdraw_nonce_scanned: 0,
        last_foreign_withdraw_nonce_scanned: 0,
        pending_deposits: 0,
        pending_evm_withdraws: 0,
        pending_lp_deposits: 0,
        seen_deposits: 0,
    }
}

/// The state of a route.
pub open spec fn route_snapshot(
    route: RouteView,
    active: Seq<SummaryView>,
    book: Seq<BucketView>,
) -> SnapshotView {
    let at = summary_place(active, route.id, 0);
    if at < active.len() {
        active_snapshot(route, active[at as int], book)
    } else {
        idle_snapshot(route)
    }
}

/// The state of a route that runs.
fn snapshot_active(route: &BridgeRoute, summary: &RouteSummary, book: &VoteBook) -> (r:
    RouteStatusSnapshot)
    ensures
        r@ == active_snapshot(route@, summary@, book@),
{
    let lane = lane_if_known(route, summary.config.as_ref());
    let (lp_token_on_chain, evm_token_on_chain, next_withdraw_nonce) = match lane {
        Some(l) => (
            Some(l.lp_token.label()),
            Some(evm_address_hex(&l.foreign_token)),
            Some(l.next_withdraw_nonce),
        ),
        None => (None, None, None),
    };
    RouteStatusSnapshot {
        id: route.id.clone(),
        enabled: route.enabled,
        foreign_kind: foreign_kind_label(&route.foreign),
        inbound_contract: inbound_contract_for(route).label(),
        lp_token: route.local_inbound.lp_token.clone(),
        config_loaded: summary.config.is_some(),
        lp_token_on_chain,
        evm_token_on_chain,
        next_withdraw_nonce,
        last_scanned_block: summary.last_scanned_block,
        last_withdraw_nonce_scanned: summary.last_withdraw_nonce,
        last_foreign_withdraw_nonce_scanned: summary.last_foreign_withdraw_nonce,
        pending_deposits: book.pending_deposits(route.id.as_str()),
        pending_evm_withdraws: summary.pending_evm_withdraws,
        pending_lp_deposits: summary.pending_lp_deposits,
        seen_deposits: summary.seen_deposits,
    }
}

/// The state of a route that does not run.
fn snapshot_idle(route: &BridgeRoute) -> (r: RouteStatusSnapshot)
    ensures
        r@ == idle_snapshot(route@),
{
    let inbound_contract = match parse_inbound_contract(route) {
        Ok(c) => c.label(),
        Err(_) => String::new(),
    };
    RouteStatusSnapshot {
        id: route.id.clone(),
        enabled: route.enabled,
        foreign_kind: foreign_kind_label(&route.foreign),
        inbound_contract,
        lp_token: route.local_inbound.lp_token.clone(),
        config_loaded: false,
        lp_token_on_chain: None,
        evm_token_on_chain: None,
        next_withdraw_nonce: None,
        last_scanned_block: 0,
        last_withdraw_nonce_scanned: 0,
        last_foreign_withdraw_nonce_scanned: 0,
        pending_deposits: 0,
        pending_evm_withdraws: 0,
        pending_lp_deposits: 0,
        seen_deposits: 0,
    }
}

/// The state of a route.
pub fn snapshot(route: &BridgeRoute, active: &Vec<RouteSummary>, book: &VoteBook) -> (r:
    RouteStatusSnapshot)
    ensures
        r@ == route_snapshot(route@, summary_views(active@), book@),
{
    let ghost views = summary_views(active@);
    let mut i: usize = 0;
    while i < active.len()
        invariant
            i <= active.len(),
            views == summary_views(active@),
            summary_place(views, route@.id, 0) == summary_place(views, route@.id, i as nat),
        decreases active.len() - i,
    {
        assert(views[i as int] == active@[i as int]@);
        if same_text(active[i].route_id.as_str(), route.id.as_str()) {
            return snapshot_active(route, &active[i], book);
        }
        i += 1;
    }
    snapshot_idle(route)
}

} // verus!
