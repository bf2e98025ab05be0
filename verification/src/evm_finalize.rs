//! The finalization of withdraws on the EVM bridge, once they can no longer be
//! disputed.
use vstd::prelude::*;
use vstd::string::*;
use crate::chain::BridgeConfig;
use crate::config::{poll_wait, BridgeLinkConfig};
use crate::events::{BridgeEventKind, BridgeEventLevel, DraftView, EventDraft};
use crate::evm::{
    block_delay, dispute_block_delay, in_dispute_text, saturated,
    still_in_dispute_error, text_of, EvmDisputeParams,
};
use crate::evm_request::with_item;
use crate::labels::{evm_token_label, evm_token_text, lanes_of};
use crate::lp_submit::draft_of;
use crate::route_config::{BridgeRoute, ForeignLeg, LegView};
use crate::route_state::{PendingEvmWithdraw, RouteState, StateView};
use crate::text::{cat, cat3, decimal, decimal_text};

verus! {

broadcast use vstd::std_specs::hash::group_hash_axioms;

/// The dispute parameters that were read, or those of a local chain.
pub open spec fn known_params(params: Option<EvmDisputeParams>) -> EvmDisputeParams {
    match params {
        Some(p) => p,
        None => EvmDisputeParams { period_seconds: 5, block_duration_millis: 1000 },
    }
}

/// The dispute parameters that were read, or those of a local chain.
pub(crate) fn params_or_default(params: Option<EvmDisputeParams>) -> (r: EvmDisputeParams)
    ensures
        r == known_params(params),
{
    match params {
        Some(p) => p,
        None => EvmDisputeParams::default(),
    }
}

/// The first block at which something requested at `block` can be finalized.
pub open spec fn ready_block(block: u64, delay: u64) -> int {
    saturated(block + delay)
}

/// The first moment at which something requested at `at_ms` can be finalized.
pub open spec fn ready_time(at_ms: u64, period_seconds: u64) -> int {
    saturated(saturated(at_ms + saturated(period_seconds * 1000)) + 1)
}

/// The first moment at which something requested at `at_ms` can be finalized.
pub(crate) fn ready_at(at_ms: u64, period_seconds: u64) -> (r: u64)
    ensures
        r == ready_time(at_ms, period_seconds),
{
    let period_ms: u64 = match period_seconds.checked_mul(1000) {
        Some(ms) => ms,
        None => u64::MAX,
    };
    at_ms.saturating_add(period_ms).saturating_add(1)
}

/// The wait for one withdraw.
#[derive(Clone, Debug)]
pub struct FinalizeRun {
    pub route_id: String,
    pub token: Option<String>,
    pub nonce: u64,
    pub period_seconds: u64,
    pub delay: u64,
    /// The time between two looks at the withdraw, in milliseconds.
    pub poll_ms: u64,
}

/// What is to be done next.
#[derive(Clone, Copy, Debug, PartialEq, Eq, Structural)]
pub enum FinalizeAction {
    /// Look at the withdraw again after so many milliseconds.
    Wait(u64),
    /// Finalize the withdraw.
    Finalize,
}

/// What is to be done next, and what is to be reported before.
#[derive(Clone, Debug)]
pub struct FinalizeReply {
    pub event: Option<EventDraft>,
    pub action: FinalizeAction,
}

/// Whether a withdraw can be finalized when the latest block and the time are
/// these.
pub open spec fn finalizable(
    item: PendingEvmWithdraw,
    period_seconds: u64,
    delay: u64,
    now_ms: u64,
    latest: Option<u64>,
) -> bool {
    &&& item.requested_block matches Some(block)
    &&& latest matches Some(l)
    &&& l >= ready_block(block, delay)
    &&& item.requested_at_ms matches Some(t) ==> now_ms >= ready_time(t, period_seconds)
}

impl FinalizeRun {
    /// What is reported of the withdraw.
    pub open spec fn event(
        self,
        kind: BridgeEventKind,
        level: BridgeEventLevel,
        amount: u64,
        detail: Seq<char>,
    ) -> DraftView {
        DraftView {
            route_id: self.route_id@,
            token: text_of(self.token),
            kind,
            level,
            message_id: Some(self.nonce),
            amount: Some(amount),
            detail,
        }
    }

    /// The wait for the withdraw `nonce` of a route to an EVM chain.
    pub fn open(
        route_id: &str,
        route: &BridgeRoute,
        cfg: Option<&BridgeConfig>,
        nonce: u64,
        params: Option<EvmDisputeParams>,
        link: &BridgeLinkConfig,
    ) -> (r: Option<Self>)
        ensures
            match route@.foreign {
                LegView::Evm { confirmations, .. } => {
                    &&& r matches Some(run)
                    &&& run.route_id@ == route_id@
                    &&& text_of(run.token) == evm_token_text(route@, lanes_of(cfg))
                    &&& run.nonce == nonce
                    &&& run.period_seconds == known_params(params).period_seconds
                    &&& run.delay == block_delay(known_params(params), confirmations)
                    &&& run.poll_ms == poll_wait(link@.poll_interval_ms)
                },
                LegView::Lightpool { .. } => r is None,
            },
    {
        match &route.foreign {
            ForeignLeg::Evm { confirmations, .. } => {
                let dispute = params_or_default(params);
                Some(
                    FinalizeRun {
                        route_id: route_id.to_owned(),
                        token: evm_token_label(route, cfg),
                        nonce,
                        period_seconds: dispute.period_seconds,
                        delay: dispute_block_delay(dispute, *confirmations),
                        poll_ms: link.finalize_wait_ms(),
                    },
                )
            },
            ForeignLeg::Lightpool { .. } => None,
        }
    }

    /// The withdraw, as long as there is something to wait for.
    pub fn waiting(&self, state: &RouteState) -> (r: Option<PendingEvmWithdraw>)
        ensures
            r == (if state@.evm.contains_key(self.nonce) && !state@.evm[self.nonce].closed()
                && state@.evm[self.nonce].requested_block is Some {
                Some(state@.evm[self.nonce])
            } else {
                None
            }),
    {
        match state.pending_evm_withdraws.get(&self.nonce) {
            Some(item) => if item.failed || item.finalized || item.requested_block.is_none() {
                None
            } else {
                Some(*item)
            },
            None => None,
        }
    }

    /// Whether the withdraw can be finalized now.
    pub fn is_due(&self, item: &PendingEvmWithdraw, now_ms: u64, latest: Option<u64>) -> (r: bool)
        ensures
            r == finalizable(*item, self.period_seconds, self.delay, now_ms, latest),
    {
        let (block, latest) = match (item.requested_block, latest) {
            (Some(block), Some(latest)) => (block, latest),
            _ => {
                return false;
            },
        };
        if latest < block.saturating_add(self.delay) {
            return false;
        }
        match item.requested_at_ms {
            Some(at_ms) => now_ms >= ready_at(at_ms, self.period_seconds),
            None => true,
        }
    }

    /// Carries on with the time and the latest block: the withdraw is finalized
    /// if it can no longer be disputed, and looked at again later if not.
    pub fn on_look(&self, item: &PendingEvmWithdraw, now_ms: u64, latest: Option<u64>) -> (r:
        FinalizeAction)
        ensures
            r == (if finalizable(*item, self.period_seconds, self.delay, now_ms, latest) {
                FinalizeAction::Finalize
            } else {
                FinalizeAction::Wait(self.poll_ms)
            }),
    {
        if self.is_due(item, now_ms, latest) {
            FinalizeAction::Finalize
        } else {
            FinalizeAction::Wait(self.poll_ms)
        }
    }

    /// Takes note that the withdraw was finalized.
    pub fn on_finalized(&self, state: &mut RouteState, item: &PendingEvmWithdraw) -> (r: EventDraft)
        ensures
            final(state)@ == with_item(
                old(state)@,
                self.nonce,
                PendingEvmWithdraw { finalized: true, ..*item },
            ),
            r@ == self.event(
                BridgeEventKind::EvmFinalized,
                BridgeEventLevel::Info,
                item.record.amount,
                "EVM withdraw finalized nonce="@ + decimal(self.nonce as nat),
            ),
            old(state)@.wf() && item.wf() && item.record.nonce == self.nonce ==> final(state)@.wf(),
    {
        let mut done = *item;
        done.finalized = true;
        state.pending_evm_withdraws.insert(self.nonce, done);
        EventDraft {
            route_id: self.route_id.clone(),
            token: self.token.clone(),
            kind: BridgeEventKind::EvmFinalized,
            level: BridgeEventLevel::Info,
            message_id: Some(self.nonce),
            amount: Some(item.record.amount),
            detail: cat("EVM withdraw finalized nonce=", decimal_text(self.nonce).as_str()),
        }
    }

    /// Carries on after a finalization that failed: it is tried again later, and
    /// reported unless the withdraw is still open to dispute.
    pub fn on_finalize_err(&self, item: &PendingEvmWithdraw, detail: &str) -> (r: FinalizeReply)
        ensures
            draft_of(r.event) == (if in_dispute_text(detail@) {
                None
            } else {
                Some(
                    self.event(
                        BridgeEventKind::EvmFinalizeFailed,
                        BridgeEventLevel::Warn,
                        item.record.amount,
                        "nonce="@ + decimal(self.nonce as nat) + ": "@ + detail@,
                    ),
                )
            }),
            r.action == FinalizeAction::Wait(self.poll_ms),
    {
        let action = FinalizeAction::Wait(self.poll_ms);
        if still_in_dispute_error(detail) {
            return FinalizeReply { event: None, action };
        }
        let head = cat3("nonce=", decimal_text(self.nonce).as_str(), ": ");
        let event = EventDraft {
            route_id: self.route_id.clone(),
            token: self.token.clone(),
            kind: BridgeEventKind::EvmFinalizeFailed,
            level: BridgeEventLevel::Warn,
            message_id: Some(self.nonce),
            amount: Some(item.record.amount),
            detail: cat(head.as_str(), detail),
        };
        FinalizeReply { event: Some(event), action }
    }
}

/// A withdraw is finalized only after the bridge no longer holds it for
/// disputed: enough blocks have passed since the request, and more time than
/// the dispute period.
pub proof fn law_finalized_after_dispute(
    item: PendingEvmWithdraw,
    params: EvmDisputeParams,
    confirmations: u64,
    delay: u64,
    now_ms: u64,
    latest: u64,
)
    requires
        item.wf(),
        params.block_duration_millis > 0,
        delay == block_delay(params, confirmations),
        finalizable(item, params.period_seconds, delay, now_ms, Some(latest)),
        item.requested_block->0 + delay <= u64::MAX,
        item.requested_at_ms->0 + params.period_seconds * 1000 < u64::MAX,
    ensures
        (latest - item.requested_block->0) * params.block_duration_millis > 1000
            * params.period_seconds,
        latest - item.requested_block->0 >= confirmations,
        now_ms > item.requested_at_ms->0 + 1000 * params.period_seconds,
{
    crate::evm::law_delay_outlasts_dispute(params, confirmations);
    let passed = latest - item.requested_block->0;
    let d = params.block_duration_millis as int;
    assert(passed * d >= delay * d) by (nonlinear_arith)
        requires
            passed >= delay,
            d > 0,
    ;
}

/// A withdraw that was finalized is waited for no longer and requested no more.
pub proof fn law_finalized_is_final(
    s: StateView,
    nonce: u64,
    item: PendingEvmWithdraw,
    run: crate::evm_request::RunView,
)
    requires
        run.nonce == nonce,
    ensures
        with_item(s, nonce, PendingEvmWithdraw { finalized: true, ..item }).evm[nonce].closed(),
        !crate::evm_request::wants_attempt(
            run,
            with_item(s, nonce, PendingEvmWithdraw { finalized: true, ..item }),
        ),
{
}

} // verus!
