//! The request of a withdraw on the EVM bridge: a few attempts, each made anew
//! for the committee of the moment.
//!
//! A run is driven from outside. [`RequestRun::begin`] opens an attempt; its
//! action, and those of the other methods, say what to do next, and the method
//! that takes the result carries on.
use vstd::prelude::*;
use vstd::string::*;
use crate::chain::{BridgeConfig, BridgeWithdrawRecord, Committee};
use crate::config::SecretKey;
use crate::events::{BridgeEventKind, BridgeEventLevel, DraftView, EventDraft};
use crate::evm::{
    already_processed_detail, evm_withdraw_permanent_failure, permanent_text, processed_text,
    text_of, EthSignature, EvmCommittee,
};
use crate::labels::{evm_token_label, evm_token_text};
use crate::lp_submit::draft_of;
use crate::route_config::{BridgeRoute, ForeignLeg};
use crate::route_state::{PendingEvmWithdraw, RouteState, StateView};
use crate::text::{ascii_lowered, cat, cat3, contains_text, decimal, decimal_text, occurs_in};
use crate::util::{inbound_lane, inbound_lane_for_route, BridgeError};
use crate::withdraws::{bind_withdraw, bound_to, not_signable};

verus! {

broadcast use vstd::std_specs::hash::group_hash_axioms;

/// How often a withdraw is requested before the run gives up.
pub const EVM_REQUEST_ATTEMPTS: u32 = 5;

/// Where a run stands.
#[derive(Clone, Debug)]
pub enum RequestPhase {
    /// An attempt can begin.
    Ready,
    /// The request was handed to the EVM chain.
    Casting { item: PendingEvmWithdraw, at_ms: u64 },
    /// The request stands on the chain, by this run or before; the number of
    /// the latest block is asked for.
    NeedsBlock { item: PendingEvmWithdraw, at_ms: u64, by_this_run: bool },
    /// The bridge does not know the committee, which is brought up to date.
    NeedsSync { item: PendingEvmWithdraw, detail: String },
    /// The run has ended.
    Closed,
}

/// A run of attempts to request one withdraw.
#[derive(Clone, Debug)]
pub struct RequestRun {
    pub route_id: String,
    pub token: Option<String>,
    pub foreign_token: [u8; 20],
    pub nonce: u64,
    pub attempt: u32,
    pub phase: RequestPhase,
}

/// What the EVM bridge is asked for.
#[derive(Clone, Debug)]
pub struct CastRequest {
    pub id: [u8; 32],
    pub record: BridgeWithdrawRecord,
    pub foreign_token: [u8; 20],
    pub epoch: u64,
    pub committee: EvmCommittee,
    pub signature: EthSignature,
}

/// What is to be done next.
#[derive(Clone, Debug)]
pub enum RequestAction {
    /// Nothing: the run has ended, with the withdraw ready to be finalized or
    /// not.
    Finish(bool),
    /// Send the request.
    Cast(CastRequest),
    /// Ask for the number of the latest block.
    AskBlock,
    /// Bring the committee on the EVM bridge up to date.
    SyncCommittee,
    /// Begin another attempt after so many seconds.
    Retry(u64),
}

/// What is to be done next, and what is to be reported before.
#[derive(Clone, Debug)]
pub struct RequestReply {
    pub event: Option<EventDraft>,
    pub action: RequestAction,
}

/// A [`RequestPhase`] in mathematical terms.
#[verifier::ext_equal]
pub enum PhaseView {
    Ready,
    Casting { item: PendingEvmWithdraw, at_ms: u64 },
    NeedsBlock { item: PendingEvmWithdraw, at_ms: u64, by_this_run: bool },
    NeedsSync { item: PendingEvmWithdraw, detail: Seq<char> },
    Closed,
}

/// A [`RequestRun`] in mathematical terms.
#[verifier::ext_equal]
pub struct RunView {
    pub route_id: Seq<char>,
    pub token: Option<Seq<char>>,
    pub foreign_token: Seq<u8>,
    pub nonce: u64,
    pub attempt: u32,
    pub phase: PhaseView,
}

impl View for RequestPhase {
    type V = PhaseView;

    open spec fn view(&self) -> PhaseView {
        match *self {
            RequestPhase::Ready => PhaseView::Ready,
            RequestPhase::Casting { item, at_ms } => PhaseView::Casting { item, at_ms },
            RequestPhase::NeedsBlock { item, at_ms, by_this_run } => PhaseView::NeedsBlock {
                item,
                at_ms,
                by_this_run,
            },
            RequestPhase::NeedsSync { item, detail } => PhaseView::NeedsSync {
                item,
                detail: detail@,
            },
            RequestPhase::Closed => PhaseView::Closed,
        }
    }
}

impl View for RequestRun {
    type V = RunView;

    open spec fn view(&self) -> RunView {
        RunView {
            route_id: self.route_id@,
            token: text_of(self.token),
            foreign_token: self.foreign_token@,
            nonce: self.nonce,
            attempt: self.attempt,
            phase: self.phase@,
        }
    }
}

impl RunView {
    /// The withdraw that the run works on at the moment.
    pub open spec fn item(self) -> Option<PendingEvmWithdraw> {
        match self.phase {
            PhaseView::Casting { item, .. } => Some(item),
            PhaseView::NeedsBlock { item, .. } => Some(item),
            PhaseView::NeedsSync { item, .. } => Some(item),
            _ => None,
        }
    }

    /// Whether the attempts are within bounds, and the withdraw is the one of
    /// the run and not yet on the chain for all that is known.
    pub open spec fn wf(self) -> bool {
        &&& self.attempt <= EVM_REQUEST_ATTEMPTS
        &&& self.item() matches Some(item) ==> self.attempt >= 1 && item.wf() && item.record.nonce
            == self.nonce && item.requested_block is None && !item.closed()
    }

    /// The run in another phase.
    pub open spec fn to(self, phase: PhaseView) -> RunView {
        RunView { phase, ..self }
    }

    /// What is reported of the withdraw of the run.
    pub open spec fn event(
        self,
        kind: BridgeEventKind,
        level: BridgeEventLevel,
        amount: u64,
        detail: Seq<char>,
    ) -> DraftView {
        DraftView {
            route_id: self.route_id,
            token: self.token,
            kind,
            level,
            message_id: Some(self.nonce),
            amount: Some(amount),
            detail,
        }
    }
}

/// The state with another account of one withdraw.
pub open spec fn with_item(s: StateView, nonce: u64, item: PendingEvmWithdraw) -> StateView {
    StateView { evm: s.evm.insert(nonce, item), ..s }
}

/// Whether an error says that the bridge does not know the committee.
pub open spec fn committee_refused(detail: Seq<char>) -> bool {
    ||| occurs_in(ascii_lowered(detail), "invalidcommittee"@)
    ||| occurs_in(ascii_lowered(detail), "invalid committee"@)
    ||| occurs_in(detail, "0x7ffe1a65"@)
}

/// Tells whether an error says that the bridge does not know the committee.
pub fn invalid_committee_error(detail: &str) -> (r: bool)
    ensures
        r == committee_refused(detail@),
{
    let lower = detail.to_ascii_lowercase();
    contains_text(lower.as_str(), "invalidcommittee") || contains_text(
        lower.as_str(),
        "invalid committee",
    ) || contains_text(detail, "0x7ffe1a65")
}

/// An error with a hint where the cost of the call could not be estimated.
pub open spec fn hinted(detail: Seq<char>) -> Seq<char> {
    if occurs_in(detail, "estimate gas"@) || occurs_in(detail, "estimateGas"@) {
        detail
            + " (hint: EVM Bridge genesis committee likely mismatches LightPool; redeploy Bridge with VALIDATOR_STAKE matching getCommitteeInfo, default 100)"@
    } else {
        detail
    }
}

/// An error with a hint where the cost of the call could not be estimated.
pub fn with_hint(detail: String) -> (r: String)
    ensures
        r@ == hinted(detail@),
{
    if contains_text(detail.as_str(), "estimate gas") || contains_text(
        detail.as_str(),
        "estimateGas",
    ) {
        cat(
            detail.as_str(),
            " (hint: EVM Bridge genesis committee likely mismatches LightPool; redeploy Bridge with VALIDATOR_STAKE matching getCommitteeInfo, default 100)",
        )
    } else {
        detail
    }
}

/// What follows when a request failed with the error `detail`, hint included:
/// the run, the state, the report and the action.
pub open spec fn after_refusal(
    run: RunView,
    s: StateView,
    item: PendingEvmWithdraw,
    detail: Seq<char>,
) -> (RunView, StateView, Option<DraftView>, RequestAction) {
    let report = run.event(
        BridgeEventKind::EvmRequestFailed,
        BridgeEventLevel::Warn,
        item.record.amount,
        detail,
    );
    if permanent_text(detail) {
        (
            run.to(PhaseView::Closed),
            with_item(s, run.nonce, PendingEvmWithdraw { failed: true, ..item }),
            Some(report),
            RequestAction::Finish(false),
        )
    } else if run.attempt == EVM_REQUEST_ATTEMPTS {
        (run.to(PhaseView::Closed), s, Some(report), RequestAction::Finish(false))
    } else {
        (run.to(PhaseView::Ready), s, None, RequestAction::Retry(1))
    }
}

/// What follows on the error of a request.
pub open spec fn after_cast_error(
    run: RunView,
    s: StateView,
    item: PendingEvmWithdraw,
    at_ms: u64,
    detail: Seq<char>,
) -> (RunView, StateView, Option<DraftView>, RequestAction) {
    if processed_text(detail) {
        (
            run.to(PhaseView::NeedsBlock { item, at_ms, by_this_run: false }),
            s,
            None,
            RequestAction::AskBlock,
        )
    } else if committee_refused(detail) {
        (
            run.to(PhaseView::NeedsSync { item, detail }),
            s,
            None,
            RequestAction::SyncCommittee,
        )
    } else {
        after_refusal(run, s, item, hinted(detail))
    }
}

/// The account of a withdraw once the chain has its request.
pub open spec fn requested_item(
    item: PendingEvmWithdraw,
    at_ms: u64,
    by_this_run: bool,
    block: Option<u64>,
) -> PendingEvmWithdraw {
    if by_this_run && block is None {
        PendingEvmWithdraw { requested: false, requested_at_ms: None, ..item }
    } else {
        PendingEvmWithdraw {
            requested: true,
            requested_at_ms: Some(at_ms),
            requested_block: if block is Some {
                block
            } else {
                item.requested_block
            },
            ..item
        }
    }
}

/// What follows when the number of the latest block was asked for.
pub open spec fn after_block(
    run: RunView,
    s: StateView,
    item: PendingEvmWithdraw,
    at_ms: u64,
    by_this_run: bool,
    block: Option<u64>,
) -> (RunView, StateView, RequestAction) {
    let now = requested_item(item, at_ms, by_this_run, block);
    let state = with_item(s, run.nonce, now);
    if by_this_run && block is None {
        (run.to(PhaseView::Ready), state, RequestAction::Retry(0))
    } else {
        (
            run.to(PhaseView::Closed),
            state,
            RequestAction::Finish(now.requested_block is Some),
        )
    }
}

/// Whether a withdraw is requested and the block of the request known.
pub open spec fn awaits_finalization(s: StateView, nonce: u64) -> bool {
    s.evm.contains_key(nonce) && s.evm[nonce].requested && s.evm[nonce].requested_block is Some
}

/// Whether an attempt is to be made for a withdraw.
pub open spec fn wants_attempt(run: RunView, s: StateView) -> bool {
    &&& run.attempt < EVM_REQUEST_ATTEMPTS
    &&& s.evm.contains_key(run.nonce)
    &&& !s.evm[run.nonce].closed()
    &&& !awaits_finalization(s, run.nonce)
}

/// Whether requests can be made for a route at all.
pub fn can_request(route: &BridgeRoute, cfg: Option<&BridgeConfig>) -> (r: bool)
    ensures
        r == (route@.foreign is Evm && cfg is Some),
{
    match &route.foreign {
        ForeignLeg::Evm { .. } => cfg.is_some(),
        ForeignLeg::Lightpool { .. } => false,
    }
}

impl RequestRun {
    /// A run for the withdraw `nonce` of a route.
    pub fn open(route_id: &str, route: &BridgeRoute, cfg: &BridgeConfig, nonce: u64) -> (r: Result<
        Self,
        BridgeError,
    >)
        ensures
            match inbound_lane(cfg.lanes@, route@) {
                Err(e) => r == Err::<RequestRun, BridgeError>(e),
                Ok(lane) => r matches Ok(run) && run@ == (RunView {
                    route_id: route_id@,
                    token: evm_token_text(route@, Some(cfg.lanes@)),
                    foreign_token: lane.foreign_token@,
                    nonce,
                    attempt: 0,
                    phase: PhaseView::Ready,
                }) && run@.wf(),
            },
    {
        let lane = match inbound_lane_for_route(cfg, route) {
            Ok(lane) => lane,
            Err(e) => {
                return Err(e);
            },
        };
        Ok(
            RequestRun {
                route_id: route_id.to_owned(),
                token: evm_token_label(route, Some(cfg)),
                foreign_token: lane.foreign_token,
                nonce,
                attempt: 0,
                phase: RequestPhase::Ready,
            },
        )
    }

    /// What is reported of the withdraw of the run.
    fn draft(
        &self,
        kind: BridgeEventKind,
        level: BridgeEventLevel,
        amount: u64,
        detail: String,
    ) -> (r: EventDraft)
        ensures
            r@ == self@.event(kind, level, amount, detail@),
    {
        EventDraft {
            route_id: self.route_id.clone(),
            token: self.token.clone(),
            kind,
            level,
            message_id: Some(self.nonce),
            amount: Some(amount),
            detail,
        }
    }

    /// Begins an attempt: names and signs the withdraw for the committee of the
    /// moment and asks for the request to be sent, unless the attempts are used
    /// up or nothing is left to request.
    pub fn begin(
        &mut self,
        state: &mut RouteState,
        committee: &Committee,
        now_ms: u64,
        secret: &SecretKey,
    ) -> (r: Result<RequestAction, BridgeError>)
        requires
            old(self)@.phase is Ready,
            old(self)@.wf(),
            old(state)@.wf(),
        ensures
            final(self)@.wf(),
            final(state)@.wf(),
            !wants_attempt(old(self)@, old(state)@) ==> {
                &&& r == Ok::<RequestAction, BridgeError>(
                    RequestAction::Finish(
                        old(self)@.attempt < EVM_REQUEST_ATTEMPTS && awaits_finalization(
                            old(state)@,
                            old(self)@.nonce,
                        ) && !old(state)@.evm[old(self)@.nonce].closed(),
                    ),
                )
                &&& final(self)@ == old(self)@.to(PhaseView::Closed)
                &&& final(state)@ == old(state)@
            },
            wants_attempt(old(self)@, old(state)@) ==> match r {
                Ok(RequestAction::Cast(request)) => {
                    let nonce = old(self)@.nonce;
                    let item = final(state)@.evm[nonce];
                    &&& item == (PendingEvmWithdraw {
                        id: item.id,
                        signature: item.signature,
                        ..old(state)@.evm[nonce]
                    })
                    &&& bound_to(
                        item,
                        old(self)@.foreign_token,
                        committee.epoch_number(),
                        secret.bytes@,
                    )
                    &&& final(state)@ == with_item(old(state)@, nonce, item)
                    &&& final(self)@ == (RunView {
                        attempt: (old(self)@.attempt + 1) as u32,
                        phase: PhaseView::Casting { item, at_ms: now_ms },
                        ..old(self)@
                    })
                    &&& request.id == item.id
                    &&& request.record == item.record
                    &&& request.foreign_token@ == old(self)@.foreign_token
                    &&& request.epoch == committee.epoch_number()
                    &&& request.signature == item.signature
                    &&& request.committee.epoch == committee.epoch_number()
                    &&& request.committee.holds(committee.members@, true)
                },
                Ok(_) => false,
                Err(BridgeError::Sign(e)) => {
                    &&& not_signable(
                        old(state)@.evm[old(self)@.nonce].record,
                        old(self)@.foreign_token,
                        committee.epoch_number(),
                        secret.bytes@,
                        e,
                    )
                    &&& final(state)@ == old(state)@
                    &&& final(self)@ == old(self)@.to(PhaseView::Closed)
                },
                Err(_) => false,
            },
    {
        if self.attempt >= EVM_REQUEST_ATTEMPTS {
            self.phase = RequestPhase::Closed;
            return Ok(RequestAction::Finish(false));
        }
        let mut item = match state.pending_evm_withdraws.get(&self.nonce) {
            Some(item) => *item,
            None => {
                self.phase = RequestPhase::Closed;
                return Ok(RequestAction::Finish(false));
            },
        };
        if item.failed || item.finalized {
            self.phase = RequestPhase::Closed;
            return Ok(RequestAction::Finish(false));
        }
        if item.requested && item.requested_block.is_some() {
            self.phase = RequestPhase::Closed;
            return Ok(RequestAction::Finish(true));
        }
        let epoch: u64 = committee.message_epoch();
        let evm_committee = if committee.size() == 0 {
            let empty = EvmCommittee::empty(0);
            assert(empty.holds(committee.members@, true)) by {
                assert forall|addr: Seq<u8>| #[trigger]
                    crate::evm::stakes_at(empty.validators@, empty.stakes@, addr)
                        == crate::evm::stakes_of(committee.members@, true, addr) by {}
            }
            empty
        } else {
            EvmCommittee::from_validator_committee(committee)
        };
        let (id, signature) = match bind_withdraw(
            &item.record,
            self.foreign_token,
            epoch,
            secret,
        ) {
            Ok(bound) => bound,
            Err(e) => {
                self.phase = RequestPhase::Closed;
                return Err(BridgeError::Sign(e));
            },
        };
        item.id = id;
        item.signature = signature;
        state.pending_evm_withdraws.insert(self.nonce, item);
        self.attempt = self.attempt + 1;
        self.phase = RequestPhase::Casting { item, at_ms: now_ms };
        Ok(
            RequestAction::Cast(
                CastRequest {
                    id,
                    record: item.record,
                    foreign_token: self.foreign_token,
                    epoch,
                    committee: evm_committee,
                    signature,
                },
            ),
        )
    }

    /// Carries on after a request that failed with `detail`, hint included.
    fn refuse(&mut self, state: &mut RouteState, item: PendingEvmWithdraw, detail: String) -> (r:
        RequestReply)
        requires
            old(self)@.wf(),
            old(self)@.item() == Some(item),
            old(state)@.wf(),
        ensures
            final(self)@.wf(),
            final(state)@.wf(),
            (final(self)@, final(state)@, draft_of(r.event), r.action) == after_refusal(
                old(self)@,
                old(state)@,
                item,
                detail@,
            ),
    {
        if evm_withdraw_permanent_failure(detail.as_str()) {
            let amount: u64 = item.record.amount;
            let mut failed = item;
            failed.failed = true;
            state.pending_evm_withdraws.insert(self.nonce, failed);
            let event = self.draft(
                BridgeEventKind::EvmRequestFailed,
                BridgeEventLevel::Warn,
                amount,
                detail,
            );
            self.phase = RequestPhase::Closed;
            return RequestReply { event: Some(event), action: RequestAction::Finish(false) };
        }
        if self.attempt == EVM_REQUEST_ATTEMPTS {
            let event = self.draft(
                BridgeEventKind::EvmRequestFailed,
                BridgeEventLevel::Warn,
                item.record.amount,
                detail,
            );
            self.phase = RequestPhase::Closed;
            return RequestReply { event: Some(event), action: RequestAction::Finish(false) };
        }
        self.phase = RequestPhase::Ready;
        RequestReply { event: None, action: RequestAction::Retry(1) }
    }

    /// Carries on after the request was sent.
    pub fn on_cast_ok(&mut self) -> (r: RequestReply)
        requires
            old(self)@.phase is Casting,
            old(self)@.wf(),
        ensures
            final(self)@.wf(),
            final(self)@ == old(self)@.to(
                PhaseView::NeedsBlock {
                    item: old(self)@.phase->Casting_item,
                    at_ms: old(self)@.phase->Casting_at_ms,
                    by_this_run: true,
                },
            ),
            draft_of(r.event) == Some(
                old(self)@.event(
                    BridgeEventKind::EvmRequestSent,
                    BridgeEventLevel::Info,
                    old(self)@.phase->Casting_item.record.amount,
                    "EVM requestWithdraw sent nonce="@ + decimal(old(self)@.nonce as nat),
                ),
            ),
            r.action == RequestAction::AskBlock,
    {
        let (item, at_ms) = match &self.phase {
            RequestPhase::Casting { item, at_ms } => (*item, *at_ms),
            _ => {
                return RequestReply { event: None, action: RequestAction::Finish(false) };
            },
        };
        let detail = cat(
            "EVM requestWithdraw sent nonce=",
            decimal_text(self.nonce).as_str(),
        );
        let event = self.draft(
            BridgeEventKind::EvmRequestSent,
            BridgeEventLevel::Info,
            item.record.amount,
            detail,
        );
        self.phase = RequestPhase::NeedsBlock { item, at_ms, by_this_run: true };
        RequestReply { event: Some(event), action: RequestAction::AskBlock }
    }

    /// Carries on after the request failed.
    pub fn on_cast_err(&mut self, state: &mut RouteState, detail: String) -> (r: RequestReply)
        requires
            old(self)@.phase is Casting,
            old(self)@.wf(),
            old(state)@.wf(),
        ensures
            final(self)@.wf(),
            final(state)@.wf(),
            (final(self)@, final(state)@, draft_of(r.event), r.action) == after_cast_error(
                old(self)@,
                old(state)@,
                old(self)@.phase->Casting_item,
                old(self)@.phase->Casting_at_ms,
                detail@,
            ),
    {
        let (item, at_ms) = match &self.phase {
            RequestPhase::Casting { item, at_ms } => (*item, *at_ms),
            _ => {
                return RequestReply { event: None, action: RequestAction::Finish(false) };
            },
        };
        if already_processed_detail(detail.as_str()) {
            self.phase = RequestPhase::NeedsBlock { item, at_ms, by_this_run: false };
            return RequestReply { event: None, action: RequestAction::AskBlock };
        }
        if invalid_committee_error(detail.as_str()) {
            self.phase = RequestPhase::NeedsSync { item, detail };
            return RequestReply { event: None, action: RequestAction::SyncCommittee };
        }
        self.refuse(state, item, with_hint(detail))
    }

    /// Carries on with the number of the latest block, or without it.
    pub fn on_block(&mut self, state: &mut RouteState, block: Option<u64>) -> (r: RequestAction)
        requires
            old(self)@.phase is NeedsBlock,
            old(self)@.wf(),
            old(state)@.wf(),
        ensures
            final(self)@.wf(),
            final(state)@.wf(),
            (final(self)@, final(state)@, r) == after_block(
                old(self)@,
                old(state)@,
                old(self)@.phase->NeedsBlock_item,
                old(self)@.phase->NeedsBlock_at_ms,
                old(self)@.phase->NeedsBlock_by_this_run,
                block,
            ),
    {
        let (item, at_ms, by_this_run) = match &self.phase {
            RequestPhase::NeedsBlock { item, at_ms, by_this_run } => (*item, *at_ms, *by_this_run),
            _ => {
                return RequestAction::Finish(false);
            },
        };
        let mut now = item;
        if by_this_run && block.is_none() {
            now.requested = false;
            now.requested_at_ms = None;
            state.pending_evm_withdraws.insert(self.nonce, now);
            self.phase = RequestPhase::Ready;
            return RequestAction::Retry(0);
        }
        now.requested = true;
        now.requested_at_ms = Some(at_ms);
        if block.is_some() {
            now.requested_block = block;
        }
        state.pending_evm_withdraws.insert(self.nonce, now);
        self.phase = RequestPhase::Closed;
        RequestAction::Finish(now.requested_block.is_some())
    }

    /// Carries on after the committee was brought up to date, or why it was not.
    pub fn on_sync(&mut self, state: &mut RouteState, error: Option<String>) -> (r: RequestReply)
        requires
            old(self)@.phase is NeedsSync,
            old(self)@.wf(),
            old(state)@.wf(),
        ensures
            final(self)@.wf(),
            final(state)@.wf(),
            (final(self)@, final(state)@, draft_of(r.event), r.action) == (match error {
                None => (
                    old(self)@.to(PhaseView::Ready),
                    old(state)@,
                    None,
                    RequestAction::Retry(1),
                ),
                Some(e) => after_refusal(
                    old(self)@,
                    old(state)@,
                    old(self)@.phase->NeedsSync_item,
                    hinted(old(self)@.phase->NeedsSync_detail + "; committee sync: "@ + e@),
                ),
            }),
    {
        let (item, detail) = match &self.phase {
            RequestPhase::NeedsSync { item, detail } => (*item, detail.clone()),
            _ => {
                return RequestReply { event: None, action: RequestAction::Finish(false) };
            },
        };
        match error {
            None => {
                self.phase = RequestPhase::Ready;
                RequestReply { event: None, action: RequestAction::Retry(1) }
            },
            Some(e) => {
                let full = cat3(detail.as_str(), "; committee sync: ", e.as_str());
                self.refuse(state, item, with_hint(full))
            },
        }
    }
}

/// A run that ends with success leaves the withdraw requested, with the block
/// of the request known.
pub proof fn law_success_means_requested(
    run: RunView,
    s: StateView,
    item: PendingEvmWithdraw,
    at_ms: u64,
    by_this_run: bool,
    block: Option<u64>,
)
    requires
        after_block(run, s, item, at_ms, by_this_run, block).2 == RequestAction::Finish(true),
    ensures
        awaits_finalization(
            after_block(run, s, item, at_ms, by_this_run, block).1,
            run.nonce,
        ),
{
}

/// A withdraw that was refused for good, was finalized or awaits finalization
/// is not requested again, by this run or another.
pub proof fn law_no_request_twice(run: RunView, s: StateView)
    requires
        s.evm.contains_key(run.nonce),
        s.evm[run.nonce].closed() || awaits_finalization(s, run.nonce),
    ensures
        !wants_attempt(run, s),
{
}

/// A refusal for good closes the withdraw.
pub proof fn law_permanent_refusal_closes(
    run: RunView,
    s: StateView,
    item: PendingEvmWithdraw,
    detail: Seq<char>,
)
    requires
        permanent_text(detail),
    ensures
        after_refusal(run, s, item, detail).1.evm[run.nonce].closed(),
        after_refusal(run, s, item, detail).3 == RequestAction::Finish(false),
{
}

/// No error leads to more attempts than the run has.
pub proof fn law_refusals_end_the_run(
    run: RunView,
    s: StateView,
    item: PendingEvmWithdraw,
    detail: Seq<char>,
)
    requires
        run.attempt == EVM_REQUEST_ATTEMPTS,
    ensures
        after_refusal(run, s, item, detail).0.phase is Closed,
        after_refusal(run, s, item, detail).3 == RequestAction::Finish(false),
        !wants_attempt(run.to(PhaseView::Ready), s),
{
}

} // verus!
