//! The committee of the EVM bridge. When the epoch of the local chain advances,
//! the bridge is told of the new committee, and the change is finalized once it
//! can no longer be disputed.
//!
//! A run is driven from outside: each method takes the result of what was asked
//! for and says what to do next.
use vstd::prelude::*;
use vstd::string::*;
use crate::chain::Committee;
use crate::codec::ABI_LIMIT;
use crate::config::SecretKey;
use crate::evm::{
    already_processed_detail, block_delay, cast_request_committee_update, committee_fits,
    committee_update_hash, committee_update_len, dispute_block_delay, eth_sign_digest,
    in_dispute_text, is_eth_signature, processed_text, request_committee_update_args,
    request_committee_update_digest, secret_key_hex, stakes_at, stakes_of, still_in_dispute_error,
    text_of, EthSignature, EvmCommittee, EvmDisputeParams,
};
use crate::evm_finalize::{known_params, params_or_default, ready_at, ready_block, ready_time};
use crate::route_config::{BridgeRoute, ForeignLeg};
use crate::text::{cat, cat3, decimal, decimal_text, texts};
use crate::util::{address_text, BridgeError};

verus! {

/// The time between two looks at a change that waits, in milliseconds.
pub const EVM_COMMITTEE_SYNC_POLL_MS: u64 = 500;

/// How often a change that waits is looked at.
pub const EVM_COMMITTEE_SYNC_ATTEMPTS: u32 = 40;

/// When a change was requested, and how long it can be disputed.
#[derive(Clone, Copy, Debug)]
pub struct UpdateWait {
    pub on_chain_epoch: u64,
    pub requested_block: u64,
    pub requested_at_ms: u64,
    pub period_seconds: u64,
    pub delay: u64,
    /// How often the change has been looked at.
    pub attempt: u32,
}

/// Where a run stands.
#[derive(Clone, Debug)]
pub enum SyncPhase {
    /// The epoch of the bridge is asked for.
    FirstLook,
    /// It is asked for again, with no other run under way.
    SecondLook,
    /// The change was handed to the EVM chain.
    Requesting { on_chain_epoch: u64 },
    /// The change stands on the chain; block, time and dispute parameters are
    /// asked for.
    Requested { on_chain_epoch: u64 },
    /// The change waits.
    Waiting { wait: UpdateWait },
    /// The finalization was handed to the EVM chain.
    Finalizing { wait: UpdateWait },
    /// The epoch of the bridge is asked for after the finalization, or after
    /// the error that it met.
    Checking { wait: UpdateWait, failure: Option<String> },
    /// The run has ended.
    Closed,
}

/// A run to bring the committee of one EVM bridge up to date.
#[derive(Clone, Debug)]
pub struct CommitteeSync {
    pub next: EvmCommittee,
    pub confirmations: u64,
    pub phase: SyncPhase,
}

/// What is to be done next.
#[derive(Clone, Debug)]
pub enum SyncAction {
    /// Nothing: the run has ended, with this error if any.
    Finish(Option<String>),
    /// Ask for the epoch of the bridge.
    AskEpoch,
    /// Wait until no other run is under way, then ask for the epoch.
    LockAndAskEpoch,
    /// Request the change from the committee `active`.
    Request { active: EvmCommittee },
    /// Ask for block, time and dispute parameters.
    AskDispute,
    /// Ask for block and time.
    Look,
    /// Wait for so many milliseconds.
    Sleep(u64),
    /// Finalize the change.
    Finalize,
}

/// A [`SyncPhase`] in mathematical terms.
#[verifier::ext_equal]
pub enum SyncPhaseView {
    FirstLook,
    SecondLook,
    Requesting { on_chain_epoch: u64 },
    Requested { on_chain_epoch: u64 },
    Waiting { wait: UpdateWait },
    Finalizing { wait: UpdateWait },
    Checking { wait: UpdateWait, failure: Option<Seq<char>> },
    Closed,
}

impl View for SyncPhase {
    type V = SyncPhaseView;

    open spec fn view(&self) -> SyncPhaseView {
        match *self {
            SyncPhase::FirstLook => SyncPhaseView::FirstLook,
            SyncPhase::SecondLook => SyncPhaseView::SecondLook,
            SyncPhase::Requesting { on_chain_epoch } => SyncPhaseView::Requesting {
                on_chain_epoch,
            },
            SyncPhase::Requested { on_chain_epoch } => SyncPhaseView::Requested { on_chain_epoch },
            SyncPhase::Waiting { wait } => SyncPhaseView::Waiting { wait },
            SyncPhase::Finalizing { wait } => SyncPhaseView::Finalizing { wait },
            SyncPhase::Checking { wait, failure } => SyncPhaseView::Checking {
                wait,
                failure: text_of(failure),
            },
            SyncPhase::Closed => SyncPhaseView::Closed,
        }
    }
}

/// A [`SyncAction`] in mathematical terms. The committee that a request starts
/// from is given by its epoch: its members are those of the new one.
#[verifier::ext_equal]
pub enum SyncActionView {
    Finish(Option<Seq<char>>),
    AskEpoch,
    LockAndAskEpoch,
    Request { active_epoch: u64 },
    AskDispute,
    Look,
    Sleep(u64),
    Finalize,
}

impl View for SyncAction {
    type V = SyncActionView;

    open spec fn view(&self) -> SyncActionView {
        match *self {
            SyncAction::Finish(error) => SyncActionView::Finish(text_of(error)),
            SyncAction::AskEpoch => SyncActionView::AskEpoch,
            SyncAction::LockAndAskEpoch => SyncActionView::LockAndAskEpoch,
            SyncAction::Request { active } => SyncActionView::Request {
                active_epoch: active.epoch,
            },
            SyncAction::AskDispute => SyncActionView::AskDispute,
            SyncAction::Look => SyncActionView::Look,
            SyncAction::Sleep(ms) => SyncActionView::Sleep(ms),
            SyncAction::Finalize => SyncActionView::Finalize,
        }
    }
}

/// The error of a change that was not finalized in time.
pub open spec fn timeout_text(epoch: u64) -> Seq<char> {
    "timed out waiting to finalize EVM committee update to epoch "@ + decimal(epoch as nat)
}

/// The error of a bridge that has not taken up the committee.
pub open spec fn behind_text(synced: u64, next: u64) -> Seq<char> {
    "EVM Bridge epoch "@ + decimal(synced as nat) + " still behind LightPool epoch "@ + decimal(
        next as nat,
    )
}

/// The view of an epoch that was read, or of why it was not.
pub open spec fn epoch_view(epoch: Result<u64, String>) -> Result<u64, Seq<char>> {
    match epoch {
        Ok(e) => Ok(e),
        Err(s) => Err(s@),
    }
}

/// What follows when the epoch of the bridge was asked for. On the first look
/// an error ends the run without one.
pub open spec fn after_epoch(
    phase: SyncPhaseView,
    next_epoch: u64,
    epoch: Result<u64, Seq<char>>,
) -> (SyncPhaseView, SyncActionView) {
    let closed = SyncPhaseView::Closed;
    match phase {
        SyncPhaseView::FirstLook => match epoch {
            Err(_) => (closed, SyncActionView::Finish(None)),
            Ok(e) => if next_epoch <= e {
                (closed, SyncActionView::Finish(None))
            } else {
                (SyncPhaseView::SecondLook, SyncActionView::LockAndAskEpoch)
            },
        },
        SyncPhaseView::SecondLook => match epoch {
            Err(error) => (closed, SyncActionView::Finish(Some(error))),
            Ok(e) => if next_epoch <= e {
                (closed, SyncActionView::Finish(None))
            } else {
                (
                    SyncPhaseView::Requesting { on_chain_epoch: e },
                    SyncActionView::Request { active_epoch: e },
                )
            },
        },
        SyncPhaseView::Checking { wait, failure } => match failure {
            None => match epoch {
                Err(error) => (closed, SyncActionView::Finish(Some(error))),
                Ok(e) => if e < next_epoch {
                    (closed, SyncActionView::Finish(Some(behind_text(e, next_epoch))))
                } else {
                    (closed, SyncActionView::Finish(None))
                },
            },
            Some(detail) => {
                let synced = match epoch {
                    Ok(e) => e,
                    Err(_) => wait.on_chain_epoch,
                };
                if synced >= next_epoch {
                    (closed, SyncActionView::Finish(None))
                } else {
                    (
                        closed,
                        SyncActionView::Finish(
                            Some("finalizeCommitteeUpdate failed: "@ + detail),
                        ),
                    )
                }
            },
        },
        _ => (phase, SyncActionView::Finish(None)),
    }
}

/// Whether a change can be finalized when the latest block and the time are
/// these.
pub open spec fn change_due(wait: UpdateWait, now_ms: u64, latest: u64) -> bool {
    latest >= ready_block(wait.requested_block, wait.delay) && now_ms >= ready_time(
        wait.requested_at_ms,
        wait.period_seconds,
    )
}

/// A block that may be unknown; the first one where it is.
pub open spec fn block_or_first(block: Option<u64>) -> u64 {
    match block {
        Some(b) => b,
        None => 0,
    }
}

impl CommitteeSync {
    /// How often the change has been looked at.
    pub open spec fn attempts(self) -> int {
        match self.phase@ {
            SyncPhaseView::Waiting { wait } => wait.attempt as int,
            SyncPhaseView::Finalizing { wait } => wait.attempt as int,
            SyncPhaseView::Checking { wait, .. } => wait.attempt as int,
            _ => 0,
        }
    }

    /// The epoch that the change starts from, once one is under way.
    pub open spec fn starting_epoch(self) -> Option<u64> {
        match self.phase@ {
            SyncPhaseView::Requesting { on_chain_epoch } => Some(on_chain_epoch),
            SyncPhaseView::Requested { on_chain_epoch } => Some(on_chain_epoch),
            SyncPhaseView::Waiting { wait } => Some(wait.on_chain_epoch),
            SyncPhaseView::Finalizing { wait } => Some(wait.on_chain_epoch),
            SyncPhaseView::Checking { wait, .. } => Some(wait.on_chain_epoch),
            _ => None,
        }
    }

    /// Whether the looks at the change are within bounds, and the change starts
    /// from an epoch that lies behind.
    pub open spec fn wf(self) -> bool {
        &&& self.attempts() <= EVM_COMMITTEE_SYNC_ATTEMPTS
        &&& self.starting_epoch() matches Some(e) ==> e < self.next.epoch
    }

    /// Whether only the phase has changed.
    pub open spec fn same_but_phase(self, other: CommitteeSync) -> bool {
        self.next == other.next && self.confirmations == other.confirmations
    }

    /// A run for the EVM bridge of a route; none where there is nothing to tell
    /// it: the route leads elsewhere, or no validator has stake.
    pub fn open(route: &BridgeRoute, committee: &Committee) -> (r: Option<Self>)
        ensures
            match r {
                Some(run) => {
                    &&& route@.foreign is Evm
                    &&& run.confirmations == route@.foreign->Evm_confirmations
                    &&& run.next.epoch == committee.epoch as u64
                    &&& run.next.holds(committee.members@, true)
                    &&& run.next.validators@.len() > 0
                    &&& run.phase@ == SyncPhaseView::FirstLook
                    &&& run.wf()
                },
                None => !(route@.foreign is Evm) || forall|addr: Seq<u8>| #[trigger]
                    stakes_of(committee.members@, true, addr).len() == 0,
            },
    {
        match &route.foreign {
            ForeignLeg::Lightpool { .. } => None,
            ForeignLeg::Evm { confirmations, .. } => {
                if committee.size() == 0 {
                    return None;
                }
                let next = EvmCommittee::from_validator_committee(committee);
                if next.validators.is_empty() {
                    assert forall|addr: Seq<u8>| #[trigger]
                        stakes_of(committee.members@, true, addr).len() == 0 by {
                        assert(stakes_at(next.validators@, next.stakes@, addr).len() == 0);
                    }
                    return None;
                }
                Some(
                    CommitteeSync {
                        next,
                        confirmations: *confirmations,
                        phase: SyncPhase::FirstLook,
                    },
                )
            },
        }
    }

    /// Carries on with the epoch of the bridge, or with why it could not be
    /// read.
    pub fn on_epoch(&mut self, epoch: Result<u64, String>) -> (r: SyncAction)
        requires
            old(self).phase@ is FirstLook || old(self).phase@ is SecondLook
                || old(self).phase@ is Checking,
            old(self).wf(),
        ensures
            final(self).same_but_phase(*old(self)),
            final(self).wf(),
            (final(self).phase@, r@) == after_epoch(
                old(self).phase@,
                old(self).next.epoch,
                epoch_view(epoch),
            ),
            r matches SyncAction::Request { active } ==> active.validators@
                == old(self).next.validators@ && active.stakes@ == old(self).next.stakes@,
            r matches SyncAction::Request { active } ==> (epoch matches Ok(e) && e == active.epoch
                && e < old(self).next.epoch),
    {
        let next_epoch: u64 = self.next.epoch;
        match &self.phase {
            SyncPhase::FirstLook => match epoch {
                Err(_) => {
                    self.phase = SyncPhase::Closed;
                    SyncAction::Finish(None)
                },
                Ok(e) => {
                    if next_epoch <= e {
                        self.phase = SyncPhase::Closed;
                        return SyncAction::Finish(None);
                    }
                    self.phase = SyncPhase::SecondLook;
                    SyncAction::LockAndAskEpoch
                },
            },
            SyncPhase::SecondLook => match epoch {
                Err(error) => {
                    self.phase = SyncPhase::Closed;
                    SyncAction::Finish(Some(error))
                },
                Ok(e) => {
                    if next_epoch <= e {
                        self.phase = SyncPhase::Closed;
                        return SyncAction::Finish(None);
                    }
                    let active = self.next.with_epoch(e);
                    self.phase = SyncPhase::Requesting { on_chain_epoch: e };
                    SyncAction::Request { active }
                },
            },
            SyncPhase::Checking { wait, failure } => {
                let error = match failure {
                    None => match epoch {
                        Err(error) => Some(error),
                        Ok(e) => if e < next_epoch {
                            let head = cat3(
                                "EVM Bridge epoch ",
                                decimal_text(e).as_str(),
                                " still behind LightPool epoch ",
                            );
                            Some(cat(head.as_str(), decimal_text(next_epoch).as_str()))
                        } else {
                            None
                        },
                    },
                    Some(detail) => {
                        let synced: u64 = match epoch {
                            Ok(e) => e,
                            Err(_) => wait.on_chain_epoch,
                        };
                        if synced >= next_epoch {
                            None
                        } else {
                            Some(cat("finalizeCommitteeUpdate failed: ", detail.as_str()))
                        }
                    },
                };
                self.phase = SyncPhase::Closed;
                SyncAction::Finish(error)
            },
            _ => SyncAction::Finish(None),
        }
    }

    /// The arguments of `cast` that request the change from the committee
    /// `active`, signed with the secret of this validator; none for a committee
    /// that cannot be written down.
    pub fn request_args(
        &self,
        active: &EvmCommittee,
        rpc: &str,
        bridge: &str,
        secret: &SecretKey,
    ) -> (r: Result<Vec<String>, BridgeError>)
        ensures
            committee_update_len(self.next) > ABI_LIMIT ==> r == Err::<Vec<String>, BridgeError>(
                BridgeError::CommitteeTooLarge,
            ),
            committee_update_len(self.next) <= ABI_LIMIT ==> match r {
                Ok(args) => exists|signature: EthSignature| #[trigger]
                    is_eth_signature(
                        Ok(signature),
                        committee_update_hash(self.next),
                        secret.bytes@,
                    ) && texts(args@) == request_committee_update_args(
                        rpc@,
                        address_text(secret.bytes@),
                        bridge@,
                        self.next,
                        *active,
                        seq![signature],
                    ),
                Err(BridgeError::Sign(e)) => is_eth_signature(
                    Err(e),
                    committee_update_hash(self.next),
                    secret.bytes@,
                ),
                Err(_) => false,
            },
    {
        if !committee_fits(&self.next) {
            return Err(BridgeError::CommitteeTooLarge);
        }
        let key = match secret_key_hex(secret) {
            Ok(key) => key,
            Err(e) => {
                return Err(e);
            },
        };
        let digest = request_committee_update_digest(&self.next);
        let signature = match eth_sign_digest(digest, secret) {
            Ok(signature) => signature,
            Err(e) => {
                return Err(BridgeError::Sign(e));
            },
        };
        let mut signatures: Vec<EthSignature> = Vec::new();
        signatures.push(signature);
        assert(signatures@ =~= seq![signature]);
        Ok(
            cast_request_committee_update(
                rpc,
                key.as_str(),
                bridge,
                &self.next,
                active,
                &signatures,
            ),
        )
    }

    /// Carries on after the change was requested. One that the chain has
    /// already is as good as requested.
    pub fn on_request(&mut self, error: Option<String>) -> (r: SyncAction)
        requires
            old(self).phase@ is Requesting,
            old(self).wf(),
        ensures
            final(self).same_but_phase(*old(self)),
            final(self).wf(),
            (final(self).phase@, r@) == (match text_of(error) {
                Some(detail) => if processed_text(detail) {
                    (
                        SyncPhaseView::Requested {
                            on_chain_epoch: old(self).phase@->Requesting_on_chain_epoch,
                        },
                        SyncActionView::AskDispute,
                    )
                } else {
                    (SyncPhaseView::Closed, SyncActionView::Finish(Some(detail)))
                },
                None => (
                    SyncPhaseView::Requested {
                        on_chain_epoch: old(self).phase@->Requesting_on_chain_epoch,
                    },
                    SyncActionView::AskDispute,
                ),
            }),
    {
        let on_chain_epoch: u64 = match &self.phase {
            SyncPhase::Requesting { on_chain_epoch } => *on_chain_epoch,
            _ => {
                return SyncAction::Finish(None);
            },
        };
        if let Some(detail) = error {
            if !already_processed_detail(detail.as_str()) {
                self.phase = SyncPhase::Closed;
                return SyncAction::Finish(Some(detail));
            }
        }
        self.phase = SyncPhase::Requested { on_chain_epoch };
        SyncAction::AskDispute
    }

    /// Begins the wait: with the latest block, the time and the dispute
    /// parameters. Those that could not be read are those of a local chain, and
    /// such a block counts as the first one.
    pub fn on_dispute(
        &mut self,
        block: Option<u64>,
        now_ms: u64,
        params: Option<EvmDisputeParams>,
    ) -> (r: SyncAction)
        requires
            old(self).phase@ is Requested,
            old(self).wf(),
        ensures
            final(self).same_but_phase(*old(self)),
            final(self).wf(),
            final(self).phase@ matches SyncPhaseView::Waiting { wait } && wait == (UpdateWait {
                on_chain_epoch: old(self).phase@->Requested_on_chain_epoch,
                requested_block: block_or_first(block),
                requested_at_ms: now_ms,
                period_seconds: known_params(params).period_seconds,
                delay: wait.delay,
                attempt: 1,
            }) && wait.delay == block_delay(known_params(params), old(self).confirmations),
            r@ == SyncActionView::Look,
    {
        let on_chain_epoch: u64 = match &self.phase {
            SyncPhase::Requested { on_chain_epoch } => *on_chain_epoch,
            _ => {
                return SyncAction::Finish(None);
            },
        };
        let dispute = params_or_default(params);
        let requested_block: u64 = match block {
            Some(b) => b,
            None => 0,
        };
        let delay: u64 = dispute_block_delay(dispute, self.confirmations);
        self.phase = SyncPhase::Waiting {
            wait: UpdateWait {
                on_chain_epoch,
                requested_block,
                requested_at_ms: now_ms,
                period_seconds: dispute.period_seconds,
                delay,
                attempt: 1,
            },
        };
        SyncAction::Look
    }

    /// Carries on with the time and the latest block: the change is finalized
    /// if it can no longer be disputed. A block that could not be read counts
    /// as the first one.
    pub fn on_look(&mut self, now_ms: u64, latest: Option<u64>) -> (r: SyncAction)
        requires
            old(self).phase@ is Waiting,
            old(self).wf(),
        ensures
            final(self).same_but_phase(*old(self)),
            final(self).wf(),
            ({
                let wait = old(self).phase@->Waiting_wait;
                if change_due(wait, now_ms, block_or_first(latest)) {
                    final(self).phase@ == (SyncPhaseView::Finalizing { wait }) && r@
                        == SyncActionView::Finalize
                } else {
                    final(self).phase@ == old(self).phase@ && r@ == SyncActionView::Sleep(
                        EVM_COMMITTEE_SYNC_POLL_MS,
                    )
                }
            }),
    {
        let wait = match &self.phase {
            SyncPhase::Waiting { wait } => *wait,
            _ => {
                return SyncAction::Finish(None);
            },
        };
        let latest: u64 = match latest {
            Some(l) => l,
            None => 0,
        };
        if latest >= wait.requested_block.saturating_add(wait.delay) && now_ms >= ready_at(
            wait.requested_at_ms,
            wait.period_seconds,
        ) {
            self.phase = SyncPhase::Finalizing { wait };
            return SyncAction::Finalize;
        }
        SyncAction::Sleep(EVM_COMMITTEE_SYNC_POLL_MS)
    }

    /// Carries on after a wait: the change is looked at again, as long as there
    /// are looks left.
    pub fn on_slept(&mut self) -> (r: SyncAction)
        requires
            old(self).phase@ is Waiting,
            old(self).wf(),
        ensures
            final(self).same_but_phase(*old(self)),
            final(self).wf(),
            ({
                let wait = old(self).phase@->Waiting_wait;
                if wait.attempt == EVM_COMMITTEE_SYNC_ATTEMPTS {
                    final(self).phase@ == SyncPhaseView::Closed && r@ == SyncActionView::Finish(
                        Some(timeout_text(old(self).next.epoch)),
                    )
                } else {
                    final(self).phase@ == (SyncPhaseView::Waiting {
                        wait: UpdateWait { attempt: (wait.attempt + 1) as u32, ..wait },
                    }) && r@ == SyncActionView::Look
                }
            }),
    {
        let mut wait = match &self.phase {
            SyncPhase::Waiting { wait } => *wait,
            _ => {
                return SyncAction::Finish(None);
            },
        };
        if wait.attempt == EVM_COMMITTEE_SYNC_ATTEMPTS {
            self.phase = SyncPhase::Closed;
            return SyncAction::Finish(
                Some(
                    cat(
                        "timed out waiting to finalize EVM committee update to epoch ",
                        decimal_text(self.next.epoch).as_str(),
                    ),
                ),
            );
        }
        wait.attempt = wait.attempt + 1;
        self.phase = SyncPhase::Waiting { wait };
        SyncAction::Look
    }

    /// Carries on after the finalization: a change that is still open to
    /// dispute waits on; else the epoch of the bridge tells what it came to.
    pub fn on_finalize(&mut self, error: Option<String>) -> (r: SyncAction)
        requires
            old(self).phase@ is Finalizing,
            old(self).wf(),
        ensures
            final(self).same_but_phase(*old(self)),
            final(self).wf(),
            ({
                let wait = old(self).phase@->Finalizing_wait;
                let failure = text_of(error);
                if failure is Some && in_dispute_text(failure->0) {
                    final(self).phase@ == (SyncPhaseView::Waiting { wait }) && r@
                        == SyncActionView::Sleep(EVM_COMMITTEE_SYNC_POLL_MS)
                } else {
                    final(self).phase@ == (SyncPhaseView::Checking { wait, failure }) && r@
                        == SyncActionView::AskEpoch
                }
            }),
    {
        let wait = match &self.phase {
            SyncPhase::Finalizing { wait } => *wait,
            _ => {
                return SyncAction::Finish(None);
            },
        };
        if let Some(detail) = &error {
            if still_in_dispute_error(detail.as_str()) {
                self.phase = SyncPhase::Waiting { wait };
                return SyncAction::Sleep(EVM_COMMITTEE_SYNC_POLL_MS);
            }
        }
        self.phase = SyncPhase::Checking { wait, failure: error };
        SyncAction::AskEpoch
    }
}

/// A change is finalized only after the bridge no longer holds it for disputed.
pub proof fn law_change_finalized_after_dispute(
    wait: UpdateWait,
    params: EvmDisputeParams,
    confirmations: u64,
    now_ms: u64,
    latest: u64,
)
    requires
        params.block_duration_millis > 0,
        wait.period_seconds == params.period_seconds,
        wait.delay == block_delay(params, confirmations),
        change_due(wait, now_ms, latest),
        wait.requested_block + wait.delay <= u64::MAX,
        wait.requested_at_ms + params.period_seconds * 1000 < u64::MAX,
    ensures
        (latest - wait.requested_block) * params.block_duration_millis > 1000
            * params.period_seconds,
        now_ms > wait.requested_at_ms + 1000 * params.period_seconds,
{
    crate::evm::law_delay_outlasts_dispute(params, confirmations);
    let passed = latest - wait.requested_block;
    let d = params.block_duration_millis as int;
    let delay = wait.delay as int;
    assert(passed * d >= delay * d) by (nonlinear_arith)
        requires
            passed >= delay,
            d > 0,
    ;
}

/// A change is requested only from an epoch that lies behind, and a run that
/// has requested one ends without error only if the bridge has reached the new
/// epoch.
pub proof fn law_success_means_up_to_date(run: CommitteeSync, epoch: Result<u64, Seq<char>>)
    requires
        run.wf(),
        run.phase@ is SecondLook || run.phase@ is Checking,
    ensures
        after_epoch(run.phase@, run.next.epoch, epoch).1 == SyncActionView::Finish(None)
            ==> epoch is Ok && epoch->Ok_0 >= run.next.epoch,
        after_epoch(run.phase@, run.next.epoch, epoch).1 matches SyncActionView::Request {
            active_epoch,
        } ==> active_epoch < run.next.epoch,
{
}

} // verus!
