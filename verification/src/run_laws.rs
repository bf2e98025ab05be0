//! What holds of the runs that request a withdraw, finalize it, and bring the
//! committee of the EVM bridge up to date.
use vstd::prelude::*;
use crate::committee_sync::{
    after_epoch, block_or_first, change_due, timeout_text, SyncActionView,
    SyncPhaseView, UpdateWait,
};
use crate::events::{BridgeEventKind, BridgeEventLevel};
use crate::evm::{permanent_text, processed_text, text_of, EvmDisputeParams};
use crate::evm_finalize::{finalizable, known_params, FinalizeRun};
use crate::evm_request::{
    after_block, after_cast_error, after_refusal, awaits_finalization, committee_refused, hinted,
    wants_attempt, with_item, PhaseView, RequestAction, RunView,
};
use crate::route_state::{PendingEvmWithdraw, StateView};
use crate::text::{ascii_lowered, decimal, occurs_at, occurs_in};

verus! {

/// A change of the committee is requested from the very epoch that the bridge
/// reported on the second look, where that lies behind, and the run remembers
/// it; a bridge that has reached the new epoch ends the run.
pub proof fn law_change_starts_from_the_reported_epoch(next: u64, e: u64, error: Seq<char>)
    ensures
        e < next ==> after_epoch(SyncPhaseView::SecondLook, next, Ok(e)) == (
            SyncPhaseView::Requesting { on_chain_epoch: e },
            SyncActionView::Request { active_epoch: e },
        ),
        e < next ==> after_epoch(SyncPhaseView::FirstLook, next, Ok(e)) == (
            SyncPhaseView::SecondLook,
            SyncActionView::LockAndAskEpoch,
        ),
        e >= next ==> after_epoch(SyncPhaseView::SecondLook, next, Ok(e)) == (
            SyncPhaseView::Closed,
            SyncActionView::Finish(None),
        ),
        e >= next ==> after_epoch(SyncPhaseView::FirstLook, next, Ok(e)) == (
            SyncPhaseView::Closed,
            SyncActionView::Finish(None),
        ),
        after_epoch(SyncPhaseView::SecondLook, next, Err(error)) == (
            SyncPhaseView::Closed,
            SyncActionView::Finish(Some(error)),
        ),
        after_epoch(SyncPhaseView::FirstLook, next, Err(error)) == (
            SyncPhaseView::Closed,
            SyncActionView::Finish(None),
        ),
{
}

/// Two looks at different epochs never request the same change.
pub proof fn law_requests_tell_epochs_apart(next: u64, e: u64, f: u64)
    requires
        e < next,
        f < next,
        after_epoch(SyncPhaseView::SecondLook, next, Ok(e)).1 == after_epoch(
            SyncPhaseView::SecondLook,
            next,
            Ok(f),
        ).1,
    ensures
        e == f,
{
}

/// After the finalization the epoch of the bridge decides: reached, the run has
/// succeeded whatever the call said; not reached, it ends with both epochs or
/// with what the call said.
pub proof fn law_the_epoch_decides_in_the_end(
    wait: UpdateWait,
    failure: Seq<char>,
    next: u64,
    e: u64,
    error: Seq<char>,
)
    ensures
        e >= next ==> after_epoch(
            SyncPhaseView::Checking { wait, failure: None },
            next,
            Ok(e),
        ).1 == SyncActionView::Finish(None),
        e >= next ==> after_epoch(
            SyncPhaseView::Checking { wait, failure: Some(failure) },
            next,
            Ok(e),
        ).1 == SyncActionView::Finish(None),
        e < next ==> after_epoch(
            SyncPhaseView::Checking { wait, failure: None },
            next,
            Ok(e),
        ).1 == SyncActionView::Finish(
            Some(
                "EVM Bridge epoch "@ + decimal(e as nat) + " still behind LightPool epoch "@
                    + decimal(next as nat),
            ),
        ),
        e < next ==> after_epoch(
            SyncPhaseView::Checking { wait, failure: Some(failure) },
            next,
            Ok(e),
        ).1 == SyncActionView::Finish(Some("finalizeCommitteeUpdate failed: "@ + failure)),
        after_epoch(SyncPhaseView::Checking { wait, failure: None }, next, Err(error)).1
            == SyncActionView::Finish(Some(error)),
        wait.on_chain_epoch < next ==> after_epoch(
            SyncPhaseView::Checking { wait, failure: Some(failure) },
            next,
            Err(error),
        ).1 == SyncActionView::Finish(Some("finalizeCommitteeUpdate failed: "@ + failure)),
        forall|f: Option<Seq<char>>, r: Result<u64, Seq<char>>| #[trigger]
            after_epoch(SyncPhaseView::Checking { wait, failure: f }, next, r).0
                == SyncPhaseView::Closed,
        timeout_text(next) == "timed out waiting to finalize EVM committee update to epoch "@
            + decimal(next as nat),
{
}

/// A change can be finalized if and only if as many blocks as the delay have
/// come after the one of the request, and more time than the dispute period has
/// passed since.
pub proof fn law_change_is_due_after_blocks_and_time(wait: UpdateWait, now_ms: u64, latest: u64)
    requires
        wait.requested_block + wait.delay <= u64::MAX,
        wait.requested_at_ms + wait.period_seconds * 1000 < u64::MAX,
    ensures
        change_due(wait, now_ms, latest) == (latest - wait.requested_block >= wait.delay && now_ms
            - wait.requested_at_ms > 1000 * wait.period_seconds),
{
}

/// A withdraw can be finalized if and only if the block of its request and the
/// latest block are known, as many blocks as the delay lie between them, and
/// more time than the dispute period has passed since the request.
pub proof fn law_withdraw_is_due_after_blocks_and_time(
    item: PendingEvmWithdraw,
    period_seconds: u64,
    delay: u64,
    now_ms: u64,
    latest: u64,
    block: u64,
    at_ms: u64,
)
    requires
        item.requested_block == Some(block),
        item.requested_at_ms == Some(at_ms),
        block + delay <= u64::MAX,
        at_ms + period_seconds * 1000 < u64::MAX,
    ensures
        finalizable(item, period_seconds, delay, now_ms, Some(latest)) == (latest - block >= delay
            && now_ms - at_ms > 1000 * period_seconds),
        !finalizable(item, period_seconds, delay, now_ms, None),
{
}

/// Nothing is finalized without the block of its request.
pub proof fn law_no_finalization_without_a_block(
    item: PendingEvmWithdraw,
    period_seconds: u64,
    delay: u64,
    now_ms: u64,
    latest: Option<u64>,
)
    requires
        item.requested_block is None,
    ensures
        !finalizable(item, period_seconds, delay, now_ms, latest),
{
}

/// Dispute parameters that were read are used as they are; those of a local
/// chain, five seconds and a second for a block, stand in for unknown ones, and
/// the first block for an unknown one.
pub proof fn law_unknown_values_are_those_of_a_local_chain(params: EvmDisputeParams, block: u64)
    ensures
        known_params(Some(params)) == params,
        known_params(None).period_seconds == 5,
        known_params(None).block_duration_millis == 1000,
        block_or_first(Some(block)) == block,
        block_or_first(None) == 0,
{
}

/// Once the chain has a request, the withdraw carries the block and the time of
/// the request and is otherwise as it was; where this run sent it and the block
/// is unknown, it counts as not requested and is tried again at once.
pub proof fn law_request_is_noted_with_its_block(
    run: RunView,
    s: StateView,
    item: PendingEvmWithdraw,
    at_ms: u64,
    by_this_run: bool,
    block: u64,
)
    ensures
        ({
            let (then, state, action) = after_block(
                run,
                s,
                item,
                at_ms,
                by_this_run,
                Some(block),
            );
            let now = state.evm[run.nonce];
            &&& state.evm.contains_key(run.nonce)
            &&& now.requested
            &&& now.requested_block == Some(block)
            &&& now.requested_at_ms == Some(at_ms)
            &&& now.record == item.record
            &&& now.id == item.id
            &&& now.signature == item.signature
            &&& now.finalized == item.finalized
            &&& now.failed == item.failed
            &&& action == RequestAction::Finish(true)
            &&& then.phase == PhaseView::Closed
            &&& state == (StateView { evm: state.evm, ..s })
            &&& forall|other: u64|
                other != run.nonce ==> #[trigger] state.evm.contains_key(other)
                    == s.evm.contains_key(other) && state.evm[other] == s.evm[other]
        }),
        ({
            let (then, state, action) = after_block(run, s, item, at_ms, true, None);
            let now = state.evm[run.nonce];
            &&& !now.requested
            &&& now.requested_at_ms is None
            &&& now.record == item.record
            &&& now.id == item.id
            &&& now.signature == item.signature
            &&& now.requested_block == item.requested_block
            &&& action == RequestAction::Retry(0)
            &&& then.phase == PhaseView::Ready
            &&& then.attempt == run.attempt
        }),
        ({
            let (then, state, action) = after_block(run, s, item, at_ms, false, None);
            &&& state.evm[run.nonce].requested
            &&& state.evm[run.nonce].requested_at_ms == Some(at_ms)
            &&& action == RequestAction::Finish(item.requested_block is Some)
            &&& then.phase == PhaseView::Closed
        }),
{
}

/// An error of a request leads on by what it says: where the chain has the
/// request already, the block is asked for; where the bridge does not know the
/// committee, that is brought up to date; any other error is a refusal.
pub proof fn law_errors_lead_on_by_what_they_say(
    run: RunView,
    s: StateView,
    item: PendingEvmWithdraw,
    at_ms: u64,
    detail: Seq<char>,
)
    ensures
        ({
            let (then, state, event, action) = after_cast_error(run, s, item, at_ms, detail);
            &&& processed_text(detail) ==> {
                &&& then == run.to(PhaseView::NeedsBlock { item, at_ms, by_this_run: false })
                &&& state == s
                &&& event is None
                &&& action == RequestAction::AskBlock
            }
            &&& !processed_text(detail) && committee_refused(detail) ==> {
                &&& then == run.to(PhaseView::NeedsSync { item, detail })
                &&& state == s
                &&& event is None
                &&& action == RequestAction::SyncCommittee
            }
            &&& !processed_text(detail) && !committee_refused(detail) ==> (
                then,
                state,
                event,
                action,
            ) == after_refusal(run, s, item, hinted(detail))
        }),
{
}

/// A refusal for good fails the withdraw and is reported; another one is tried
/// again after a second, as long as the run has attempts left, and reported when
/// it has none. The report names the withdraw, its amount and the error.
pub proof fn law_refusals_are_tried_again(
    run: RunView,
    s: StateView,
    item: PendingEvmWithdraw,
    detail: Seq<char>,
)
    requires
        run.attempt <= 5,
    ensures
        ({
            let (then, state, event, action) = after_refusal(run, s, item, detail);
            &&& permanent_text(detail) ==> state.evm[run.nonce] == (PendingEvmWithdraw {
                failed: true,
                ..item
            }) && then.phase == PhaseView::Closed && action == RequestAction::Finish(false)
                && state == with_item(s, run.nonce, state.evm[run.nonce])
            &&& !permanent_text(detail) ==> state == s
            &&& !permanent_text(detail) && run.attempt < 5 ==> then.phase == PhaseView::Ready
                && action == RequestAction::Retry(1) && event is None
            &&& !permanent_text(detail) && run.attempt == 5 ==> then.phase == PhaseView::Closed
                && action == RequestAction::Finish(false)
            &&& permanent_text(detail) || run.attempt == 5 ==> (event matches Some(e) && {
                &&& e.kind == BridgeEventKind::EvmRequestFailed
                &&& e.level == BridgeEventLevel::Warn
                &&& e.route_id == run.route_id
                &&& e.token == run.token
                &&& e.message_id == Some(run.nonce)
                &&& e.amount == Some(item.record.amount)
                &&& e.detail == detail
            })
            &&& then.attempt == run.attempt
            &&& then.nonce == run.nonce
        }),
{
}

/// A withdraw that is known, open and not on the chain is requested as long as
/// fewer than five attempts were made.
pub proof fn law_open_withdraws_are_requested(run: RunView, s: StateView)
    requires
        s.evm.contains_key(run.nonce),
        !s.evm[run.nonce].failed,
        !s.evm[run.nonce].finalized,
        !s.evm[run.nonce].requested || s.evm[run.nonce].requested_block is None,
        run.attempt < 5,
    ensures
        wants_attempt(run, s),
        !awaits_finalization(s, run.nonce),
{
}

/// Nothing is requested that is not known or for which the attempts are used up.
pub proof fn law_no_requests_beyond_the_attempts(run: RunView, s: StateView)
    ensures
        run.attempt >= 5 || !s.evm.contains_key(run.nonce) ==> !wants_attempt(run, s),
        wants_attempt(run, s) ==> !s.evm[run.nonce].failed && !s.evm[run.nonce].finalized,
{
}

/// An error says that the bridge does not know the committee wherever in it the
/// words stand, in either case; the number of the error counts as it is written.
pub proof fn law_unknown_committee_is_known_by_its_words(
    a: Seq<char>,
    m: Seq<char>,
    b: Seq<char>,
    detail: Seq<char>,
)
    ensures
        ascii_lowered(m) == "invalidcommittee"@ ==> committee_refused(a + m + b),
        ascii_lowered(m) == "invalid committee"@ ==> committee_refused(a + m + b),
        m == "0x7ffe1a65"@ ==> committee_refused(a + m + b),
        !occurs_in(ascii_lowered(detail), "invalidcommittee"@) && !occurs_in(
            ascii_lowered(detail),
            "invalid committee"@,
        ) && !occurs_in(detail, "0x7ffe1a65"@) ==> !committee_refused(detail),
{
    let t = ascii_lowered(a + m + b);
    assert(t.subrange(a.len() as int, (a.len() + m.len()) as int) =~= ascii_lowered(m));
    assert(occurs_at(t, ascii_lowered(m), a.len() as int));
    assert((a + m + b).subrange(a.len() as int, (a.len() + m.len()) as int) =~= m);
    assert(occurs_at(a + m + b, m, a.len() as int));
}

/// A hint is added behind an error about the cost of a call, and to no other.
pub proof fn law_hint_follows_the_error(a: Seq<char>, m: Seq<char>, b: Seq<char>, detail: Seq<char>)
    requires
        m == "estimate gas"@ || m == "estimateGas"@,
    ensures
        hinted(a + m + b) == a + m + b
            + " (hint: EVM Bridge genesis committee likely mismatches LightPool; redeploy Bridge with VALIDATOR_STAKE matching getCommitteeInfo, default 100)"@,
        !occurs_in(detail, "estimate gas"@) && !occurs_in(detail, "estimateGas"@) ==> hinted(detail)
            == detail,
{
    assert((a + m + b).subrange(a.len() as int, (a.len() + m.len()) as int) =~= m);
    assert(occurs_at(a + m + b, m, a.len() as int));
}

/// What is reported of a withdraw names its route, its number and its amount,
/// and says what is to be said.
pub proof fn law_reports_name_the_withdraw(
    run: RunView,
    finish: FinalizeRun,
    kind: BridgeEventKind,
    level: BridgeEventLevel,
    amount: u64,
    detail: Seq<char>,
)
    ensures
        ({
            let e = run.event(kind, level, amount, detail);
            let f = finish.event(kind, level, amount, detail);
            &&& e.route_id == run.route_id && f.route_id == finish.route_id@
            &&& e.token == run.token && f.token == text_of(finish.token)
            &&& e.kind == kind && f.kind == kind
            &&& e.level == level && f.level == level
            &&& e.message_id == Some(run.nonce) && f.message_id == Some(finish.nonce)
            &&& e.amount == Some(amount) && f.amount == Some(amount)
            &&& e.detail == detail && f.detail == detail
        }),
{
}

} // verus!
