//! The payout of local withdraws on a foreign LightPool chain.
use vstd::prelude::*;
use vstd::std_specs::iter::IteratorSpec;
use vstd::string::*;
use crate::chain::{BridgeWithdrawRecord, ContractAddress, OutboundDepositMessage};
use crate::events::{BridgeEventKind, BridgeEventLevel, DraftView, EventDraft};
use crate::evm::{already_processed_detail, processed_text};
use crate::labels::{emit_route, event_token};
use crate::messages::{vote_views, BridgeVote};
use crate::route_config::{BridgeRoute, ForeignLeg, LegView, RouteView};
use crate::route_state::{state_lanes, PendingLpDeposit, RouteState, StateView};
use crate::text::{contains_text, occurs_in};
use crate::util::{contract_bytes, parse_contract_address, BridgeError};
use crate::withdraws::wants_local_withdraw;

verus! {

broadcast use vstd::std_specs::hash::group_hash_axioms;

/// A payout that is to be submitted to a foreign LightPool chain.
#[derive(Clone, Debug)]
pub struct LpSubmission {
    pub contract: ContractAddress,
    pub message: OutboundDepositMessage,
    pub votes: Vec<BridgeVote>,
}

/// How the foreign LightPool chain answered.
#[derive(Clone, Debug)]
pub enum LpReply {
    /// The transaction was executed.
    Executed,
    /// The transaction was taken and failed, with this status.
    Rejected(String),
    /// The transaction did not get through.
    Failed(String),
}

/// Whether a payout was refused for good.
pub open spec fn refused_for_good(detail: Seq<char>) -> bool {
    ||| occurs_in(detail, "not in authorities"@)
    ||| occurs_in(detail, "Unauthorized"@)
    ||| occurs_in(detail, "epoch mismatch"@)
}

/// A payout after an answer.
pub open spec fn settled(item: PendingLpDeposit, reply: LpReply) -> PendingLpDeposit {
    match reply {
        LpReply::Executed => PendingLpDeposit { submitted: true, ..item },
        LpReply::Rejected(detail) => if processed_text(detail@) {
            PendingLpDeposit { submitted: true, ..item }
        } else if refused_for_good(detail@) {
            PendingLpDeposit { failed: true, ..item }
        } else {
            item
        },
        LpReply::Failed(detail) => if processed_text(detail@) {
            PendingLpDeposit { submitted: true, ..item }
        } else {
            item
        },
    }
}

/// What is reported of an event of a payout.
pub open spec fn lp_event(
    s: StateView,
    route: RouteView,
    nonce: u64,
    kind: BridgeEventKind,
    level: BridgeEventLevel,
    amount: Option<u64>,
    detail: Seq<char>,
) -> DraftView {
    DraftView {
        route_id: s.route_id,
        token: event_token(kind, route, state_lanes(s)),
        kind,
        level,
        message_id: Some(nonce),
        amount,
        detail,
    }
}

/// What is reported of an answer; nothing where a transaction that did not get
/// through had been executed before.
pub open spec fn reply_event(
    s: StateView,
    route: RouteView,
    nonce: u64,
    amount: u64,
    reply: LpReply,
) -> Option<DraftView> {
    match reply {
        LpReply::Executed => Some(
            lp_event(
                s,
                route,
                nonce,
                BridgeEventKind::DepositOk,
                BridgeEventLevel::Info,
                Some(amount),
                "foreign withdraw confirmed"@,
            ),
        ),
        LpReply::Rejected(detail) => if processed_text(detail@) {
            Some(
                lp_event(
                    s,
                    route,
                    nonce,
                    BridgeEventKind::DepositOk,
                    BridgeEventLevel::Info,
                    Some(amount),
                    "foreign withdraw already processed"@,
                ),
            )
        } else {
            Some(
                lp_event(
                    s,
                    route,
                    nonce,
                    BridgeEventKind::DepositFailed,
                    BridgeEventLevel::Error,
                    None,
                    detail@,
                ),
            )
        },
        LpReply::Failed(detail) => if processed_text(detail@) {
            None
        } else {
            Some(
                lp_event(
                    s,
                    route,
                    nonce,
                    BridgeEventKind::DepositFailed,
                    BridgeEventLevel::Error,
                    None,
                    detail@,
                ),
            )
        },
    }
}

/// Whether a payout is open.
pub open spec fn lp_open(s: StateView, nonce: u64) -> bool {
    s.lp.contains_key(nonce) && !s.lp[nonce].submitted && !s.lp[nonce].failed
}

/// The outbound bridge that a payout is due at, if it is due.
pub open spec fn lp_due(s: StateView, route: RouteView, nonce: u64, leads: bool) -> Result<
    Option<Seq<u8>>,
    BridgeError,
> {
    match route.foreign {
        LegView::Lightpool { outbound_bridge_contract, .. } => if !leads {
            Ok(None)
        } else {
            match contract_bytes(outbound_bridge_contract) {
                Err(e) => Err(e),
                Ok(contract) => if lp_open(s, nonce) {
                    Ok(Some(contract))
                } else {
                    Ok(None)
                },
            }
        },
        LegView::Evm { .. } => Ok(None),
    }
}

/// The state after an answer.
pub open spec fn after_reply(s: StateView, nonce: u64, reply: LpReply) -> StateView {
    if s.lp.contains_key(nonce) {
        StateView { lp: s.lp.insert(nonce, settled(s.lp[nonce], reply)), ..s }
    } else {
        s
    }
}

/// The view of an event that there may be.
pub open spec fn draft_of(event: Option<EventDraft>) -> Option<DraftView> {
    match event {
        Some(e) => Some(e@),
        None => None,
    }
}

/// A copy of a list of votes.
fn copy_votes(votes: &Vec<BridgeVote>) -> (r: Vec<BridgeVote>)
    ensures
        vote_views(r@) == vote_views(votes@),
{
    let mut out: Vec<BridgeVote> = Vec::new();
    let mut i: usize = 0;
    while i < votes.len()
        invariant
            i <= votes.len(),
            vote_views(out@) == vote_views(votes@).take(i as int),
        decreases votes.len() - i,
    {
        let vote = votes[i].duplicate();
        let ghost before = out@;
        out.push(vote);
        i += 1;
        assert(vote_views(out@) =~= vote_views(before).push(vote@));
        assert(vote_views(votes@).take(i as int) =~= vote_views(votes@).take(i - 1).push(vote@));
    }
    assert(vote_views(votes@).take(i as int) =~= vote_views(votes@));
    out
}

impl RouteState {
    /// The payout of a withdraw that is to be submitted now, and the event that
    /// reports it.
    pub fn try_submit_lp_deposit_nonce(&self, route: &BridgeRoute, nonce: u64, leads: bool) -> (r:
        Result<Option<(LpSubmission, EventDraft)>, BridgeError>)
        ensures
            match lp_due(self@, route@, nonce, leads) {
                Err(e) => r matches Err(f) && f == e,
                Ok(None) => r matches Ok(None),
                Ok(Some(contract)) => {
                    &&& r matches Ok(Some((s, event)))
                    &&& s.contract.bytes@ == contract
                    &&& s.message == self@.lp[nonce].message
                    &&& vote_views(s.votes@) == vote_views(self@.lp[nonce].votes@)
                    &&& event@ == lp_event(
                        self@,
                        route@,
                        nonce,
                        BridgeEventKind::DepositSubmitted,
                        BridgeEventLevel::Info,
                        Some(self@.lp[nonce].message.amount),
                        "submitting foreign withdraw confirmation"@,
                    )
                },
            },
    {
        if !leads {
            return Ok(None);
        }
        let contract_text = match &route.foreign {
            ForeignLeg::Lightpool { outbound_bridge_contract, .. } => outbound_bridge_contract,
            ForeignLeg::Evm { .. } => {
                return Ok(None);
            },
        };
        let contract = match parse_contract_address(contract_text.as_str()) {
            Ok(contract) => contract,
            Err(e) => {
                return Err(e);
            },
        };
        let item = match self.pending_lp_deposits.get(&nonce) {
            Some(item) => item,
            None => {
                return Ok(None);
            },
        };
        if item.submitted || item.failed {
            return Ok(None);
        }
        let event = emit_route(
            self.route_id.as_str(),
            route,
            self.bridge_config.as_ref(),
            BridgeEventKind::DepositSubmitted,
            BridgeEventLevel::Info,
            Some(nonce),
            Some(item.message.amount),
            "submitting foreign withdraw confirmation".to_owned(),
        );
        let votes = copy_votes(&item.votes);
        Ok(Some((LpSubmission { contract, message: item.message, votes }, event)))
    }

    /// The withdraws that were queued for the foreign LightPool chain, each
    /// once, in no particular order.
    pub fn lp_deposit_nonces(&self) -> (r: Vec<u64>)
        ensures
            r@.no_duplicates(),
            r@.to_set() == self@.lp.dom(),
    {
        let mut nonces: Vec<u64> = Vec::new();
        let keys = self.pending_lp_deposits.keys();
        let ghost all = keys.remaining();
        for nonce in it: keys
            invariant
                it.seq() == all,
                nonces@ == all.take(it.index()).unref(),
        {
            nonces.push(*nonce);
        }
        assert(all.take(all.len() as int) =~= all);
        assert(nonces@ == all.unref());
        nonces
    }

    /// Takes note of the answer to a payout, and gives the event that reports
    /// it.
    pub fn finish_lp_deposit(&mut self, route: &BridgeRoute, nonce: u64, reply: &LpReply) -> (r:
        Option<EventDraft>)
        ensures
            final(self)@ == after_reply(old(self)@, nonce, *reply),
            draft_of(r) == (if old(self)@.lp.contains_key(nonce) {
                reply_event(
                    old(self)@,
                    route@,
                    nonce,
                    old(self)@.lp[nonce].message.amount,
                    *reply,
                )
            } else {
                None
            }),
    {
        let mut item = match self.pending_lp_deposits.remove(&nonce) {
            Some(item) => item,
            None => {
                assert(self@.lp =~= old(self)@.lp);
                return None;
            },
        };
        let amount: u64 = item.message.amount;
        let done = match reply {
            LpReply::Executed => true,
            LpReply::Rejected(detail) => already_processed_detail(detail.as_str()),
            LpReply::Failed(detail) => already_processed_detail(detail.as_str()),
        };
        if done {
            item.submitted = true;
        } else if let LpReply::Rejected(detail) = reply {
            if contains_text(detail.as_str(), "not in authorities") || contains_text(
                detail.as_str(),
                "Unauthorized",
            ) || contains_text(detail.as_str(), "epoch mismatch") {
                item.failed = true;
            }
        }
        self.pending_lp_deposits.insert(nonce, item);
        assert(self@.lp =~= after_reply(old(self)@, nonce, *reply).lp);
        let (kind, level, shown, detail) = match reply {
            LpReply::Executed => (
                BridgeEventKind::DepositOk,
                BridgeEventLevel::Info,
                Some(amount),
                "foreign withdraw confirmed".to_owned(),
            ),
            LpReply::Rejected(detail) => if done {
                (
                    BridgeEventKind::DepositOk,
                    BridgeEventLevel::Info,
                    Some(amount),
                    "foreign withdraw already processed".to_owned(),
                )
            } else {
                (BridgeEventKind::DepositFailed, BridgeEventLevel::Error, None, detail.clone())
            },
            LpReply::Failed(detail) => if done {
                return None;
            } else {
                (BridgeEventKind::DepositFailed, BridgeEventLevel::Error, None, detail.clone())
            },
        };
        Some(
            emit_route(
                self.route_id.as_str(),
                route,
                self.bridge_config.as_ref(),
                kind,
                level,
                Some(nonce),
                shown,
                detail,
            ),
        )
    }
}

/// A payout that was executed or refused for good is never submitted again,
/// whatever later answers say, and its withdraw is not taken up anew.
pub proof fn law_closed_payout_stays_closed(
    s: StateView,
    route: RouteView,
    nonce: u64,
    leads: bool,
    reply: LpReply,
    record: BridgeWithdrawRecord,
)
    requires
        s.lp.contains_key(nonce),
        !lp_open(s, nonce),
        record.nonce == nonce,
    ensures
        !lp_open(after_reply(s, nonce, reply), nonce),
        !(lp_due(s, route, nonce, leads) matches Ok(Some(_))),
        !wants_local_withdraw(s, record),
{
}

/// An answer closes a payout if the chain has executed it now or before, or
/// refused it for good; after any other it stays open.
pub proof fn law_answers_close_payouts(s: StateView, nonce: u64, reply: LpReply)
    requires
        lp_open(s, nonce),
    ensures
        lp_open(after_reply(s, nonce, reply), nonce) == (match reply {
            LpReply::Executed => false,
            LpReply::Rejected(detail) => !processed_text(detail@) && !refused_for_good(detail@),
            LpReply::Failed(detail) => !processed_text(detail@),
        }),
{
}

/// The answer to one payout leaves every other one as it is.
pub proof fn law_payouts_are_independent(s: StateView, nonce: u64, other: u64, reply: LpReply)
    requires
        nonce != other,
    ensures
        lp_open(after_reply(s, nonce, reply), other) == lp_open(s, other),
        after_reply(s, nonce, reply).evm == s.evm,
        after_reply(s, nonce, reply).seen == s.seen,
{
}

} // verus!
