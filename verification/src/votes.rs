//! Deposits that wait for the votes of a quorum.
use vstd::prelude::*;
use vstd::string::*;
use crate::chain::{stake_among, Authority, BridgeDepositMessage, Committee, ContractAddress, PublicKey};
use crate::events::{BridgeEventKind, BridgeEventLevel, DraftView, EventDraft};
use crate::evm::{already_processed_detail, processed_text};
use crate::messages::{vote_views, BridgeLinkVote, BridgeVote, BridgeVoteKind, LinkVoteView, VoteView};
use crate::text::{cat3, decimal, decimal_text, same_text};

verus! {

/// What is known of one message: its contents and the votes for it, at most one
/// of each validator.
#[derive(Clone, Debug)]
pub struct VoteBucket {
    pub route_id: String,
    pub kind: BridgeVoteKind,
    pub message_id: u64,
    pub inbound_contract: ContractAddress,
    pub message: Option<BridgeDepositMessage>,
    pub votes: Vec<BridgeLinkVote>,
    pub submitted: bool,
    pub submitting: bool,
}

/// A [`VoteBucket`] as sequences.
#[verifier::ext_equal]
pub struct BucketView {
    pub route_id: Seq<char>,
    pub kind: BridgeVoteKind,
    pub message_id: u64,
    pub inbound_contract: ContractAddress,
    pub message: Option<BridgeDepositMessage>,
    pub votes: Seq<LinkVoteView>,
    pub submitted: bool,
    pub submitting: bool,
}

/// The views of a list of votes.
pub open spec fn link_views(votes: Seq<BridgeLinkVote>) -> Seq<LinkVoteView> {
    Seq::new(votes.len(), |i: int| votes[i]@)
}

impl View for VoteBucket {
    type V = BucketView;

    open spec fn view(&self) -> BucketView {
        BucketView {
            route_id: self.route_id@,
            kind: self.kind,
            message_id: self.message_id,
            inbound_contract: self.inbound_contract,
            message: self.message,
            votes: link_views(self.votes@),
            submitted: self.submitted,
            submitting: self.submitting,
        }
    }
}

/// The messages that wait for votes, in the order of their first vote.
#[derive(Clone, Debug)]
pub struct VoteBook {
    pub buckets: Vec<VoteBucket>,
}

impl View for VoteBook {
    type V = Seq<BucketView>;

    open spec fn view(&self) -> Seq<BucketView> {
        Seq::new(self.buckets@.len(), |i: int| self.buckets@[i]@)
    }
}

impl BucketView {
    /// Whether this is the message with a given key.
    pub open spec fn is_for(self, route_id: Seq<char>, kind: BridgeVoteKind, id: u64) -> bool {
        self.route_id == route_id && self.kind == kind && self.message_id == id
    }

    /// Whether this is a deposit that is known and not submitted.
    pub open spec fn waits(self) -> bool {
        self.kind == BridgeVoteKind::Deposit && !self.submitted && !self.submitting
            && self.message is Some
    }
}

/// The place of a message in the book, from `from` on; the length of the book
/// where it is not in it.
pub open spec fn place_of(
    book: Seq<BucketView>,
    route_id: Seq<char>,
    kind: BridgeVoteKind,
    id: u64,
    from: nat,
) -> nat
    decreases book.len() - from,
{
    if from >= book.len() {
        book.len()
    } else if book[from as int].is_for(route_id, kind, id) {
        from
    } else {
        place_of(book, route_id, kind, id, from + 1)
    }
}

/// The place of the first message of a kind with a number, of whatever route.
pub open spec fn place_of_any(book: Seq<BucketView>, kind: BridgeVoteKind, id: u64, from: nat) -> nat
    decreases book.len() - from,
{
    if from >= book.len() {
        book.len()
    } else if book[from as int].kind == kind && book[from as int].message_id == id {
        from
    } else {
        place_of_any(book, kind, id, from + 1)
    }
}

/// The place of the vote of a validator, from `from` on.
pub open spec fn vote_place(votes: Seq<LinkVoteView>, validator: Seq<char>, from: nat) -> nat
    decreases votes.len() - from,
{
    if from >= votes.len() {
        votes.len()
    } else if votes[from as int].validator == validator {
        from
    } else {
        vote_place(votes, validator, from + 1)
    }
}

/// The votes with one more; it takes the place of an earlier one of the same
/// validator.
pub open spec fn with_vote(votes: Seq<LinkVoteView>, vote: LinkVoteView) -> Seq<LinkVoteView> {
    let at = vote_place(votes, vote.validator, 0);
    if at < votes.len() {
        votes.update(at as int, vote)
    } else {
        votes.push(vote)
    }
}

/// Whether no validator voted twice.
pub open spec fn one_vote_each(votes: Seq<LinkVoteView>) -> bool {
    forall|i: int, j: int|
        0 <= i < j < votes.len() ==> (#[trigger] votes[i]).validator != (
        #[trigger] votes[j]).validator
}

/// Whether no message stands in the book twice, and no validator voted twice.
pub open spec fn book_wf(book: Seq<BucketView>) -> bool {
    &&& forall|i: int, j: int|
        0 <= i < j < book.len() ==> !(#[trigger] book[i]).is_for(
            (#[trigger] book[j]).route_id,
            book[j].kind,
            book[j].message_id,
        )
    &&& forall|i: int| 0 <= i < book.len() ==> one_vote_each((#[trigger] book[i]).votes)
}

/// A message nobody has voted for.
pub open spec fn fresh_bucket(
    route_id: Seq<char>,
    kind: BridgeVoteKind,
    id: u64,
    contract: ContractAddress,
) -> BucketView {
    BucketView {
        route_id,
        kind,
        message_id: id,
        inbound_contract: contract,
        message: None,
        votes: Seq::empty(),
        submitted: false,
        submitting: false,
    }
}

/// A message with one more vote, and its contents if they were not known.
pub open spec fn voted(
    b: BucketView,
    vote: LinkVoteView,
    message: BridgeDepositMessage,
) -> BucketView {
    BucketView {
        message: if b.message is None {
            Some(message)
        } else {
            b.message
        },
        votes: with_vote(b.votes, vote),
        ..b
    }
}

/// The book after this validator's own vote for a deposit.
pub open spec fn with_deposit_vote(
    book: Seq<BucketView>,
    route_id: Seq<char>,
    contract: ContractAddress,
    vote: LinkVoteView,
    message: BridgeDepositMessage,
) -> Seq<BucketView> {
    let at = place_of(book, route_id, vote.kind, vote.message_id, 0);
    if at < book.len() {
        book.update(at as int, voted(book[at as int], vote, message))
    } else {
        book.push(
            voted(fresh_bucket(route_id, vote.kind, vote.message_id, contract), vote, message),
        )
    }
}

/// The book after the vote of another validator.
pub open spec fn with_link_vote(book: Seq<BucketView>, vote: LinkVoteView) -> Seq<BucketView> {
    let at = place_of_any(book, vote.kind, vote.message_id, 0);
    if at < book.len() {
        let b = book[at as int];
        book.update(at as int, BucketView { votes: with_vote(b.votes, vote), ..b })
    } else {
        book
    }
}

/// Whether a deposit can be taken for submission.
pub open spec fn claimable(book: Seq<BucketView>, route_id: Seq<char>, id: u64) -> bool {
    let at = place_of(book, route_id, BridgeVoteKind::Deposit, id, 0);
    at < book.len() && !book[at as int].submitted && !book[at as int].submitting
}

/// The book with a deposit taken for submission, if it can be.
pub open spec fn with_claim(book: Seq<BucketView>, route_id: Seq<char>, id: u64) -> Seq<
    BucketView,
> {
    let at = place_of(book, route_id, BridgeVoteKind::Deposit, id, 0);
    if claimable(book, route_id, id) {
        book.update(at as int, BucketView { submitting: true, ..book[at as int] })
    } else {
        book
    }
}

/// The book after the submission of a deposit: done if the chain took it, else
/// free to be taken again.
pub open spec fn with_finish(
    book: Seq<BucketView>,
    route_id: Seq<char>,
    id: u64,
    done: bool,
) -> Seq<BucketView> {
    let at = place_of(book, route_id, BridgeVoteKind::Deposit, id, 0);
    if at < book.len() {
        let b = book[at as int];
        book.update(
            at as int,
            BucketView { submitting: false, submitted: b.submitted || done, ..b },
        )
    } else {
        book
    }
}

/// The stake behind some votes.
pub open spec fn vote_power(votes: Seq<LinkVoteView>, members: Seq<Authority>) -> nat
    decreases votes.len(),
{
    if votes.len() == 0 {
        0
    } else {
        vote_power(votes.drop_last(), members) + stake_among(
            members,
            votes.last().validator,
        ) as nat
    }
}

/// The votes that have stake behind them, as the contracts take them.
pub open spec fn staked_votes(votes: Seq<LinkVoteView>, members: Seq<Authority>) -> Seq<VoteView>
    decreases votes.len(),
{
    if votes.len() == 0 {
        Seq::empty()
    } else {
        let rest = staked_votes(votes.drop_last(), members);
        if stake_among(members, votes.last().validator) > 0 {
            rest.push(votes.last().bridge_vote())
        } else {
            rest
        }
    }
}

/// A deposit that is to be confirmed on the local chain.
#[derive(Clone, Debug)]
pub struct DepositSubmission {
    pub route_id: String,
    pub contract: ContractAddress,
    pub message_id: u64,
    pub message: BridgeDepositMessage,
    pub votes: Vec<BridgeVote>,
    pub detail: String,
}

/// A [`DepositSubmission`] as sequences.
#[verifier::ext_equal]
pub struct SubmissionView {
    pub route_id: Seq<char>,
    pub contract: ContractAddress,
    pub message_id: u64,
    pub message: BridgeDepositMessage,
    pub votes: Seq<VoteView>,
    pub detail: Seq<char>,
}

impl View for DepositSubmission {
    type V = SubmissionView;

    open spec fn view(&self) -> SubmissionView {
        SubmissionView {
            route_id: self.route_id@,
            contract: self.contract,
            message_id: self.message_id,
            message: self.message,
            votes: vote_views(self.votes@),
            detail: self.detail@,
        }
    }
}

/// The views of a list of submissions.
pub open spec fn submission_views(s: Seq<DepositSubmission>) -> Seq<SubmissionView> {
    Seq::new(s.len(), |i: int| s[i]@)
}

/// The submission that a message is due for, if any. While nobody votes every
/// known deposit is due, without votes; else those with a quorum, with the
/// votes that have stake.
pub open spec fn submission_of(b: BucketView, committee: Committee) -> Option<SubmissionView> {
    let votes = if committee.voting_keys@.len() == 0 {
        Seq::empty()
    } else {
        staked_votes(b.votes, committee.members@)
    };
    if b.waits() && (committee.voting_keys@.len() == 0 || vote_power(b.votes, committee.members@)
        >= committee.quorum_threshold) {
        Some(
            SubmissionView {
                route_id: b.route_id,
                contract: b.inbound_contract,
                message_id: b.message_id,
                message: b.message->0,
                votes,
                detail: if committee.voting_keys@.len() == 0 {
                    "submitting confirm_dep (testing)"@
                } else {
                    "submitting confirm_dep with "@ + decimal(votes.len()) + " vote(s)"@
                },
            },
        )
    } else {
        None
    }
}

/// The submissions that the messages of a book are due for.
pub open spec fn submissions(book: Seq<BucketView>, committee: Committee) -> Seq<SubmissionView>
    decreases book.len(),
{
    if book.len() == 0 {
        Seq::empty()
    } else {
        let rest = submissions(book.drop_last(), committee);
        match submission_of(book.last(), committee) {
            Some(s) => rest.push(s),
            None => rest,
        }
    }
}

/// What the submission of a deposit came to.
#[derive(Clone, Debug)]
pub enum SubmitOutcome {
    Confirmed,
    Refused(String),
}

impl SubmitOutcome {
    /// Whether the chain has the deposit now.
    pub open spec fn done(self) -> bool {
        match self {
            SubmitOutcome::Confirmed => true,
            SubmitOutcome::Refused(detail) => processed_text(detail@),
        }
    }
}

/// What is reported of the submission of a deposit.
pub open spec fn finish_event(
    route_id: Seq<char>,
    message_id: u64,
    token: ContractAddress,
    amount: u64,
    outcome: SubmitOutcome,
    detail_ok: Seq<char>,
) -> DraftView {
    let done = outcome.done();
    DraftView {
        route_id,
        token: Some(token.text()),
        kind: if done {
            BridgeEventKind::ConfirmDepOk
        } else {
            BridgeEventKind::ConfirmDepFailed
        },
        level: if done {
            BridgeEventLevel::Info
        } else {
            BridgeEventLevel::Error
        },
        message_id: Some(message_id),
        amount: Some(amount),
        detail: match outcome {
            SubmitOutcome::Confirmed => detail_ok,
            SubmitOutcome::Refused(detail) => if done {
                "confirm_dep already processed"@
            } else {
                detail@
            },
        },
    }
}

/// Puts a vote among others.
fn add_vote(votes: &mut Vec<BridgeLinkVote>, vote: BridgeLinkVote)
    ensures
        link_views(final(votes)@) == with_vote(link_views(old(votes)@), vote@),
{
    let ghost views = link_views(votes@);
    let mut i: usize = 0;
    while i < votes.len()
        invariant
            i <= votes@.len(),
            views == link_views(votes@),
            views == link_views(old(votes)@),
            vote_place(views, vote@.validator, 0) == vote_place(
                views,
                vote@.validator,
                i as nat,
            ),
        decreases votes.len() - i,
    {
        assert(views[i as int] == votes@[i as int]@);
        if votes[i].validator.same(&vote.validator) {
            votes.set(i, vote);
            assert(link_views(votes@) =~= views.update(i as int, vote@));
            return;
        }
        i += 1;
    }
    votes.push(vote);
    assert(link_views(votes@) =~= views.push(vote@));
}

impl VoteBook {
    /// A book without messages.
    pub fn new() -> (r: Self)
        ensures
            r@.len() == 0,
            book_wf(r@),
    {
        VoteBook { buckets: Vec::new() }
    }

    /// The place of a message in the book.
    fn find(&self, route_id: &str, kind: BridgeVoteKind, id: u64) -> (r: usize)
        ensures
            r == place_of(self@, route_id@, kind, id, 0),
            r <= self@.len(),
    {
        let mut i: usize = 0;
        while i < self.buckets.len()
            invariant
                i <= self.buckets.len(),
                place_of(self@, route_id@, kind, id, 0) == place_of(
                    self@,
                    route_id@,
                    kind,
                    id,
                    i as nat,
                ),
            decreases self.buckets.len() - i,
        {
            let b = &self.buckets[i];
            assert(self@[i as int] == b@);
            if b.kind == kind && b.message_id == id && same_text(b.route_id.as_str(), route_id) {
                return i;
            }
            i += 1;
        }
        i
    }

    /// Notes this validator's own vote for a deposit and what it is about.
    pub fn ingest_deposit_vote(
        &mut self,
        route_id: &str,
        contract: ContractAddress,
        vote: BridgeLinkVote,
        message: BridgeDepositMessage,
    )
        ensures
            final(self)@ == with_deposit_vote(old(self)@, route_id@, contract, vote@, message),
    {
        let at: usize = self.find(route_id, vote.kind, vote.message_id);
        let ghost before = self@;
        if at < self.buckets.len() {
            let ghost was = self.buckets@;
            let mut b = self.buckets.remove(at);
            assert(b@ == before[at as int]);
            if b.message.is_none() {
                b.message = Some(message);
            }
            let ghost v = vote@;
            add_vote(&mut b.votes, vote);
            let ghost now = b@;
            self.buckets.insert(at, b);
            assert(self.buckets@ =~= was.update(at as int, b));
            assert(now == voted(before[at as int], v, message));
            assert(self@ =~= before.update(at as int, now));
        } else {
            let mut b = VoteBucket {
                route_id: route_id.to_owned(),
                kind: vote.kind,
                message_id: vote.message_id,
                inbound_contract: contract,
                message: Some(message),
                votes: Vec::new(),
                submitted: false,
                submitting: false,
            };
            let ghost v = vote@;
            assert(link_views(b.votes@) =~= Seq::<LinkVoteView>::empty());
            add_vote(&mut b.votes, vote);
            let ghost now = b@;
            self.buckets.push(b);
            assert(now == voted(
                fresh_bucket(route_id@, v.kind, v.message_id, contract),
                v,
                message,
            ));
            assert(self@ =~= before.push(now));
        }
    }

    /// Notes the vote of another validator for a message that is known; one for
    /// an unknown message is dropped.
    pub fn ingest_vote(&mut self, vote: BridgeLinkVote)
        ensures
            final(self)@ == with_link_vote(old(self)@, vote@),
    {
        let ghost before = self@;
        let mut i: usize = 0;
        while i < self.buckets.len()
            invariant
                i <= self.buckets@.len(),
                self@ == before,
                before == old(self)@,
                place_of_any(before, vote@.kind, vote@.message_id, 0) == place_of_any(
                    before,
                    vote@.kind,
                    vote@.message_id,
                    i as nat,
                ),
            decreases self.buckets.len() - i,
        {
            assert(before[i as int] == self.buckets@[i as int]@);
            if self.buckets[i].kind == vote.kind && self.buckets[i].message_id == vote.message_id {
                let ghost was = self.buckets@;
                let ghost v = vote@;
                let mut b = self.buckets.remove(i);
                add_vote(&mut b.votes, vote);
                let ghost now = b@;
                self.buckets.insert(i, b);
                assert(self.buckets@ =~= was.update(i as int, b));
                assert(now == BucketView {
                    votes: with_vote(before[i as int].votes, v),
                    ..before[i as int]
                });
                assert(self@ =~= before.update(i as int, now));
                return;
            }
            i += 1;
        }
    }

    /// Takes a deposit for submission; says whether it was free.
    pub fn claim_deposit_submit(&mut self, route_id: &str, message_id: u64) -> (r: bool)
        ensures
            r == claimable(old(self)@, route_id@, message_id),
            final(self)@ == with_claim(old(self)@, route_id@, message_id),
    {
        let at: usize = self.find(route_id, BridgeVoteKind::Deposit, message_id);
        if at >= self.buckets.len() {
            return false;
        }
        let ghost before = self@;
        let ghost was = self.buckets@;
        assert(before[at as int] == was[at as int]@);
        if self.buckets[at].submitted || self.buckets[at].submitting {
            return false;
        }
        let mut b = self.buckets.remove(at);
        b.submitting = true;
        self.buckets.insert(at, b);
        assert(self.buckets@ =~= was.update(at as int, b));
        assert(self@ =~= before.update(
            at as int,
            BucketView { submitting: true, ..before[at as int] },
        ));
        true
    }

    /// Notes what the submission of a deposit came to, and gives the event that
    /// reports it.
    pub fn finish_deposit_submit(
        &mut self,
        route_id: &str,
        message_id: u64,
        token: ContractAddress,
        amount: u64,
        outcome: &SubmitOutcome,
        detail_ok: &str,
    ) -> (r: EventDraft)
        ensures
            final(self)@ == with_finish(old(self)@, route_id@, message_id, outcome.done()),
            r@ == finish_event(route_id@, message_id, token, amount, *outcome, detail_ok@),
    {
        let done = match outcome {
            SubmitOutcome::Confirmed => true,
            SubmitOutcome::Refused(detail) => already_processed_detail(detail.as_str()),
        };
        let at: usize = self.find(route_id, BridgeVoteKind::Deposit, message_id);
        if at < self.buckets.len() {
            let ghost before = self@;
            let ghost was = self.buckets@;
            let mut b = self.buckets.remove(at);
            assert(b@ == before[at as int]);
            b.submitting = false;
            b.submitted = b.submitted || done;
            self.buckets.insert(at, b);
            assert(self.buckets@ =~= was.update(at as int, b));
            assert(self@ =~= before.update(
                at as int,
                BucketView {
                    submitting: false,
                    submitted: before[at as int].submitted || done,
                    ..before[at as int]
                },
            ));
        }
        let detail = match outcome {
            SubmitOutcome::Confirmed => detail_ok.to_owned(),
            SubmitOutcome::Refused(detail) => if done {
                "confirm_dep already processed".to_owned()
            } else {
                detail.clone()
            },
        };
        EventDraft {
            route_id: route_id.to_owned(),
            token: Some(token.label()),
            kind: if done {
                BridgeEventKind::ConfirmDepOk
            } else {
                BridgeEventKind::ConfirmDepFailed
            },
            level: if done {
                BridgeEventLevel::Info
            } else {
                BridgeEventLevel::Error
            },
            message_id: Some(message_id),
            amount: Some(amount),
            detail,
        }
    }

    /// The deposits that this validator is to submit now: none unless it leads.
    pub fn try_submit_deposits(&self, committee: &Committee, name: &PublicKey, now_secs: u64) -> (r:
        Vec<DepositSubmission>)
        ensures
            submission_views(r@) == (if committee.leads(name@, now_secs) {
                submissions(self@, *committee)
            } else {
                Seq::empty()
            }),
    {
        let mut out: Vec<DepositSubmission> = Vec::new();
        if !committee.is_leader(name, now_secs) {
            assert(submission_views(out@) =~= Seq::<SubmissionView>::empty());
            return out;
        }
        let mut i: usize = 0;
        assert(self@.take(0) =~= Seq::<BucketView>::empty());
        assert(submission_views(out@) =~= Seq::<SubmissionView>::empty());
        while i < self.buckets.len()
            invariant
                i <= self.buckets.len(),
                submission_views(out@) == submissions(self@.take(i as int), *committee),
            decreases self.buckets.len() - i,
        {
            let ghost taken = self@.take(i as int);
            let due = due_submission(&self.buckets[i], committee);
            i += 1;
            proof {
                let now = self@.take(i as int);
                assert(now.drop_last() =~= taken);
                assert(now.last() == self.buckets@[i - 1]@);
            }
            if let Some(s) = due {
                let ghost before = out@;
                out.push(s);
                assert(submission_views(out@) =~= submission_views(before).push(s@));
            }
        }
        assert(self@.take(i as int) =~= self@);
        out
    }

    /// The number of deposits of a route that are not submitted.
    pub fn pending_deposits(&self, route_id: &str) -> (r: u64)
        ensures
            r == pending_count(self@, route_id@),
    {
        let mut n: u64 = 0;
        let mut i: usize = 0;
        assert(self@.take(0) =~= Seq::<BucketView>::empty());
        while i < self.buckets.len()
            invariant
                i <= self.buckets.len(),
                n == pending_count(self@.take(i as int), route_id@),
                n <= i,
            decreases self.buckets.len() - i,
        {
            let ghost taken = self@.take(i as int);
            let b = &self.buckets[i];
            proof {
                let now = self@.take(i + 1);
                assert(now.drop_last() =~= taken);
                assert(now.last() == b@);
            }
            if b.kind == BridgeVoteKind::Deposit && !b.submitted && same_text(
                b.route_id.as_str(),
                route_id,
            ) {
                n += 1;
            }
            i += 1;
        }
        assert(self@.take(i as int) =~= self@);
        n
    }
}

/// The number of deposits of a route that are not submitted.
pub open spec fn pending_count(book: Seq<BucketView>, route_id: Seq<char>) -> nat
    decreases book.len(),
{
    if book.len() == 0 {
        0
    } else {
        let b = book.last();
        pending_count(book.drop_last(), route_id) + if b.route_id == route_id && b.kind
            == BridgeVoteKind::Deposit && !b.submitted {
            1nat
        } else {
            0
        }
    }
}

/// The submission that a message is due for, if any.
fn due_submission(b: &VoteBucket, committee: &Committee) -> (r: Option<DepositSubmission>)
    ensures
        match r {
            Some(s) => submission_of(b@, *committee) == Some(s@),
            None => submission_of(b@, *committee) is None,
        },
{
    if b.kind != BridgeVoteKind::Deposit || b.submitted || b.submitting {
        return None;
    }
    let message = match b.message {
        Some(message) => message,
        None => {
            return None;
        },
    };
    let mut votes: Vec<BridgeVote> = Vec::new();
    if committee.voting_keys.is_empty() {
        assert(vote_views(votes@) =~= Seq::<VoteView>::empty());
        return Some(
            DepositSubmission {
                route_id: b.route_id.clone(),
                contract: b.inbound_contract,
                message_id: b.message_id,
                message,
                votes,
                detail: "submitting confirm_dep (testing)".to_owned(),
            },
        );
    }
    let ghost all = link_views(b.votes@);
    let ghost members = committee.members@;
    let mut power: u64 = 0;
    let mut i: usize = 0;
    assert(all.take(0) =~= Seq::<LinkVoteView>::empty());
    assert(vote_views(votes@) =~= Seq::<VoteView>::empty());
    while i < b.votes.len()
        invariant
            i <= b.votes.len(),
            all == link_views(b.votes@),
            members == committee.members@,
            vote_power(all.take(i as int), members) <= u64::MAX ==> power == vote_power(
                all.take(i as int),
                members,
            ),
            vote_power(all.take(i as int), members) > u64::MAX ==> power == u64::MAX,
            vote_views(votes@) == staked_votes(all.take(i as int), members),
            votes@.len() <= i,
        decreases b.votes.len() - i,
    {
        let ghost taken = all.take(i as int);
        proof {
            let now = all.take(i + 1);
            assert(now.drop_last() =~= taken);
            assert(now.last() == b.votes@[i as int]@);
        }
        let stake: u64 = committee.stake(&b.votes[i].validator);
        if stake > 0 {
            power = power.saturating_add(stake);
            let vote = b.votes[i].duplicate().into_bridge_vote();
            let ghost before = votes@;
            votes.push(vote);
            assert(vote_views(votes@) =~= vote_views(before).push(vote@));
        }
        i += 1;
    }
    assert(all.take(i as int) =~= all);
    if power < committee.quorum_threshold {
        return None;
    }
    let detail = cat3(
        "submitting confirm_dep with ",
        decimal_text(votes.len() as u64).as_str(),
        " vote(s)",
    );
    assert(vote_views(votes@).len() == votes@.len());
    Some(
        DepositSubmission {
            route_id: b.route_id.clone(),
            contract: b.inbound_contract,
            message_id: b.message_id,
            message,
            votes,
            detail,
        },
    )
}

impl DepositSubmission {
    /// What is reported when the submission begins.
    pub fn begin_event(&self) -> (r: EventDraft)
        ensures
            r@ == (DraftView {
                route_id: self.route_id@,
                token: Some(self.message.token.text()),
                kind: BridgeEventKind::ConfirmDepSubmitted,
                level: BridgeEventLevel::Info,
                message_id: Some(self.message_id),
                amount: Some(self.message.amount),
                detail: self.detail@,
            }),
    {
        EventDraft {
            route_id: self.route_id.clone(),
            token: Some(self.message.token.label()),
            kind: BridgeEventKind::ConfirmDepSubmitted,
            level: BridgeEventLevel::Info,
            message_id: Some(self.message_id),
            amount: Some(self.message.amount),
            detail: self.detail.clone(),
        }
    }
}

} // verus!
