//! What holds of the book of votes across its operations.
use vstd::prelude::*;
use crate::chain::{Authority, BridgeDepositMessage, Committee, ContractAddress};
use crate::messages::{BridgeVoteKind, LinkVoteView};
use crate::votes::{
    book_wf, claimable, one_vote_each, place_of, place_of_any, submission_of, submissions,
    vote_place, vote_power, voted, with_claim, with_deposit_vote, with_finish, with_link_vote,
    with_vote, BucketView,
};

verus! {

/// One thing that is done to the book.
pub enum BookStep {
    OwnVote {
        route_id: Seq<char>,
        contract: ContractAddress,
        vote: LinkVoteView,
        message: BridgeDepositMessage,
    },
    LinkVote { vote: LinkVoteView },
    Claim { route_id: Seq<char>, id: u64 },
    Finish { route_id: Seq<char>, id: u64, done: bool },
}

/// The book after one step.
pub open spec fn after_step(book: Seq<BucketView>, step: BookStep) -> Seq<BucketView> {
    match step {
        BookStep::OwnVote { route_id, contract, vote, message } => with_deposit_vote(
            book,
            route_id,
            contract,
            vote,
            message,
        ),
        BookStep::LinkVote { vote } => with_link_vote(book, vote),
        BookStep::Claim { route_id, id } => with_claim(book, route_id, id),
        BookStep::Finish { route_id, id, done } => with_finish(book, route_id, id, done),
    }
}

/// Whether a deposit has been confirmed on the local chain.
pub open spec fn is_submitted(book: Seq<BucketView>, route_id: Seq<char>, id: u64) -> bool {
    let at = place_of(book, route_id, BridgeVoteKind::Deposit, id, 0);
    at < book.len() && book[at as int].submitted
}

/// The place of a message is the first one that fits.
pub proof fn lemma_place_of(
    book: Seq<BucketView>,
    route_id: Seq<char>,
    kind: BridgeVoteKind,
    id: u64,
    from: nat,
)
    requires
        from <= book.len(),
    ensures
        from <= place_of(book, route_id, kind, id, from) <= book.len(),
        forall|j: int|
            from <= j < place_of(book, route_id, kind, id, from) ==> !(#[trigger] book[j]).is_for(
                route_id,
                kind,
                id,
            ),
        place_of(book, route_id, kind, id, from) < book.len() ==> book[place_of(
            book,
            route_id,
            kind,
            id,
            from,
        ) as int].is_for(route_id, kind, id),
    decreases book.len() - from,
{
    if from < book.len() && !book[from as int].is_for(route_id, kind, id) {
        lemma_place_of(book, route_id, kind, id, from + 1);
    }
}

/// The place found for any route lies in the book or at its end.
proof fn lemma_place_of_any(book: Seq<BucketView>, kind: BridgeVoteKind, id: u64, from: nat)
    requires
        from <= book.len(),
    ensures
        from <= place_of_any(book, kind, id, from) <= book.len(),
    decreases book.len() - from,
{
    if from < book.len() {
        lemma_place_of_any(book, kind, id, from + 1);
    }
}

/// A message stands at one place only, so that one that fits is the one found.
proof fn lemma_place_is_unique(
    book: Seq<BucketView>,
    route_id: Seq<char>,
    kind: BridgeVoteKind,
    id: u64,
    at: int,
)
    requires
        book_wf(book),
        0 <= at < book.len(),
        book[at].is_for(route_id, kind, id),
    ensures
        place_of(book, route_id, kind, id, 0) == at,
{
    lemma_place_of(book, route_id, kind, id, 0);
    let found = place_of(book, route_id, kind, id, 0) as int;
    if found < at {
        assert(book[found].is_for(route_id, kind, id));
        assert(!book[found].is_for(book[at].route_id, book[at].kind, book[at].message_id));
    }
}

/// The place of a vote is the first one of its validator.
pub proof fn lemma_vote_place(votes: Seq<LinkVoteView>, validator: Seq<char>, from: nat)
    requires
        from <= votes.len(),
    ensures
        from <= vote_place(votes, validator, from) <= votes.len(),
        forall|j: int|
            from <= j < vote_place(votes, validator, from) ==> (#[trigger] votes[j]).validator
                != validator,
        vote_place(votes, validator, from) < votes.len() ==> votes[vote_place(
            votes,
            validator,
            from,
        ) as int].validator == validator,
    decreases votes.len() - from,
{
    if from < votes.len() && votes[from as int].validator != validator {
        lemma_vote_place(votes, validator, from + 1);
    }
}

/// One more vote leaves each validator with one vote.
proof fn lemma_with_vote_wf(votes: Seq<LinkVoteView>, vote: LinkVoteView)
    requires
        one_vote_each(votes),
    ensures
        one_vote_each(with_vote(votes, vote)),
{
    lemma_vote_place(votes, vote.validator, 0);
    let now = with_vote(votes, vote);
    let at = vote_place(votes, vote.validator, 0) as int;
    assert forall|i: int, j: int| 0 <= i < j < now.len() implies (#[trigger] now[i]).validator != (
    #[trigger] now[j]).validator by {
        if at < votes.len() {
            assert(now[i].validator == votes[i].validator);
            assert(now[j].validator == votes[j].validator);
        }
    }
}

/// Replacing a message by another state of itself keeps the book in order.
proof fn lemma_update_wf(book: Seq<BucketView>, at: int, b: BucketView)
    requires
        book_wf(book),
        0 <= at < book.len(),
        b.is_for(book[at].route_id, book[at].kind, book[at].message_id),
        one_vote_each(b.votes),
    ensures
        book_wf(book.update(at, b)),
{
    let now = book.update(at, b);
    assert forall|i: int, j: int| 0 <= i < j < now.len() implies !(#[trigger] now[i]).is_for(
        (#[trigger] now[j]).route_id,
        now[j].kind,
        now[j].message_id,
    ) by {
        assert(!book[i].is_for(book[j].route_id, book[j].kind, book[j].message_id));
    }
}

/// Whatever is done to the book, no message stands in it twice and no validator
/// has two votes for one message.
pub proof fn law_book_stays_in_order(book: Seq<BucketView>, step: BookStep)
    requires
        book_wf(book),
    ensures
        book_wf(after_step(book, step)),
{
    match step {
        BookStep::OwnVote { route_id, contract, vote, message } => {
            lemma_place_of(book, route_id, vote.kind, vote.message_id, 0);
            let at = place_of(book, route_id, vote.kind, vote.message_id, 0) as int;
            if at < book.len() {
                lemma_with_vote_wf(book[at].votes, vote);
                lemma_update_wf(book, at, voted(book[at], vote, message));
            } else {
                lemma_with_vote_wf(Seq::empty(), vote);
                let now = after_step(book, step);
                assert forall|i: int, j: int| 0 <= i < j < now.len() implies !(
                #[trigger] now[i]).is_for(
                    (#[trigger] now[j]).route_id,
                    now[j].kind,
                    now[j].message_id,
                ) by {
                    assert(now[i] == book[i]);
                    if j < book.len() {
                        assert(now[j] == book[j]);
                    }
                }
            }
        },
        BookStep::LinkVote { vote } => {
            lemma_place_of_any(book, vote.kind, vote.message_id, 0);
            let at = place_of_any(book, vote.kind, vote.message_id, 0) as int;
            if at < book.len() {
                lemma_with_vote_wf(book[at].votes, vote);
                lemma_update_wf(
                    book,
                    at,
                    BucketView { votes: with_vote(book[at].votes, vote), ..book[at] },
                );
            }
        },
        BookStep::Claim { route_id, id } => {
            lemma_place_of(book, route_id, BridgeVoteKind::Deposit, id, 0);
            let at = place_of(book, route_id, BridgeVoteKind::Deposit, id, 0) as int;
            if claimable(book, route_id, id) {
                lemma_update_wf(book, at, BucketView { submitting: true, ..book[at] });
            }
        },
        BookStep::Finish { route_id, id, done } => {
            lemma_place_of(book, route_id, BridgeVoteKind::Deposit, id, 0);
            let at = place_of(book, route_id, BridgeVoteKind::Deposit, id, 0) as int;
            if at < book.len() {
                lemma_update_wf(
                    book,
                    at,
                    BucketView {
                        submitting: false,
                        submitted: book[at].submitted || done,
                        ..book[at]
                    },
                );
            }
        },
    }
}

/// A step keeps every message at its place and changes at most one of them,
/// whose key, contract, contents once known and confirmation stay.
proof fn lemma_step_keeps(book: Seq<BucketView>, step: BookStep, i: int)
    requires
        0 <= i < book.len(),
    ensures
        i < after_step(book, step).len(),
        after_step(book, step)[i].is_for(book[i].route_id, book[i].kind, book[i].message_id),
        after_step(book, step)[i].inbound_contract == book[i].inbound_contract,
        book[i].message is Some ==> after_step(book, step)[i].message == book[i].message,
        book[i].submitted ==> after_step(book, step)[i].submitted,
{
    match step {
        BookStep::OwnVote { route_id, vote, .. } => lemma_place_of(
            book,
            route_id,
            vote.kind,
            vote.message_id,
            0,
        ),
        BookStep::LinkVote { vote } => lemma_place_of_any(book, vote.kind, vote.message_id, 0),
        BookStep::Claim { route_id, id } => lemma_place_of(
            book,
            route_id,
            BridgeVoteKind::Deposit,
            id,
            0,
        ),
        BookStep::Finish { route_id, id, .. } => lemma_place_of(
            book,
            route_id,
            BridgeVoteKind::Deposit,
            id,
            0,
        ),
    }
}

/// A deposit that was confirmed stays confirmed, whatever is done to the book.
pub proof fn law_submitted_stays_submitted(
    book: Seq<BucketView>,
    step: BookStep,
    route_id: Seq<char>,
    id: u64,
)
    requires
        book_wf(book),
        is_submitted(book, route_id, id),
    ensures
        is_submitted(after_step(book, step), route_id, id),
{
    let at = place_of(book, route_id, BridgeVoteKind::Deposit, id, 0) as int;
    lemma_place_of(book, route_id, BridgeVoteKind::Deposit, id, 0);
    lemma_step_keeps(book, step, at);
    law_book_stays_in_order(book, step);
    lemma_place_is_unique(after_step(book, step), route_id, BridgeVoteKind::Deposit, id, at);
}

/// What a deposit says is settled by the first vote that brings it: no later
/// step changes it.
pub proof fn law_first_message_is_kept(book: Seq<BucketView>, step: BookStep, i: int)
    requires
        0 <= i < book.len(),
        book[i].message is Some,
    ensures
        after_step(book, step)[i].is_for(book[i].route_id, book[i].kind, book[i].message_id),
        after_step(book, step)[i].message == book[i].message,
        after_step(book, step)[i].inbound_contract == book[i].inbound_contract,
{
    lemma_step_keeps(book, step, i);
}

/// A deposit that was confirmed is never taken for submission again.
pub proof fn law_submitted_is_not_claimable(book: Seq<BucketView>, route_id: Seq<char>, id: u64)
    requires
        is_submitted(book, route_id, id),
    ensures
        !claimable(book, route_id, id),
{
}

/// A deposit that is taken for submission cannot be taken a second time before
/// that submission has ended.
pub proof fn law_claims_are_exclusive(book: Seq<BucketView>, route_id: Seq<char>, id: u64)
    requires
        book_wf(book),
    ensures
        !claimable(with_claim(book, route_id, id), route_id, id),
{
    let at = place_of(book, route_id, BridgeVoteKind::Deposit, id, 0) as int;
    lemma_place_of(book, route_id, BridgeVoteKind::Deposit, id, 0);
    if claimable(book, route_id, id) {
        let step = BookStep::Claim { route_id, id };
        lemma_step_keeps(book, step, at);
        law_book_stays_in_order(book, step);
        lemma_place_is_unique(after_step(book, step), route_id, BridgeVoteKind::Deposit, id, at);
    }
}

/// After a submission that the chain took, the deposit is confirmed; after one
/// that failed, it can be taken again.
pub proof fn law_finish_settles_a_claim(
    book: Seq<BucketView>,
    route_id: Seq<char>,
    id: u64,
    done: bool,
)
    requires
        book_wf(book),
        claimable(book, route_id, id),
    ensures
        done ==> is_submitted(
            with_finish(with_claim(book, route_id, id), route_id, id, done),
            route_id,
            id,
        ),
        !done ==> with_finish(with_claim(book, route_id, id), route_id, id, done) == book,
{
    let at = place_of(book, route_id, BridgeVoteKind::Deposit, id, 0) as int;
    lemma_place_of(book, route_id, BridgeVoteKind::Deposit, id, 0);
    let claim = BookStep::Claim { route_id, id };
    let claimed = with_claim(book, route_id, id);
    lemma_step_keeps(book, claim, at);
    law_book_stays_in_order(book, claim);
    lemma_place_is_unique(claimed, route_id, BridgeVoteKind::Deposit, id, at);
    let finish = BookStep::Finish { route_id, id, done };
    let finished = with_finish(claimed, route_id, id, done);
    lemma_step_keeps(claimed, finish, at);
    law_book_stays_in_order(claimed, finish);
    lemma_place_is_unique(finished, route_id, BridgeVoteKind::Deposit, id, at);
    if !done {
        assert(finished[at] == book[at]);
        assert(finished =~= book);
    }
}

/// Every submission comes from a message of the book that is due.
proof fn lemma_submission_source(book: Seq<BucketView>, committee: Committee, k: int) -> (at: int)
    requires
        0 <= k < submissions(book, committee).len(),
    ensures
        0 <= at < book.len(),
        submission_of(book[at], committee) == Some(submissions(book, committee)[k]),
    decreases book.len(),
{
    let rest = submissions(book.drop_last(), committee);
    if k < rest.len() {
        let at = lemma_submission_source(book.drop_last(), committee, k);
        assert(book.drop_last()[at] == book[at]);
        at
    } else {
        book.len() - 1
    }
}

/// A deposit is submitted only if it is free, and, once there are validators
/// that vote, only with the stake of a quorum behind it.
pub proof fn law_submissions_have_a_quorum(book: Seq<BucketView>, committee: Committee, k: int)
    requires
        book_wf(book),
        0 <= k < submissions(book, committee).len(),
    ensures
        claimable(
            book,
            submissions(book, committee)[k].route_id,
            submissions(book, committee)[k].message_id,
        ),
        committee.voting_keys@.len() > 0 ==> vote_power(
            book[place_of(
                book,
                submissions(book, committee)[k].route_id,
                BridgeVoteKind::Deposit,
                submissions(book, committee)[k].message_id,
                0,
            ) as int].votes,
            committee.members@,
        ) >= committee.quorum_threshold,
{
    let s = submissions(book, committee)[k];
    let at = lemma_submission_source(book, committee, k);
    lemma_place_is_unique(book, s.route_id, BridgeVoteKind::Deposit, s.message_id, at);
}

/// A second vote of a validator adds no stake.
pub proof fn law_second_vote_adds_no_power(
    votes: Seq<LinkVoteView>,
    vote: LinkVoteView,
    members: Seq<Authority>,
)
    requires
        exists|i: int| 0 <= i < votes.len() && (#[trigger] votes[i]).validator == vote.validator,
    ensures
        vote_power(with_vote(votes, vote), members) == vote_power(votes, members),
        with_vote(votes, vote).len() == votes.len(),
{
    lemma_vote_place(votes, vote.validator, 0);
    let at = vote_place(votes, vote.validator, 0) as int;
    lemma_power_of_update(votes, at, vote, members);
}

/// Exchanging a vote for another one of the same validator keeps the stake.
proof fn lemma_power_of_update(
    votes: Seq<LinkVoteView>,
    at: int,
    vote: LinkVoteView,
    members: Seq<Authority>,
)
    requires
        0 <= at < votes.len(),
        votes[at].validator == vote.validator,
    ensures
        vote_power(votes.update(at, vote), members) == vote_power(votes, members),
    decreases votes.len(),
{
    let now = votes.update(at, vote);
    if at == votes.len() - 1 {
        assert(now.drop_last() =~= votes.drop_last());
    } else {
        assert(now.drop_last() =~= votes.drop_last().update(at, vote));
        lemma_power_of_update(votes.drop_last(), at, vote, members);
    }
}

/// No deposit is among the submissions twice.
pub proof fn law_submissions_are_distinct(
    book: Seq<BucketView>,
    committee: Committee,
    i: int,
    j: int,
)
    requires
        book_wf(book),
        0 <= i < j < submissions(book, committee).len(),
    ensures
        submissions(book, committee)[i].route_id != submissions(book, committee)[j].route_id
            || submissions(book, committee)[i].message_id != submissions(
            book,
            committee,
        )[j].message_id,
    decreases book.len(),
{
    let front = book.drop_last();
    let rest = submissions(front, committee);
    assert(book_wf(front)) by {
        assert forall|a: int, b: int| 0 <= a < b < front.len() implies !(
        #[trigger] front[a]).is_for(
            (#[trigger] front[b]).route_id,
            front[b].kind,
            front[b].message_id,
        ) by {
            assert(front[a] == book[a] && front[b] == book[b]);
        }
        assert forall|a: int| 0 <= a < front.len() implies one_vote_each(
            (#[trigger] front[a]).votes,
        ) by {
            assert(front[a] == book[a]);
        }
    }
    if j < rest.len() {
        law_submissions_are_distinct(front, committee, i, j);
    } else {
        let at = lemma_submission_source(front, committee, i);
        let last = book.len() - 1;
        assert(front[at] == book[at]);
        assert(!book[at].is_for(book[last].route_id, book[last].kind, book[last].message_id));
    }
}

} // verus!
