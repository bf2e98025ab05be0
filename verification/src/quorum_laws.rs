//! What holds of the votes that are counted and of the deposits that are
//! submitted with them.
use vstd::prelude::*;
use crate::chain::{
    stake_among, Authority, BridgeDepositMessage, Committee, ContractAddress,
};
use crate::events::{BridgeEventKind, BridgeEventLevel};
use crate::evm::processed_text;
use crate::messages::{BridgeLinkVote, BridgeVote, BridgeVoteKind, LinkVoteView, VoteView};
use crate::text::decimal;
use crate::vote_laws::{lemma_place_of, lemma_vote_place};
use crate::votes::{
    claimable, finish_event, one_vote_each, pending_count, place_of, place_of_any, staked_votes,
    submission_of, submissions, vote_place, vote_power, with_claim, with_deposit_vote, with_finish,
    with_link_vote, with_vote, BucketView, SubmitOutcome,
};

verus! {

/// The stake of a key is that of the first validator with the key; a key that no
/// validator has is without stake.
pub proof fn law_stake_is_of_the_key(members: Seq<Authority>, key: Seq<char>, i: int)
    requires
        0 <= i < members.len(),
    ensures
        stake_among(members, key) > 0 ==> exists|k: int|
            0 <= k < members.len() && (#[trigger] members[k]).public_key@ == key
                && members[k].stake == stake_among(members, key),
        members[i].public_key@ == key && (forall|j: int|
            0 <= j < i ==> (#[trigger] members[j]).public_key@ != key) ==> stake_among(members, key)
            == members[i].stake,
        (forall|j: int| 0 <= j < members.len() ==> (#[trigger] members[j]).public_key@ != key)
            ==> stake_among(members, key) == 0,
    decreases members.len(),
{
    let rest = members.drop_first();
    assert forall|j: int| 0 < j < members.len() implies members[j] == rest[j - 1] by {}
    if members[0].public_key@ == key {
        assert(members[0].stake == stake_among(members, key));
    } else if rest.len() > 0 {
        let at = if i > 0 {
            i - 1
        } else {
            0
        };
        law_stake_is_of_the_key(rest, key, at);
        if stake_among(rest, key) > 0 {
            let k = choose|k: int|
                0 <= k < rest.len() && (#[trigger] rest[k]).public_key@ == key && rest[k].stake
                    == stake_among(rest, key);
            assert(members[k + 1] == rest[k]);
        }
        if members[i].public_key@ == key && (forall|j: int|
            0 <= j < i ==> (#[trigger] members[j]).public_key@ != key) {
            assert forall|j: int| 0 <= j < i - 1 implies (#[trigger] rest[j]).public_key@
                != key by {
                assert(rest[j] == members[j + 1]);
            }
        }
        if forall|j: int| 0 <= j < members.len() ==> (#[trigger] members[j]).public_key@ != key {
            assert forall|j: int| 0 <= j < rest.len() implies (#[trigger] rest[j]).public_key@
                != key by {
                assert(rest[j] == members[j + 1]);
            }
        }
    }
}

/// The votes with stake are those of the votes whose validator has stake.
proof fn lemma_staked_votes(votes: Seq<LinkVoteView>, members: Seq<Authority>)
    ensures
        forall|k: int|
            0 <= k < staked_votes(votes, members).len() ==> exists|i: int|
                0 <= i < votes.len() && (#[trigger] votes[i]).validator == (
                #[trigger] staked_votes(votes, members)[k]).validator && votes[i].signature
                    == staked_votes(votes, members)[k].signature && stake_among(
                    members,
                    votes[i].validator,
                ) > 0,
        forall|i: int|
            0 <= i < votes.len() && stake_among(members, (#[trigger] votes[i]).validator) > 0
                ==> exists|k: int|
                0 <= k < staked_votes(votes, members).len() && (#[trigger] staked_votes(
                    votes,
                    members,
                )[k]).validator == votes[i].validator && staked_votes(votes, members)[k].signature
                    == votes[i].signature,
    decreases votes.len(),
{
    if votes.len() > 0 {
        let front = votes.drop_last();
        let rest = staked_votes(front, members);
        let all = staked_votes(votes, members);
        lemma_staked_votes(front, members);
        assert forall|k: int| 0 <= k < all.len() implies exists|i: int|
            0 <= i < votes.len() && (#[trigger] votes[i]).validator == (#[trigger] all[k]).validator
                && votes[i].signature == all[k].signature && stake_among(
                members,
                votes[i].validator,
            ) > 0 by {
            if k < rest.len() {
                assert(all[k] == rest[k]);
                let i = choose|i: int|
                    0 <= i < front.len() && (#[trigger] front[i]).validator == rest[k].validator
                        && front[i].signature == rest[k].signature && stake_among(
                        members,
                        front[i].validator,
                    ) > 0;
                assert(votes[i] == front[i]);
            } else {
                assert(votes[votes.len() - 1] == votes.last());
            }
        }
        assert forall|i: int|
            0 <= i < votes.len() && stake_among(members, (#[trigger] votes[i]).validator)
                > 0 implies exists|k: int|
            0 <= k < all.len() && (#[trigger] all[k]).validator == votes[i].validator
                && all[k].signature == votes[i].signature by {
            if i < front.len() {
                assert(votes[i] == front[i]);
                let k = choose|k: int|
                    0 <= k < rest.len() && (#[trigger] rest[k]).validator == front[i].validator
                        && rest[k].signature == front[i].signature;
                assert(all[k] == rest[k]);
            } else {
                assert(all[all.len() - 1].validator == votes[i].validator);
            }
        }
    }
}

/// A deposit is submitted with the votes of its own validators: each vote of the
/// submission is, validator and signature, a vote for the deposit of a validator
/// with stake, and every such vote is among them. While nobody votes it is
/// submitted without votes.
pub proof fn law_submission_votes_are_the_staked_votes(
    b: BucketView,
    committee: Committee,
    k: int,
    i: int,
)
    requires
        submission_of(b, committee) is Some,
    ensures
        committee.voting_keys@.len() == 0 ==> submission_of(b, committee)->0.votes.len() == 0,
        committee.voting_keys@.len() > 0 && 0 <= k < submission_of(b, committee)->0.votes.len()
            ==> exists|j: int|
            0 <= j < b.votes.len() && (#[trigger] b.votes[j]).validator == submission_of(
                b,
                committee,
            )->0.votes[k].validator && b.votes[j].signature == submission_of(
                b,
                committee,
            )->0.votes[k].signature && stake_among(committee.members@, b.votes[j].validator) > 0,
        committee.voting_keys@.len() > 0 && 0 <= i < b.votes.len() && stake_among(
            committee.members@,
            b.votes[i].validator,
        ) > 0 ==> exists|j: int|
            0 <= j < submission_of(b, committee)->0.votes.len() && (#[trigger] submission_of(
                b,
                committee,
            )->0.votes[j]).validator == b.votes[i].validator && submission_of(
                b,
                committee,
            )->0.votes[j].signature == b.votes[i].signature,
{
    let votes = submission_of(b, committee)->0.votes;
    let members = committee.members@;
    lemma_staked_votes(b.votes, members);
    if committee.voting_keys@.len() > 0 {
        assert(votes == staked_votes(b.votes, members));
        if 0 <= k < votes.len() {
            assert(votes[k] == staked_votes(b.votes, members)[k]);
        }
        if 0 <= i < b.votes.len() && stake_among(members, b.votes[i].validator) > 0 {
            let j = choose|j: int|
                0 <= j < staked_votes(b.votes, members).len() && (#[trigger] staked_votes(
                    b.votes,
                    members,
                )[j]).validator == b.votes[i].validator && staked_votes(
                    b.votes,
                    members,
                )[j].signature == b.votes[i].signature;
            assert(votes[j].validator == b.votes[i].validator);
        }
    }
}

/// Where no validator voted twice, none is in a submission twice.
pub proof fn law_submission_names_a_validator_once(b: BucketView, committee: Committee)
    requires
        submission_of(b, committee) is Some,
        one_vote_each(b.votes),
    ensures
        forall|i: int, j: int|
            0 <= i < j < submission_of(b, committee)->0.votes.len() ==> (
            #[trigger] submission_of(b, committee)->0.votes[i]).validator != (
            #[trigger] submission_of(b, committee)->0.votes[j]).validator,
{
    lemma_staked_once(b.votes, committee.members@);
}

/// Where no validator voted twice, none is among those with stake twice.
proof fn lemma_staked_once(votes: Seq<LinkVoteView>, members: Seq<Authority>)
    requires
        one_vote_each(votes),
    ensures
        forall|i: int, j: int|
            0 <= i < j < staked_votes(votes, members).len() ==> (#[trigger] staked_votes(
                votes,
                members,
            )[i]).validator != (#[trigger] staked_votes(votes, members)[j]).validator,
    decreases votes.len(),
{
    if votes.len() > 0 {
        let front = votes.drop_last();
        let rest = staked_votes(front, members);
        let all = staked_votes(votes, members);
        assert(one_vote_each(front)) by {
            assert forall|i: int, j: int| 0 <= i < j < front.len() implies (
            #[trigger] front[i]).validator != (#[trigger] front[j]).validator by {
                assert(front[i] == votes[i] && front[j] == votes[j]);
            }
        }
        lemma_staked_once(front, members);
        lemma_staked_votes(front, members);
        assert forall|i: int, j: int| 0 <= i < j < all.len() implies (#[trigger] all[i]).validator
            != (#[trigger] all[j]).validator by {
            assert(all[i] == rest[i]);
            if j < rest.len() {
                assert(all[j] == rest[j]);
            } else {
                let k = choose|k: int|
                    0 <= k < front.len() && (#[trigger] front[k]).validator == rest[i].validator
                        && front[k].signature == rest[i].signature && stake_among(
                        members,
                        front[k].validator,
                    ) > 0;
                assert(votes[k] == front[k]);
                assert(votes[votes.len() - 1] == votes.last());
            }
        }
    }
}

/// The stake behind the votes of a submission.
pub open spec fn stake_behind(votes: Seq<VoteView>, members: Seq<Authority>) -> nat
    decreases votes.len(),
{
    if votes.len() == 0 {
        0
    } else {
        stake_behind(votes.drop_last(), members) + stake_among(
            members,
            votes.last().validator,
        ) as nat
    }
}

/// What has no stake does not count.
proof fn lemma_power_is_staked(votes: Seq<LinkVoteView>, members: Seq<Authority>)
    ensures
        stake_behind(staked_votes(votes, members), members) == vote_power(votes, members),
    decreases votes.len(),
{
    if votes.len() > 0 {
        lemma_power_is_staked(votes.drop_last(), members);
        let rest = staked_votes(votes.drop_last(), members);
        let all = staked_votes(votes, members);
        if stake_among(members, votes.last().validator) > 0 {
            assert(all.drop_last() =~= rest);
        }
    }
}

/// While someone votes, the validators in a submission have the stake of a
/// quorum between them.
pub proof fn law_submission_carries_a_quorum(b: BucketView, committee: Committee)
    requires
        submission_of(b, committee) is Some,
        committee.voting_keys@.len() > 0,
    ensures
        stake_behind(submission_of(b, committee)->0.votes, committee.members@)
            >= committee.quorum_threshold,
{
    lemma_power_is_staked(b.votes, committee.members@);
}

/// The stake of some votes is the sum of the stakes of their validators: none
/// without votes, and one vote more adds the stake of its validator.
pub proof fn law_power_is_the_sum_of_stakes(
    votes: Seq<LinkVoteView>,
    members: Seq<Authority>,
    vote: LinkVoteView,
)
    ensures
        vote_power(Seq::empty(), members) == 0,
        vote_power(votes.push(vote), members) == vote_power(votes, members) + stake_among(
            members,
            vote.validator,
        ),
{
    assert(votes.push(vote).drop_last() =~= votes);
}

/// A submission tells of its deposit: route, contract, number and message are
/// those of a message of the book that waits.
pub proof fn law_submission_is_of_its_deposit(b: BucketView, committee: Committee)
    ensures
        submission_of(b, committee) matches Some(s) ==> {
            &&& b.kind == BridgeVoteKind::Deposit
            &&& !b.submitted
            &&& !b.submitting
            &&& b.message == Some(s.message)
            &&& s.route_id == b.route_id
            &&& s.contract == b.inbound_contract
            &&& s.message_id == b.message_id
            &&& s.detail == (if committee.voting_keys@.len() == 0 {
                "submitting confirm_dep (testing)"@
            } else {
                "submitting confirm_dep with "@ + decimal(s.votes.len()) + " vote(s)"@
            })
        },
        b.kind == BridgeVoteKind::Deposit && !b.submitted && !b.submitting && b.message is Some && (
        committee.voting_keys@.len() == 0 || vote_power(b.votes, committee.members@)
            >= committee.quorum_threshold) ==> submission_of(b, committee) is Some,
{
}

/// Every deposit that waits with a quorum behind it is submitted, and nothing
/// else is: the submissions of a book are those of its messages, in their order.
pub proof fn law_submissions_are_complete(book: Seq<BucketView>, committee: Committee)
    ensures
        forall|i: int|
            0 <= i < book.len() && submission_of(#[trigger] book[i], committee) is Some
                ==> submissions(book, committee).contains(submission_of(book[i], committee)->0),
        forall|k: int|
            0 <= k < submissions(book, committee).len() ==> exists|i: int|
                0 <= i < book.len() && submission_of(#[trigger] book[i], committee) == Some(
                    #[trigger] submissions(book, committee)[k],
                ),
        submissions(book, committee).len() <= book.len(),
    decreases book.len(),
{
    if book.len() > 0 {
        let front = book.drop_last();
        law_submissions_are_complete(front, committee);
        let rest = submissions(front, committee);
        let all = submissions(book, committee);
        assert forall|i: int|
            0 <= i < book.len() && submission_of(
                #[trigger] book[i],
                committee,
            ) is Some implies all.contains(submission_of(book[i], committee)->0) by {
            if i < front.len() {
                assert(front[i] == book[i]);
                let k = rest.index_of(submission_of(book[i], committee)->0);
                assert(all[k] == rest[k]);
            } else {
                assert(all[all.len() - 1] == submission_of(book[i], committee)->0);
            }
        }
        assert forall|k: int| 0 <= k < all.len() implies exists|i: int|
            0 <= i < book.len() && submission_of(#[trigger] book[i], committee) == Some(
                #[trigger] all[k],
            ) by {
            if k < rest.len() {
                assert(all[k] == rest[k]);
                let i = choose|i: int|
                    0 <= i < front.len() && submission_of(#[trigger] front[i], committee) == Some(
                        rest[k],
                    );
                assert(book[i] == front[i]);
            } else {
                assert(book[book.len() - 1] == book.last());
            }
        }
    }
}

/// The validators with stake take turns of two hundred seconds, in the order of
/// their keys: the one that leads keeps the lead for its turn, hands it to the
/// next one, and there is no other leader. While none has stake everyone leads.
pub proof fn law_the_lead_goes_round(committee: Committee, now_secs: u64, i: int, later: u64)
    requires
        committee.voting_keys@.len() > 0,
        0 <= i < committee.voting_keys@.len(),
        now_secs / 200 <= usize::MAX,
        later / 200 <= usize::MAX,
        i == (now_secs as int / 200) % (committee.voting_keys@.len() as int),
    ensures
        forall|name: Seq<char>| #[trigger]
            committee.leads(name, now_secs) == (name == committee.voting_keys@[i]@),
        later / 200 == now_secs / 200 ==> committee.leads(committee.voting_keys@[i]@, later),
        later / 200 == now_secs / 200 + 1 ==> committee.leads(
            committee.voting_keys@[(i + 1) % (committee.voting_keys@.len() as int)]@,
            later,
        ),
{
    let n = committee.voting_keys@.len() as int;
    let q = now_secs as int / 200;
    assert((q + 1) % n == (q % n + 1) % n) by {
        vstd::arithmetic::div_mod::lemma_add_mod_noop(q, 1, n);
        if n > 1 {
            assert(1int % n == 1) by {
                vstd::arithmetic::div_mod::lemma_small_mod(1, n as nat);
            }
        } else {
            assert((q + 1) % 1 == 0 && (q % 1 + 1) % 1 == 0);
        }
    }
}

/// Everyone leads while no validator has stake.
pub proof fn law_everyone_leads_without_voters(
    committee: Committee,
    name: Seq<char>,
    now_secs: u64,
)
    requires
        committee.voting_keys@.len() == 0,
    ensures
        committee.leads(name, now_secs),
{
}

/// A vote that is added is among the votes; it takes the place of an earlier one
/// of its validator and leaves those of all others.
pub proof fn law_added_vote_is_kept(votes: Seq<LinkVoteView>, vote: LinkVoteView)
    requires
        one_vote_each(votes),
    ensures
        with_vote(votes, vote).contains(vote),
        forall|i: int|
            0 <= i < votes.len() && (#[trigger] votes[i]).validator != vote.validator
                ==> with_vote(votes, vote).contains(votes[i]),
        forall|k: int|
            0 <= k < with_vote(votes, vote).len() ==> (#[trigger] with_vote(votes, vote)[k]) == vote
                || with_vote(votes, vote)[k].validator != vote.validator && votes.contains(
                with_vote(votes, vote)[k],
            ),
{
    lemma_vote_place(votes, vote.validator, 0);
    let at = vote_place(votes, vote.validator, 0) as int;
    let now = with_vote(votes, vote);
    assert(now[at] == vote);
    assert forall|i: int|
        0 <= i < votes.len() && (#[trigger] votes[i]).validator
            != vote.validator implies now.contains(votes[i]) by {
        assert(now[i] == votes[i]);
    }
    assert forall|k: int| 0 <= k < now.len() implies (#[trigger] now[k]) == vote
        || now[k].validator != vote.validator && votes.contains(now[k]) by {
        if k != at {
            assert(now[k] == votes[k]);
            if at < votes.len() {
                assert(votes[at].validator == vote.validator);
            }
        }
    }
}

/// A vote of another validator goes to the first message with its kind and
/// number, and changes nothing but the votes for that message; where the book
/// has no such message the vote is dropped.
pub proof fn law_link_vote_goes_to_its_message(book: Seq<BucketView>, vote: LinkVoteView, at: int)
    requires
        0 <= at <= book.len(),
        forall|j: int|
            0 <= j < at ==> (#[trigger] book[j]).kind != vote.kind || book[j].message_id
                != vote.message_id,
        at < book.len() ==> book[at].kind == vote.kind && book[at].message_id == vote.message_id,
    ensures
        at == book.len() ==> with_link_vote(book, vote) == book,
        at < book.len() ==> {
            let now = with_link_vote(book, vote);
            &&& now.len() == book.len()
            &&& forall|j: int| 0 <= j < book.len() && j != at ==> #[trigger] now[j] == book[j]
            &&& now[at] == (BucketView { votes: with_vote(book[at].votes, vote), ..book[at] })
        },
{
    lemma_first_any(book, vote.kind, vote.message_id, 0, at);
}

/// The place that is found is the first one that fits.
proof fn lemma_first_any(
    book: Seq<BucketView>,
    kind: BridgeVoteKind,
    id: u64,
    from: nat,
    at: int,
)
    requires
        from <= at <= book.len(),
        forall|j: int|
            from <= j < at ==> (#[trigger] book[j]).kind != kind || book[j].message_id != id,
        at < book.len() ==> book[at].kind == kind && book[at].message_id == id,
    ensures
        place_of_any(book, kind, id, from) == at,
    decreases at - from,
{
    if from < at {
        assert(book[from as int].kind != kind || book[from as int].message_id != id);
        lemma_first_any(book, kind, id, from + 1, at);
    }
}

/// After this validator's own vote the book has the deposit of the route, with
/// the vote and with what the deposit says; a deposit that is new stands at the
/// end, for its contract and not submitted.
pub proof fn law_own_vote_is_booked(
    book: Seq<BucketView>,
    route_id: Seq<char>,
    contract: ContractAddress,
    vote: LinkVoteView,
    message: BridgeDepositMessage,
)
    ensures
        ({
            let now = with_deposit_vote(book, route_id, contract, vote, message);
            let known = exists|j: int|
                0 <= j < book.len() && (#[trigger] book[j]).route_id == route_id && book[j].kind
                    == vote.kind && book[j].message_id == vote.message_id;
            &&& exists|i: int|
                0 <= i < now.len() && (#[trigger] now[i]).route_id == route_id && now[i].kind
                    == vote.kind && now[i].message_id == vote.message_id && now[i].votes.contains(
                    vote,
                ) && now[i].message is Some
            &&& known ==> now.len() == book.len()
            &&& !known ==> {
                &&& now.len() == book.len() + 1
                &&& now.last().route_id == route_id
                &&& now.last().kind == vote.kind
                &&& now.last().message_id == vote.message_id
                &&& now.last().inbound_contract == contract
                &&& now.last().message == Some(message)
                &&& now.last().votes == seq![vote]
                &&& !now.last().submitted
                &&& !now.last().submitting
            }
        }),
{
    let at = place_of(book, route_id, vote.kind, vote.message_id, 0) as int;
    lemma_place_of(book, route_id, vote.kind, vote.message_id, 0);
    let now = with_deposit_vote(book, route_id, contract, vote, message);
    let old_votes = if at < book.len() {
        book[at].votes
    } else {
        Seq::empty()
    };
    lemma_vote_place(old_votes, vote.validator, 0);
    assert(now[at].votes[vote_place(old_votes, vote.validator, 0) as int] == vote);
    if at < book.len() {
        assert(book[at].route_id == route_id);
    } else {
        assert(now.last().votes =~= seq![vote]);
        assert forall|j: int| 0 <= j < book.len() implies !((#[trigger] book[j]).route_id
            == route_id && book[j].kind == vote.kind && book[j].message_id == vote.message_id) by {
            assert(!book[j].is_for(route_id, vote.kind, vote.message_id));
        }
    }
}

/// A step that is about one deposit leaves every other message as it is.
pub proof fn law_steps_leave_other_messages(
    book: Seq<BucketView>,
    route_id: Seq<char>,
    id: u64,
    done: bool,
    contract: ContractAddress,
    vote: LinkVoteView,
    message: BridgeDepositMessage,
    j: int,
)
    requires
        0 <= j < book.len(),
        book[j].route_id != route_id || book[j].message_id != id || book[j].kind
            != BridgeVoteKind::Deposit,
        vote.kind == BridgeVoteKind::Deposit,
        vote.message_id == id,
    ensures
        with_claim(book, route_id, id)[j] == book[j],
        with_finish(book, route_id, id, done)[j] == book[j],
        with_deposit_vote(book, route_id, contract, vote, message)[j] == book[j],
{
    lemma_place_of(book, route_id, BridgeVoteKind::Deposit, id, 0);
}

/// A deposit can be taken for submission if and only if the book has it and it
/// is neither submitted nor taken; taking it marks it and nothing more.
pub proof fn law_claim_marks_the_deposit(
    book: Seq<BucketView>,
    route_id: Seq<char>,
    id: u64,
    at: int,
)
    requires
        0 <= at < book.len(),
        book[at].route_id == route_id,
        book[at].kind == BridgeVoteKind::Deposit,
        book[at].message_id == id,
        forall|j: int|
            0 <= j < at ==> (#[trigger] book[j]).route_id != route_id || book[j].kind
                != BridgeVoteKind::Deposit || book[j].message_id != id,
    ensures
        claimable(book, route_id, id) == (!book[at].submitted && !book[at].submitting),
        claimable(book, route_id, id) ==> with_claim(book, route_id, id)[at] == (BucketView {
            submitting: true,
            ..book[at]
        }),
        !claimable(book, route_id, id) ==> with_claim(book, route_id, id) == book,
        with_finish(book, route_id, id, true)[at] == (BucketView {
            submitted: true,
            submitting: false,
            ..book[at]
        }),
        with_finish(book, route_id, id, false)[at] == (BucketView {
            submitting: false,
            ..book[at]
        }),
{
    lemma_place_of(book, route_id, BridgeVoteKind::Deposit, id, 0);
    let found = place_of(book, route_id, BridgeVoteKind::Deposit, id, 0) as int;
    assert(book[at].is_for(route_id, BridgeVoteKind::Deposit, id));
    if found < at {
        assert(book[found].is_for(route_id, BridgeVoteKind::Deposit, id));
    }
    assert(found == at);
}

/// The deposits of a route that are not submitted are counted one by one.
pub proof fn law_pending_deposits_are_counted(
    book: Seq<BucketView>,
    route_id: Seq<char>,
    b: BucketView,
)
    ensures
        pending_count(Seq::empty(), route_id) == 0,
        pending_count(book.push(b), route_id) == pending_count(book, route_id) + (if b.route_id
            == route_id && b.kind == BridgeVoteKind::Deposit && !b.submitted {
            1int
        } else {
            0
        }),
{
    assert(book.push(b).drop_last() =~= book);
}

/// The end of a submission is reported for what it is: as confirmed where the
/// chain took the deposit or has it already, else as failed, with what the chain
/// said; always for the route, the number and the amount of the deposit.
pub proof fn law_end_of_submission_is_reported(
    route_id: Seq<char>,
    message_id: u64,
    token: ContractAddress,
    amount: u64,
    outcome: SubmitOutcome,
    detail_ok: Seq<char>,
)
    ensures
        ({
            let e = finish_event(route_id, message_id, token, amount, outcome, detail_ok);
            &&& e.route_id == route_id
            &&& e.message_id == Some(message_id)
            &&& e.amount == Some(amount)
            &&& e.token == Some(token.text())
            &&& (e.kind == BridgeEventKind::ConfirmDepOk) == outcome.done()
            &&& (e.kind == BridgeEventKind::ConfirmDepFailed) == !outcome.done()
            &&& (e.level == BridgeEventLevel::Error) == !outcome.done()
            &&& outcome is Confirmed ==> outcome.done() && e.detail == detail_ok
            &&& outcome matches SubmitOutcome::Refused(detail) ==> {
                &&& outcome.done() == processed_text(detail@)
                &&& !outcome.done() ==> e.detail == detail@
            }
        }),
{
}

/// Messages carry the epoch of the committee, or zero while no committee is
/// known.
pub proof fn law_messages_carry_the_epoch(committee: Committee)
    ensures
        committee.members@.len() == 0 ==> committee.epoch_number() == 0,
        committee.members@.len() > 0 && committee.epoch <= u64::MAX ==> committee.epoch_number()
            == committee.epoch,
{
}

/// Votes are counted and handed on as they were cast.
pub proof fn law_votes_are_seen_as_cast(cast: BridgeLinkVote, vote: BridgeVote)
    ensures
        cast@.kind == cast.kind,
        cast@.message_id == cast.message_id,
        cast@.digest == cast.digest@,
        cast@.epoch == cast.epoch,
        cast@.validator == cast.validator@,
        cast@.signature == cast.signature@,
        vote@.validator == vote.validator@,
        vote@.signature == vote.signature@,
{
}

} // verus!
