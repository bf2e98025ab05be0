use lightpool_bridge::chain::{Authority, BridgeDepositMessage, Committee, ContractAddress, PublicKey};
use lightpool_bridge::events::{BridgeEventKind, BridgeEventLevel};
use lightpool_bridge::messages::{BridgeLinkVote, BridgeVoteKind};
use lightpool_bridge::votes::{SubmitOutcome, VoteBook};

fn key(name: &str) -> PublicKey {
    PublicKey { encoded: name.to_string() }
}

fn contract() -> ContractAddress {
    ContractAddress { bytes: [8, 0, 0, 0, 0, 0, 0, 1] }
}

fn message(id: u64, amount: u64) -> BridgeDepositMessage {
    BridgeDepositMessage {
        lane_index: 0,
        message_id: id,
        source_chain_id: 1337,
        token: ContractAddress { bytes: [2, 0, 0, 0, 0, 0, 0, 9] },
        amount,
        sender_foreign: [1; 20],
        recipient: [2; 20],
        source_tx_hash: [3; 32],
        source_block: 4,
        epoch: 5,
    }
}

fn vote(id: u64, validator: &str, mark: u8) -> BridgeLinkVote {
    BridgeLinkVote::from_deposit(&message(id, 1), key(validator), vec![mark], vec![mark; 4])
}

fn committee(stakes: &[(&str, u64)], threshold: u64) -> Committee {
    Committee {
        epoch: 5,
        members: stakes
            .iter()
            .map(|(name, stake)| Authority {
                public_key: key(name),
                eth_address: [0; 20],
                stake: *stake,
            })
            .collect(),
        voting_keys: stakes.iter().map(|(name, _)| key(name)).collect(),
        quorum_threshold: threshold,
    }
}

#[test]
fn votes_carry_the_message() {
    let v = vote(7, "a", 9);
    assert_eq!(v.kind, BridgeVoteKind::Deposit);
    assert_eq!((v.message_id, v.epoch), (7, 5));
    assert_eq!(v.digest, vec![9]);
    let b = v.into_bridge_vote();
    assert_eq!((b.validator, b.signature), (key("a"), vec![9; 4]));
}

#[test]
fn deposit_is_submitted_with_a_quorum_only() {
    let c = committee(&[("a", 40), ("b", 30), ("c", 30)], 67);
    let mut book = VoteBook::new();
    book.ingest_deposit_vote("r", contract(), vote(1, "a", 1), message(1, 10));
    assert!(book.try_submit_deposits(&c, &key("a"), 0).is_empty());
    book.ingest_vote(vote(1, "x", 2));
    assert!(book.try_submit_deposits(&c, &key("a"), 0).is_empty());
    book.ingest_vote(vote(1, "b", 3));
    let due = book.try_submit_deposits(&c, &key("a"), 0);
    assert_eq!(due.len(), 1);
    assert_eq!(due[0].route_id, "r");
    assert_eq!(due[0].message, message(1, 10));
    assert_eq!(due[0].contract, contract());
    assert_eq!(due[0].detail, "submitting confirm_dep with 2 vote(s)");
    let voters: Vec<&str> = due[0].votes.iter().map(|v| v.validator.encoded.as_str()).collect();
    assert_eq!(voters, vec!["a", "b"]);
}

#[test]
fn second_vote_replaces_the_first() {
    let c = committee(&[("a", 40), ("b", 60)], 80);
    let mut book = VoteBook::new();
    book.ingest_deposit_vote("r", contract(), vote(1, "a", 1), message(1, 10));
    book.ingest_vote(vote(1, "a", 2));
    assert_eq!(book.buckets[0].votes.len(), 1);
    assert_eq!(book.buckets[0].votes[0].signature, vec![2; 4]);
    assert!(book.try_submit_deposits(&c, &key("a"), 0).is_empty());
}

#[test]
fn first_message_is_kept() {
    let mut book = VoteBook::new();
    book.ingest_deposit_vote("r", contract(), vote(1, "a", 1), message(1, 10));
    book.ingest_deposit_vote("r", contract(), vote(1, "b", 1), message(1, 999));
    assert_eq!(book.buckets.len(), 1);
    assert_eq!(book.buckets[0].message, Some(message(1, 10)));
}

#[test]
fn votes_for_unknown_messages_are_dropped() {
    let mut book = VoteBook::new();
    book.ingest_vote(vote(1, "a", 1));
    assert!(book.buckets.is_empty());
    book.ingest_deposit_vote("r", contract(), vote(1, "a", 1), message(1, 10));
    let mut other = vote(1, "b", 1);
    other.kind = BridgeVoteKind::WithdrawRequest;
    book.ingest_vote(other);
    assert_eq!(book.buckets[0].votes.len(), 1);
}

#[test]
fn only_the_leader_submits() {
    let c = committee(&[("a", 50), ("b", 50)], 1);
    let mut book = VoteBook::new();
    book.ingest_deposit_vote("r", contract(), vote(1, "a", 1), message(1, 10));
    for (secs, leader) in [(0, "a"), (199, "a"), (200, "b"), (399, "b"), (400, "a")] {
        for name in ["a", "b"] {
            assert_eq!(c.is_leader(&key(name), secs), name == leader);
            let due = book.try_submit_deposits(&c, &key(name), secs);
            assert_eq!(due.len(), usize::from(name == leader));
        }
    }
}

#[test]
fn without_voters_every_deposit_is_due() {
    let c = committee(&[], 100);
    let mut book = VoteBook::new();
    book.ingest_deposit_vote("r", contract(), vote(1, "a", 1), message(1, 10));
    book.ingest_deposit_vote("s", contract(), vote(2, "a", 1), message(2, 20));
    assert!(c.is_leader(&key("anyone"), 12345));
    let due = book.try_submit_deposits(&c, &key("anyone"), 12345);
    assert_eq!(due.len(), 2);
    assert!(due[0].votes.is_empty());
    assert_eq!(due[1].detail, "submitting confirm_dep (testing)");
}

#[test]
fn stakes_beyond_the_range_count_as_the_largest() {
    let c = committee(&[("a", u64::MAX), ("b", u64::MAX)], u64::MAX);
    let mut book = VoteBook::new();
    book.ingest_deposit_vote("r", contract(), vote(1, "a", 1), message(1, 10));
    book.ingest_vote(vote(1, "b", 1));
    assert_eq!(book.try_submit_deposits(&c, &key("a"), 0).len(), 1);
    assert_eq!(c.stake(&key("a")), u64::MAX);
    assert_eq!(c.stake(&key("z")), 0);
}

#[test]
fn claims_are_exclusive_until_they_end() {
    let c = committee(&[], 0);
    let mut book = VoteBook::new();
    book.ingest_deposit_vote("r", contract(), vote(1, "a", 1), message(1, 10));
    assert!(!book.claim_deposit_submit("other", 1));
    assert!(!book.claim_deposit_submit("r", 2));
    assert!(book.claim_deposit_submit("r", 1));
    assert!(!book.claim_deposit_submit("r", 1));
    assert!(book.try_submit_deposits(&c, &key("a"), 0).is_empty());
    let token = message(1, 10).token;
    let failed = book.finish_deposit_submit(
        "r", 1, token, 10, &SubmitOutcome::Refused("boom".to_string()), "confirm_dep ok",
    );
    assert_eq!(failed.kind, BridgeEventKind::ConfirmDepFailed);
    assert_eq!(failed.level, BridgeEventLevel::Error);
    assert_eq!(failed.detail, "boom");
    assert_eq!(failed.token.as_deref(), Some("0x0200000000000009"));
    assert_eq!((failed.message_id, failed.amount), (Some(1), Some(10)));
    assert_eq!(book.pending_deposits("r"), 1);
    assert!(book.claim_deposit_submit("r", 1));
    let ok = book.finish_deposit_submit(
        "r", 1, token, 10, &SubmitOutcome::Confirmed, "confirm_dep ok",
    );
    assert_eq!((ok.kind, ok.detail.as_str()), (BridgeEventKind::ConfirmDepOk, "confirm_dep ok"));
    assert!(!book.claim_deposit_submit("r", 1));
    assert_eq!(book.pending_deposits("r"), 0);
    assert!(book.try_submit_deposits(&c, &key("a"), 0).is_empty());
}

#[test]
fn deposit_that_was_processed_before_counts_as_confirmed() {
    let mut book = VoteBook::new();
    book.ingest_deposit_vote("r", contract(), vote(1, "a", 1), message(1, 10));
    assert!(book.claim_deposit_submit("r", 1));
    let event = book.finish_deposit_submit(
        "r",
        1,
        message(1, 10).token,
        10,
        &SubmitOutcome::Refused("deposit Already Processed".to_string()),
        "confirm_dep ok",
    );
    assert_eq!(event.kind, BridgeEventKind::ConfirmDepOk);
    assert_eq!(event.level, BridgeEventLevel::Info);
    assert_eq!(event.detail, "confirm_dep already processed");
    assert!(!book.claim_deposit_submit("r", 1));
    // A later failure does not undo it.
    book.finish_deposit_submit(
        "r", 1, message(1, 10).token, 10, &SubmitOutcome::Refused("x".to_string()), "",
    );
    assert!(book.buckets[0].submitted);
}

#[test]
fn submission_is_announced() {
    let mut book = VoteBook::new();
    book.ingest_deposit_vote("r", contract(), vote(1, "a", 1), message(1, 10));
    let due = book.try_submit_deposits(&committee(&[], 0), &key("a"), 0);
    let event = due[0].begin_event();
    assert_eq!(event.kind, BridgeEventKind::ConfirmDepSubmitted);
    assert_eq!(event.route_id, "r");
    assert_eq!(event.token.as_deref(), Some("0x0200000000000009"));
    assert_eq!((event.message_id, event.amount), (Some(1), Some(10)));
}
