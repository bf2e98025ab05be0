//! Votes of validators.
use vstd::prelude::*;
use crate::chain::{BridgeDepositMessage, PublicKey};

verus! {

/// What a vote is about.
#[derive(Clone, Copy, Debug, PartialEq, Eq, Hash, Structural)]
pub enum BridgeVoteKind {
    Deposit,
    WithdrawRequest,
    WithdrawCancel,
    CommitteeUpdate,
}

/// A vote on its way between validators.
#[derive(Clone, Debug, PartialEq, Eq)]
pub struct BridgeLinkVote {
    pub kind: BridgeVoteKind,
    pub message_id: u64,
    /// The digest that was signed.
    pub digest: Vec<u8>,
    pub epoch: u64,
    pub validator: PublicKey,
    pub signature: Vec<u8>,
}

/// A vote as the contracts take it.
#[derive(Clone, Debug, PartialEq, Eq)]
pub struct BridgeVote {
    pub validator: PublicKey,
    pub signature: Vec<u8>,
}

/// A [`BridgeLinkVote`] as sequences.
#[verifier::ext_equal]
pub struct LinkVoteView {
    pub kind: BridgeVoteKind,
    pub message_id: u64,
    pub digest: Seq<u8>,
    pub epoch: u64,
    pub validator: Seq<char>,
    pub signature: Seq<u8>,
}

/// A [`BridgeVote`] as sequences.
#[verifier::ext_equal]
pub struct VoteView {
    pub validator: Seq<char>,
    pub signature: Seq<u8>,
}

impl View for BridgeLinkVote {
    type V = LinkVoteView;

    open spec fn view(&self) -> LinkVoteView {
        LinkVoteView {
            kind: self.kind,
            message_id: self.message_id,
            digest: self.digest@,
            epoch: self.epoch,
            validator: self.validator@,
            signature: self.signature@,
        }
    }
}

impl View for BridgeVote {
    type V = VoteView;

    open spec fn view(&self) -> VoteView {
        VoteView { validator: self.validator@, signature: self.signature@ }
    }
}

/// The views of a list of votes.
pub open spec fn vote_views(votes: Seq<BridgeVote>) -> Seq<VoteView> {
    Seq::new(votes.len(), |i: int| votes[i]@)
}

impl LinkVoteView {
    /// The vote as the contracts take it.
    pub open spec fn bridge_vote(self) -> VoteView {
        VoteView { validator: self.validator, signature: self.signature }
    }
}

impl BridgeLinkVote {
    /// The vote of a validator for a deposit, with the digest of the message and
    /// its signature.
    pub fn from_deposit(
        message: &BridgeDepositMessage,
        validator: PublicKey,
        digest: Vec<u8>,
        signature: Vec<u8>,
    ) -> (r: Self)
        ensures
            r@ == (LinkVoteView {
                kind: BridgeVoteKind::Deposit,
                message_id: message.message_id,
                digest: digest@,
                epoch: message.epoch,
                validator: validator@,
                signature: signature@,
            }),
    {
        BridgeLinkVote {
            kind: BridgeVoteKind::Deposit,
            message_id: message.message_id,
            digest,
            epoch: message.epoch,
            validator,
            signature,
        }
    }

    /// The vote as the contracts take it.
    pub fn into_bridge_vote(self) -> (r: BridgeVote)
        ensures
            r@ == self@.bridge_vote(),
    {
        BridgeVote { validator: self.validator, signature: self.signature }
    }

    /// A copy.
    pub fn duplicate(&self) -> (r: Self)
        ensures
            r@ == self@,
    {
        BridgeLinkVote {
            kind: self.kind,
            message_id: self.message_id,
            digest: self.digest.clone(),
            epoch: self.epoch,
            validator: self.validator.duplicate(),
            signature: self.signature.clone(),
        }
    }
}

impl BridgeVote {
    /// A copy.
    pub fn duplicate(&self) -> (r: Self)
        ensures
            r@ == self@,
    {
        BridgeVote { validator: self.validator.duplicate(), signature: self.signature.clone() }
    }
}

} // verus!
