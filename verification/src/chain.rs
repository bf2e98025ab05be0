//! The records of the two chains that the bridge reads and writes.
use vstd::prelude::*;
use crate::bytes::{same_20, same_8};
use crate::codec::{hex_encode, hex_encoded};
use crate::text::cat;

verus! {

/// The number of bytes in the address of a LightPool contract.
pub const CONTRACT_ADDRESS_LENGTH: usize = 8;

/// The module of the bridge contracts: the first byte of their addresses.
pub const BRIDGE_MODULE: u8 = 8;

/// The address of a LightPool contract: its module, then its instance.
#[derive(Clone, Copy, Debug, PartialEq, Eq)]
pub struct ContractAddress {
    pub bytes: [u8; 8],
}

impl ContractAddress {
    /// The contract with the instance bytes `rest` in a module.
    pub fn new(module: u8, rest: [u8; 7]) -> (r: Self)
        ensures
            r.bytes@ == seq![module] + rest@,
    {
        let bytes = [module, rest[0], rest[1], rest[2], rest[3], rest[4], rest[5], rest[6]];
        assert(bytes@ =~= seq![module] + rest@);
        ContractAddress { bytes }
    }

    /// Whether two addresses are the same.
    pub fn same(&self, other: &ContractAddress) -> (r: bool)
        ensures
            r == (*self == *other),
            r == (self.bytes@ == other.bytes@),
    {
        same_8(&self.bytes, &other.bytes)
    }

    /// The text of the address.
    pub open spec fn text(self) -> Seq<char> {
        "0x"@ + hex_encoded(self.bytes@)
    }

    /// The text of the address: `0x` and its digits.
    pub fn label(&self) -> (r: String)
        ensures
            r@ == self.text(),
    {
        cat("0x", hex_encode(self.bytes.as_slice()).as_str())
    }
}

/// One token of an inbound bridge: minted here for what is locked abroad.
#[derive(Clone, Copy, Debug, PartialEq, Eq)]
pub struct InboundTokenLane {
    pub lane_index: u32,
    pub foreign_token: [u8; 20],
    pub lp_token: ContractAddress,
    pub next_withdraw_nonce: u64,
}

/// What the inbound bridge contract says of itself.
#[derive(Clone, Debug, PartialEq, Eq)]
pub struct BridgeConfig {
    pub foreign_chain_id: u64,
    pub lanes: Vec<InboundTokenLane>,
}

/// One token of an outbound bridge: locked there for what is minted abroad.
#[derive(Clone, Copy, Debug, PartialEq, Eq)]
pub struct OutboundTokenLane {
    pub lane_index: u32,
    pub foreign_token: [u8; 20],
    pub lp_token: ContractAddress,
}

/// What the outbound bridge contract says of itself.
#[derive(Clone, Debug, PartialEq, Eq)]
pub struct OutboundBridgeConfig {
    pub epoch: u64,
    pub lanes: Vec<OutboundTokenLane>,
}

/// The first lane with a given local token.
pub open spec fn lane_with_lp_token(
    lanes: Seq<InboundTokenLane>,
    token: Seq<u8>,
) -> Option<InboundTokenLane>
    decreases lanes.len(),
{
    if lanes.len() == 0 {
        None
    } else if lanes[0].lp_token.bytes@ == token {
        Some(lanes[0])
    } else {
        lane_with_lp_token(lanes.drop_first(), token)
    }
}

/// The first lane with a given foreign token.
pub open spec fn lane_with_foreign_token(
    lanes: Seq<InboundTokenLane>,
    token: Seq<u8>,
) -> Option<InboundTokenLane>
    decreases lanes.len(),
{
    if lanes.len() == 0 {
        None
    } else if lanes[0].foreign_token@ == token {
        Some(lanes[0])
    } else {
        lane_with_foreign_token(lanes.drop_first(), token)
    }
}

/// The first outbound lane with a given foreign token.
pub open spec fn outbound_with_foreign_token(
    lanes: Seq<OutboundTokenLane>,
    token: Seq<u8>,
) -> Option<OutboundTokenLane>
    decreases lanes.len(),
{
    if lanes.len() == 0 {
        None
    } else if lanes[0].foreign_token@ == token {
        Some(lanes[0])
    } else {
        outbound_with_foreign_token(lanes.drop_first(), token)
    }
}

/// The first outbound lane with a given number.
pub open spec fn outbound_with_index(
    lanes: Seq<OutboundTokenLane>,
    index: u32,
) -> Option<OutboundTokenLane>
    decreases lanes.len(),
{
    if lanes.len() == 0 {
        None
    } else if lanes[0].lane_index == index {
        Some(lanes[0])
    } else {
        outbound_with_index(lanes.drop_first(), index)
    }
}

/// The first outbound lane with a given local token.
pub open spec fn outbound_with_lp_token(
    lanes: Seq<OutboundTokenLane>,
    token: Seq<u8>,
) -> Option<OutboundTokenLane>
    decreases lanes.len(),
{
    if lanes.len() == 0 {
        None
    } else if lanes[0].lp_token.bytes@ == token {
        Some(lanes[0])
    } else {
        outbound_with_lp_token(lanes.drop_first(), token)
    }
}

impl BridgeConfig {
    /// The first lane whose local token is `token`.
    pub fn lane_by_lp_token(&self, token: ContractAddress) -> (r: Option<&InboundTokenLane>)
        ensures
            match r {
                Some(lane) => lane_with_lp_token(self.lanes@, token.bytes@) == Some(*lane),
                None => lane_with_lp_token(self.lanes@, token.bytes@) is None,
            },
    {
        let mut i: usize = 0;
        assert(self.lanes@.skip(0) =~= self.lanes@);
        while i < self.lanes.len()
            invariant
                i <= self.lanes.len(),
                lane_with_lp_token(self.lanes@, token.bytes@) == lane_with_lp_token(
                    self.lanes@.skip(i as int),
                    token.bytes@,
                ),
            decreases self.lanes.len() - i,
        {
            assert(self.lanes@.skip(i as int).drop_first() =~= self.lanes@.skip(i + 1));
            if self.lanes[i].lp_token.same(&token) {
                return Some(&self.lanes[i]);
            }
            i += 1;
        }
        None
    }

    /// The first lane whose foreign token is `token`.
    pub fn lane_by_foreign_token(&self, token: [u8; 20]) -> (r: Option<&InboundTokenLane>)
        ensures
            match r {
                Some(lane) => lane_with_foreign_token(self.lanes@, token@) == Some(*lane),
                None => lane_with_foreign_token(self.lanes@, token@) is None,
            },
    {
        let mut i: usize = 0;
        assert(self.lanes@.skip(0) =~= self.lanes@);
        while i < self.lanes.len()
            invariant
                i <= self.lanes.len(),
                lane_with_foreign_token(self.lanes@, token@) == lane_with_foreign_token(
                    self.lanes@.skip(i as int),
                    token@,
                ),
            decreases self.lanes.len() - i,
        {
            assert(self.lanes@.skip(i as int).drop_first() =~= self.lanes@.skip(i + 1));
            if same_20(&self.lanes[i].foreign_token, &token) {
                return Some(&self.lanes[i]);
            }
            i += 1;
        }
        None
    }
}

impl OutboundBridgeConfig {
    /// The first lane whose foreign token is `token`.
    pub fn lane_by_foreign_token(&self, token: [u8; 20]) -> (r: Option<&OutboundTokenLane>)
        ensures
            match r {
                Some(lane) => outbound_with_foreign_token(self.lanes@, token@) == Some(*lane),
                None => outbound_with_foreign_token(self.lanes@, token@) is None,
            },
    {
        let mut i: usize = 0;
        assert(self.lanes@.skip(0) =~= self.lanes@);
        while i < self.lanes.len()
            invariant
                i <= self.lanes.len(),
                outbound_with_foreign_token(self.lanes@, token@) == outbound_with_foreign_token(
                    self.lanes@.skip(i as int),
                    token@,
                ),
            decreases self.lanes.len() - i,
        {
            assert(self.lanes@.skip(i as int).drop_first() =~= self.lanes@.skip(i + 1));
            if same_20(&self.lanes[i].foreign_token, &token) {
                return Some(&self.lanes[i]);
            }
            i += 1;
        }
        None
    }

    /// The first lane with the number `index`.
    pub fn lane_by_index(&self, index: u32) -> (r: Option<&OutboundTokenLane>)
        ensures
            match r {
                Some(lane) => outbound_with_index(self.lanes@, index) == Some(*lane),
                None => outbound_with_index(self.lanes@, index) is None,
            },
    {
        let mut i: usize = 0;
        assert(self.lanes@.skip(0) =~= self.lanes@);
        while i < self.lanes.len()
            invariant
                i <= self.lanes.len(),
                outbound_with_index(self.lanes@, index) == outbound_with_index(
                    self.lanes@.skip(i as int),
                    index,
                ),
            decreases self.lanes.len() - i,
        {
            assert(self.lanes@.skip(i as int).drop_first() =~= self.lanes@.skip(i + 1));
            if self.lanes[i].lane_index == index {
                return Some(&self.lanes[i]);
            }
            i += 1;
        }
        None
    }

    /// The first lane whose local token is `token`.
    pub fn lane_by_lp_token(&self, token: ContractAddress) -> (r: Option<&OutboundTokenLane>)
        ensures
            match r {
                Some(lane) => outbound_with_lp_token(self.lanes@, token.bytes@) == Some(*lane),
                None => outbound_with_lp_token(self.lanes@, token.bytes@) is None,
            },
    {
        let mut i: usize = 0;
        assert(self.lanes@.skip(0) =~= self.lanes@);
        while i < self.lanes.len()
            invariant
                i <= self.lanes.len(),
                outbound_with_lp_token(self.lanes@, token.bytes@) == outbound_with_lp_token(
                    self.lanes@.skip(i as int),
                    token.bytes@,
                ),
            decreases self.lanes.len() - i,
        {
            assert(self.lanes@.skip(i as int).drop_first() =~= self.lanes@.skip(i + 1));
            if self.lanes[i].lp_token.same(&token) {
                return Some(&self.lanes[i]);
            }
            i += 1;
        }
        None
    }
}

/// How far a withdraw from the local chain has come.
#[derive(Clone, Copy, Debug, PartialEq, Eq, Structural)]
pub enum BridgeWithdrawStatus {
    Pending,
    Settled,
}

/// How far a withdraw from a foreign LightPool chain has come.
#[derive(Clone, Copy, Debug, PartialEq, Eq, Structural)]
pub enum OutboundWithdrawStatus {
    Pending,
    Settled,
}

/// A withdraw that a user asked for on the local chain.
#[derive(Clone, Copy, Debug, PartialEq, Eq)]
pub struct BridgeWithdrawRecord {
    pub lane_index: u32,
    pub nonce: u64,
    pub sender: [u8; 20],
    pub foreign_recipient: [u8; 20],
    pub amount: u64,
    pub token: ContractAddress,
    pub status: BridgeWithdrawStatus,
}

/// A withdraw that a user asked for on a foreign LightPool chain.
#[derive(Clone, Copy, Debug, PartialEq, Eq)]
pub struct OutboundWithdrawRecord {
    pub lane_index: u32,
    pub nonce: u64,
    pub sender: [u8; 20],
    pub foreign_recipient: [u8; 20],
    pub amount: u64,
    pub token: ContractAddress,
    pub status: OutboundWithdrawStatus,
}

/// What the local inbound bridge is asked to confirm.
#[derive(Clone, Copy, Debug, PartialEq, Eq)]
pub struct BridgeDepositMessage {
    pub lane_index: u32,
    pub message_id: u64,
    pub source_chain_id: u64,
    pub token: ContractAddress,
    pub amount: u64,
    pub sender_foreign: [u8; 20],
    pub recipient: [u8; 20],
    pub source_tx_hash: [u8; 32],
    pub source_block: u64,
    pub epoch: u64,
}

/// What the outbound bridge of a foreign LightPool chain is asked to pay out.
#[derive(Clone, Copy, Debug, PartialEq, Eq)]
pub struct OutboundDepositMessage {
    pub bridge: ContractAddress,
    pub lane_index: u32,
    pub message_id: u64,
    pub source_chain_id: u64,
    pub token: ContractAddress,
    pub amount: u64,
    pub sender_foreign: [u8; 20],
    pub recipient: [u8; 20],
    pub source_tx_hash: [u8; 32],
    pub source_block: u64,
    pub epoch: u64,
}

/// A [`BridgeConfig`] as sequences.
#[verifier::ext_equal]
pub struct BridgeConfigView {
    pub foreign_chain_id: u64,
    pub lanes: Seq<InboundTokenLane>,
}

impl View for BridgeConfig {
    type V = BridgeConfigView;

    open spec fn view(&self) -> BridgeConfigView {
        BridgeConfigView { foreign_chain_id: self.foreign_chain_id, lanes: self.lanes@ }
    }
}

impl BridgeConfig {
    /// A copy.
    pub fn duplicate(&self) -> (r: Self)
        ensures
            r@ == self@,
    {
        let r = BridgeConfig {
            foreign_chain_id: self.foreign_chain_id,
            lanes: self.lanes.clone(),
        };
        assert(r.lanes@ =~= self.lanes@);
        r
    }
}

/// A [`BridgeDepositMessage`] as sequences.
#[verifier::ext_equal]
pub struct DepositView {
    pub lane_index: u32,
    pub message_id: u64,
    pub source_chain_id: u64,
    pub token: Seq<u8>,
    pub amount: u64,
    pub sender_foreign: Seq<u8>,
    pub recipient: Seq<u8>,
    pub source_tx_hash: Seq<u8>,
    pub source_block: u64,
    pub epoch: u64,
}

impl View for BridgeDepositMessage {
    type V = DepositView;

    open spec fn view(&self) -> DepositView {
        DepositView {
            lane_index: self.lane_index,
            message_id: self.message_id,
            source_chain_id: self.source_chain_id,
            token: self.token.bytes@,
            amount: self.amount,
            sender_foreign: self.sender_foreign@,
            recipient: self.recipient@,
            source_tx_hash: self.source_tx_hash@,
            source_block: self.source_block,
            epoch: self.epoch,
        }
    }
}

/// An [`OutboundDepositMessage`] as sequences.
#[verifier::ext_equal]
pub struct OutboundDepositView {
    pub bridge: Seq<u8>,
    pub lane_index: u32,
    pub message_id: u64,
    pub source_chain_id: u64,
    pub token: Seq<u8>,
    pub amount: u64,
    pub sender_foreign: Seq<u8>,
    pub recipient: Seq<u8>,
    pub source_tx_hash: Seq<u8>,
    pub source_block: u64,
    pub epoch: u64,
}

impl View for OutboundDepositMessage {
    type V = OutboundDepositView;

    open spec fn view(&self) -> OutboundDepositView {
        OutboundDepositView {
            bridge: self.bridge.bytes@,
            lane_index: self.lane_index,
            message_id: self.message_id,
            source_chain_id: self.source_chain_id,
            token: self.token.bytes@,
            amount: self.amount,
            sender_foreign: self.sender_foreign@,
            recipient: self.recipient@,
            source_tx_hash: self.source_tx_hash@,
            source_block: self.source_block,
            epoch: self.epoch,
        }
    }
}

/// A validator's public key, as its base64 text.
#[derive(Clone, Debug, PartialEq, Eq)]
pub struct PublicKey {
    pub encoded: String,
}

impl View for PublicKey {
    type V = Seq<char>;

    open spec fn view(&self) -> Seq<char> {
        self.encoded@
    }
}

impl PublicKey {
    /// A copy of the key.
    pub fn duplicate(&self) -> (r: Self)
        ensures
            r == *self,
    {
        PublicKey { encoded: self.encoded.clone() }
    }

    /// Whether two keys are the same.
    pub fn same(&self, other: &PublicKey) -> (r: bool)
        ensures
            r == (self@ == other@),
    {
        self.encoded == other.encoded
    }
}

/// A validator: its key, the Ethereum address of that key, and its stake.
#[derive(Clone, Debug, PartialEq, Eq)]
pub struct Authority {
    pub public_key: PublicKey,
    pub eth_address: [u8; 20],
    pub stake: u64,
}

/// The validators of the local chain, and what follows from their stakes: the
/// keys that vote, in the order of leadership, and the stake of a quorum.
#[derive(Clone, Debug, PartialEq, Eq)]
pub struct Committee {
    pub epoch: u128,
    pub members: Vec<Authority>,
    pub voting_keys: Vec<PublicKey>,
    pub quorum_threshold: u64,
}

/// The stake of a key among some validators; zero where it is none of them.
pub open spec fn stake_among(members: Seq<Authority>, key: Seq<char>) -> u64
    decreases members.len(),
{
    if members.len() == 0 {
        0
    } else if members[0].public_key@ == key {
        members[0].stake
    } else {
        stake_among(members.drop_first(), key)
    }
}

/// How long a validator leads, in seconds.
pub const LEADER_ROTATION_SECONDS: u64 = 200;

/// The place of the leader among `n` validators.
pub open spec fn leader_place(now_secs: u64, n: nat) -> int {
    (now_secs / LEADER_ROTATION_SECONDS) as usize as int % (n as int)
}

impl Committee {
    /// Whether the validator `name` is the one to submit: the validators take
    /// turns, and while none votes everyone does.
    pub open spec fn leads(self, name: Seq<char>, now_secs: u64) -> bool {
        let keys = self.voting_keys@;
        keys.len() == 0 || keys[leader_place(now_secs, keys.len())]@ == name
    }

    /// Tells whether the validator `name` is the one to submit.
    pub fn is_leader(&self, name: &PublicKey, now_secs: u64) -> (r: bool)
        ensures
            r == self.leads(name@, now_secs),
    {
        if self.voting_keys.is_empty() {
            return true;
        }
        #[verifier::truncate]
        let round: usize = (now_secs / LEADER_ROTATION_SECONDS) as usize;
        self.voting_keys[round % self.voting_keys.len()].same(name)
    }

    /// The epoch that messages carry: zero while no committee is known.
    pub open spec fn epoch_number(self) -> u64 {
        if self.members@.len() == 0 {
            0
        } else {
            self.epoch as u64
        }
    }

    /// The number of validators.
    pub fn size(&self) -> (r: usize)
        ensures
            r == self.members@.len(),
    {
        self.members.len()
    }

    /// The epoch that messages carry: the low 64 bits of the committee's, or
    /// zero while no committee is known.
    pub fn message_epoch(&self) -> (r: u64)
        ensures
            r == self.epoch_number(),
    {
        if self.members.len() == 0 {
            0
        } else {
            #[verifier::truncate]
            (self.epoch as u64)
        }
    }

    /// The stake of a key; zero where it is no validator's.
    pub fn stake(&self, key: &PublicKey) -> (r: u64)
        ensures
            r == stake_among(self.members@, key@),
    {
        let mut i: usize = 0;
        assert(self.members@.skip(0) =~= self.members@);
        while i < self.members.len()
            invariant
                i <= self.members.len(),
                stake_among(self.members@, key@) == stake_among(
                    self.members@.skip(i as int),
                    key@,
                ),
            decreases self.members.len() - i,
        {
            assert(self.members@.skip(i as int).drop_first() =~= self.members@.skip(i + 1));
            if self.members[i].public_key.same(key) {
                return self.members[i].stake;
            }
            i += 1;
        }
        0
    }
}

} // verus!
