//! Addresses, log topics and lanes.
use vstd::prelude::*;
use vstd::slice::slice_subrange;
use vstd::string::*;
use vstd::utf8::{
    decode_utf8, encode_utf8, is_ascii_chars, is_ascii_chars_encode_utf8, is_char_boundary,
};
use crate::bytes::{
    array_20, array_32, array_8, be_value, lemma_pow_256, pad_20, padded_20, push_all, push_u64,
    u64_of_bytes,
};
use crate::chain::{
    lane_with_foreign_token, lane_with_lp_token, outbound_with_foreign_token, outbound_with_index,
    outbound_with_lp_token, BridgeConfig, BridgeWithdrawRecord, ContractAddress, InboundTokenLane,
    OutboundBridgeConfig, OutboundTokenLane, BRIDGE_MODULE, CONTRACT_ADDRESS_LENGTH,
};
use crate::codec::{
    be_bytes, first_non_hex, hex_decode, hex_decoded, hex_encode, hex_encoded, hex_pair, keccak,
    keccak256, lemma_be_bytes_injective, lemma_be_bytes_len, EthSignError, HexError,
};
use crate::route_config::{BridgeRoute, ForeignLeg, LegView, RouteView};
use crate::text::{
    blank, cat, cat3, contains_text, decimal, decimal_text, has_prefix, hex_body, hex_digit,
    hex_number, is_blank, lemma_trim_of_trimmed, occurs_in, parse_hex_number, strip_0x, trimmed,
    without_prefixes,
};

verus! {

/// Why a step of the bridge went no further.
#[derive(Clone, Copy, Debug, PartialEq, Eq)]
pub enum BridgeError {
    Hex(HexError),
    /// A contract address of another length than it should have.
    ContractLength { got: usize },
    /// An EVM address that has not 20 bytes.
    AddressLength { got: usize },
    /// A topic with too few digits for a number.
    NumberTopicTooShort,
    /// A topic with too few digits for an address.
    AddressTopicTooShort,
    /// Digits that write no 64-bit number.
    Number,
    /// A word that has not 32 bytes.
    WordLength,
    /// A hash that has not 32 bytes.
    HashLength,
    /// No foreign token is named.
    EmptyForeignToken,
    /// No lane of the inbound bridge belongs to the route.
    NoInboundLane,
    /// No lane of the outbound bridge belongs to the withdraw.
    NoOutboundLane { token: ContractAddress, lane_index: u32 },
    /// What the inbound bridge says of itself is not known yet.
    ConfigNotLoaded,
    /// A log without topics.
    NoTopics,
    /// A log with too little data.
    LogDataTooShort,
    /// A reply that reports an error.
    Rpc,
    /// A reply without the value that was asked for.
    MissingResult,
    /// A reply with an empty value.
    EmptyResult,
    /// A secret that is no key.
    SecretKey,
    Sign(EthSignError),
    /// A committee with more members than can be written down.
    CommitteeTooLarge,
}

impl BridgeError {
    /// The text of the error.
    pub open spec fn text(self) -> Seq<char> {
        match self {
            BridgeError::Hex(e) => e.text(),
            BridgeError::ContractLength { got } => "contract address must be "@ + decimal(
                CONTRACT_ADDRESS_LENGTH as nat,
            ) + " bytes, got "@ + decimal(got as nat),
            BridgeError::AddressLength { got } => "evm address must be 20 bytes, got "@ + decimal(
                got as nat,
            ),
            BridgeError::NumberTopicTooShort => "topic too short for u64"@,
            BridgeError::AddressTopicTooShort => "topic too short for address"@,
            BridgeError::Number => "invalid number"@,
            BridgeError::WordLength => "expected 32-byte word"@,
            BridgeError::HashLength => "expected 32-byte hash"@,
            BridgeError::EmptyForeignToken => "foreign token is empty"@,
            BridgeError::NoInboundLane => "no inbound lane matched"@,
            BridgeError::NoOutboundLane { token, lane_index } => "no outbound lane for local token "@
                + token.text() + " (lane_index="@ + decimal(lane_index as nat) + ")"@,
            BridgeError::ConfigNotLoaded => "inbound config not loaded"@,
            BridgeError::NoTopics => "log missing topics"@,
            BridgeError::LogDataTooShort => "deposit log data too short"@,
            BridgeError::Rpc => "error"@,
            BridgeError::MissingResult => "missing result"@,
            BridgeError::EmptyResult => "empty result"@,
            BridgeError::SecretKey => "secret key must be 32 bytes"@,
            BridgeError::Sign(e) => e.text(),
            BridgeError::CommitteeTooLarge => "committee is too large"@,
        }
    }

    /// The text of the error where it came up on a route.
    pub open spec fn text_on(self, route_id: Seq<char>) -> Seq<char> {
        match self {
            BridgeError::NoInboundLane => "no inbound lane matched for route "@ + route_id,
            BridgeError::ConfigNotLoaded => "route "@ + route_id + " inbound config not loaded"@,
            _ => self.text(),
        }
    }

    /// The text of the error.
    pub fn message(&self) -> (r: String)
        ensures
            r@ == self.text(),
    {
        match *self {
            BridgeError::Hex(e) => e.message(),
            BridgeError::ContractLength { got } => {
                let head = cat3(
                    "contract address must be ",
                    decimal_text(CONTRACT_ADDRESS_LENGTH as u64).as_str(),
                    " bytes, got ",
                );
                cat(head.as_str(), decimal_text(got as u64).as_str())
            },
            BridgeError::AddressLength { got } => cat(
                "evm address must be 20 bytes, got ",
                decimal_text(got as u64).as_str(),
            ),
            BridgeError::NumberTopicTooShort => "topic too short for u64".to_owned(),
            BridgeError::AddressTopicTooShort => "topic too short for address".to_owned(),
            BridgeError::Number => "invalid number".to_owned(),
            BridgeError::WordLength => "expected 32-byte word".to_owned(),
            BridgeError::HashLength => "expected 32-byte hash".to_owned(),
            BridgeError::EmptyForeignToken => "foreign token is empty".to_owned(),
            BridgeError::NoInboundLane => "no inbound lane matched".to_owned(),
            BridgeError::NoOutboundLane { token, lane_index } => {
                let head = cat3(
                    "no outbound lane for local token ",
                    token.label().as_str(),
                    " (lane_index=",
                );
                cat3(head.as_str(), decimal_text(lane_index as u64).as_str(), ")")
            },
            BridgeError::ConfigNotLoaded => "inbound config not loaded".to_owned(),
            BridgeError::NoTopics => "log missing topics".to_owned(),
            BridgeError::LogDataTooShort => "deposit log data too short".to_owned(),
            BridgeError::Rpc => "error".to_owned(),
            BridgeError::MissingResult => "missing result".to_owned(),
            BridgeError::EmptyResult => "empty result".to_owned(),
            BridgeError::SecretKey => "secret key must be 32 bytes".to_owned(),
            BridgeError::Sign(e) => e.message(),
            BridgeError::CommitteeTooLarge => "committee is too large".to_owned(),
        }
    }

    /// The text of the error where it came up on a route.
    pub fn message_on(&self, route_id: &str) -> (r: String)
        ensures
            r@ == self.text_on(route_id@),
    {
        match *self {
            BridgeError::NoInboundLane => cat("no inbound lane matched for route ", route_id),
            BridgeError::ConfigNotLoaded => cat3("route ", route_id, " inbound config not loaded"),
            _ => self.message(),
        }
    }
}

/// The bytes of a contract address that was read.
pub open spec fn contract_view(r: Result<ContractAddress, BridgeError>) -> Result<
    Seq<u8>,
    BridgeError,
> {
    match r {
        Ok(c) => Ok(c.bytes@),
        Err(e) => Err(e),
    }
}

/// The bytes of an EVM address that was read.
pub open spec fn address_view(r: Result<[u8; 20], BridgeError>) -> Result<Seq<u8>, BridgeError> {
    match r {
        Ok(a) => Ok(a@),
        Err(e) => Err(e),
    }
}

/// The bytes of a hash that was read.
pub open spec fn hash_view(r: Result<[u8; 32], BridgeError>) -> Result<Seq<u8>, BridgeError> {
    match r {
        Ok(h) => Ok(h@),
        Err(e) => Err(e),
    }
}

/// The bytes of the first inbound bridge.
pub open spec fn default_inbound() -> Seq<u8> {
    seq![8u8, 0, 0, 0, 0, 0, 0, 1]
}

/// The first inbound bridge.
pub fn default_inbound_contract() -> (r: ContractAddress)
    ensures
        r.bytes@ == default_inbound(),
{
    let rest: [u8; 7] = [0, 0, 0, 0, 0, 0, 1];
    ContractAddress::new(BRIDGE_MODULE, rest)
}

/// The contract that a text names; the first inbound bridge where it is empty.
pub open spec fn contract_bytes(raw: Seq<char>) -> Result<Seq<u8>, BridgeError> {
    let digits = hex_body(trimmed(raw));
    if digits.len() == 0 {
        Ok(default_inbound())
    } else {
        match hex_decoded(encode_utf8(digits)) {
            Err(e) => Err(BridgeError::Hex(e)),
            Ok(b) => if b.len() != CONTRACT_ADDRESS_LENGTH {
                Err(BridgeError::ContractLength { got: b.len() as usize })
            } else {
                Ok(b)
            },
        }
    }
}

/// Reads the address of a contract.
pub fn parse_contract_address(raw: &str) -> (r: Result<ContractAddress, BridgeError>)
    ensures
        contract_view(r) == contract_bytes(raw@),
{
    let digits = strip_0x(raw.trim());
    if digits.is_empty() {
        return Ok(default_inbound_contract());
    }
    match hex_decode(digits.as_bytes()) {
        Err(e) => Err(BridgeError::Hex(e)),
        Ok(bytes) => {
            if bytes.len() != CONTRACT_ADDRESS_LENGTH {
                return Err(BridgeError::ContractLength { got: bytes.len() });
            }
            Ok(ContractAddress { bytes: array_8(bytes.as_slice()) })
        },
    }
}

/// The text of an EVM address.
pub open spec fn address_text(addr: Seq<u8>) -> Seq<char> {
    "0x"@ + hex_encoded(addr)
}

/// The text of an EVM address: `0x` and its digits.
pub fn evm_address_hex(addr: &[u8; 20]) -> (r: String)
    ensures
        r@ == address_text(addr@),
{
    cat("0x", hex_encode(addr.as_slice()).as_str())
}

/// The EVM address that a text names.
pub open spec fn address_bytes(raw: Seq<char>) -> Result<Seq<u8>, BridgeError> {
    match hex_decoded(encode_utf8(hex_body(trimmed(raw)))) {
        Err(e) => Err(BridgeError::Hex(e)),
        Ok(b) => if b.len() != 20 {
            Err(BridgeError::AddressLength { got: b.len() as usize })
        } else {
            Ok(b)
        },
    }
}

/// Reads an EVM address.
pub fn parse_evm_address(raw: &str) -> (r: Result<[u8; 20], BridgeError>)
    ensures
        address_view(r) == address_bytes(raw@),
{
    match hex_decode(strip_0x(raw.trim()).as_bytes()) {
        Err(e) => Err(BridgeError::Hex(e)),
        Ok(bytes) => {
            if bytes.len() != 20 {
                return Err(BridgeError::AddressLength { got: bytes.len() });
            }
            Ok(array_20(bytes.as_slice()))
        },
    }
}

/// Whether the last `n` bytes of the digits of `s`, if there are as many, are
/// whole characters.
pub open spec fn tail_is_text(s: Seq<char>, n: nat) -> bool {
    let b = encode_utf8(hex_body(s));
    b.len() >= n ==> is_char_boundary(b, b.len() - n)
}

/// The last `n` bytes of the digits of `s`.
pub open spec fn tail_bytes(s: Seq<char>, n: nat) -> Seq<u8> {
    let b = encode_utf8(hex_body(s));
    b.skip(b.len() - n)
}

/// Whether the last `n` bytes of the digits of `s`, if there are as many, are
/// whole characters.
pub fn has_text_tail(s: &str, n: usize) -> (r: bool)
    ensures
        r == tail_is_text(s@, n as nat),
{
    let digits = strip_0x(s);
    let bytes = digits.as_bytes();
    let len: usize = bytes.len();
    len < n || digits.is_char_boundary(len - n)
}

/// The last `n` bytes of the digits of `s`, as text.
pub(crate) fn text_tail<'a>(digits: &'a str, n: usize) -> (r: &'a str)
    requires
        encode_utf8(digits@).len() >= n,
        is_char_boundary(encode_utf8(digits@), encode_utf8(digits@).len() - n),
    ensures
        encode_utf8(r@) == encode_utf8(digits@).skip(encode_utf8(digits@).len() - n),
        r@ == decode_utf8(encode_utf8(digits@).skip(encode_utf8(digits@).len() - n)),
{
    let len: usize = digits.as_bytes().len();
    let (_, tail) = digits.split_at(len - n);
    proof {
        let b = encode_utf8(digits@);
        assert(b.subrange(len - n, len as int) =~= b.skip(len - n));
        vstd::utf8::encode_utf8_decode_utf8(tail@);
    }
    tail
}

/// The number in the last 16 digits of a topic.
pub open spec fn topic_number(topic: Seq<char>) -> Result<u64, BridgeError> {
    if encode_utf8(hex_body(topic)).len() < 16 {
        Err(BridgeError::NumberTopicTooShort)
    } else {
        match hex_number(decode_utf8(tail_bytes(topic, 16))) {
            Some(n) => Ok(n),
            None => Err(BridgeError::Number),
        }
    }
}

/// Reads the number in a topic.
pub fn topic_u64(topic: &str) -> (r: Result<u64, BridgeError>)
    requires
        tail_is_text(topic@, 16),
    ensures
        r == topic_number(topic@),
{
    let digits = strip_0x(topic);
    if digits.as_bytes().len() < 16 {
        return Err(BridgeError::NumberTopicTooShort);
    }
    match parse_hex_number(text_tail(digits, 16)) {
        Some(n) => Ok(n),
        None => Err(BridgeError::Number),
    }
}

/// The address in the last 40 digits of a topic.
pub open spec fn topic_account(topic: Seq<char>) -> Result<Seq<u8>, BridgeError> {
    if encode_utf8(hex_body(topic)).len() < 40 {
        Err(BridgeError::AddressTopicTooShort)
    } else {
        match hex_decoded(tail_bytes(topic, 40)) {
            Ok(b) => Ok(b),
            Err(e) => Err(BridgeError::Hex(e)),
        }
    }
}

/// Reads the address in a topic.
pub fn topic_address(topic: &str) -> (r: Result<[u8; 20], BridgeError>)
    requires
        tail_is_text(topic@, 40),
    ensures
        address_view(r) == topic_account(topic@),
{
    let digits = strip_0x(topic);
    if digits.as_bytes().len() < 40 {
        return Err(BridgeError::AddressTopicTooShort);
    }
    match hex_decode(text_tail(digits, 40).as_bytes()) {
        Ok(bytes) => Ok(array_20(bytes.as_slice())),
        Err(e) => Err(BridgeError::Hex(e)),
    }
}

/// The number in the last 8 bytes of a 32-byte word.
pub open spec fn word_number(word: Seq<u8>) -> Result<nat, BridgeError> {
    if word.len() != 32 {
        Err(BridgeError::WordLength)
    } else {
        Ok(be_value(word.subrange(24, 32)))
    }
}

/// Reads the number in a word; what does not fit in 64 bits is cut off.
pub fn u64_from_word(word: &[u8]) -> (r: Result<u64, BridgeError>)
    ensures
        match r {
            Ok(n) => word_number(word@) == Ok::<nat, BridgeError>(n as nat),
            Err(e) => word_number(word@) == Err::<nat, BridgeError>(e),
        },
{
    if word.len() != 32 {
        return Err(BridgeError::WordLength);
    }
    Ok(u64_of_bytes(slice_subrange(word, 24, 32)))
}

/// The address in the last 20 bytes of a 32-byte word.
pub open spec fn word_account(word: Seq<u8>) -> Result<Seq<u8>, BridgeError> {
    if word.len() != 32 {
        Err(BridgeError::WordLength)
    } else {
        Ok(word.subrange(12, 32))
    }
}

/// Reads the address in a word.
pub fn address_from_word(word: &[u8]) -> (r: Result<[u8; 20], BridgeError>)
    ensures
        address_view(r) == word_account(word@),
{
    if word.len() != 32 {
        return Err(BridgeError::WordLength);
    }
    Ok(array_20(slice_subrange(word, 12, 32)))
}

/// The hash that a text names.
pub open spec fn hash_bytes(value: Seq<char>) -> Result<Seq<u8>, BridgeError> {
    match hex_decoded(encode_utf8(hex_body(value))) {
        Err(e) => Err(BridgeError::Hex(e)),
        Ok(b) => if b.len() != 32 {
            Err(BridgeError::HashLength)
        } else {
            Ok(b)
        },
    }
}

/// Reads a 32-byte hash.
pub fn parse_b32(value: &str) -> (r: Result<[u8; 32], BridgeError>)
    ensures
        hash_view(r) == hash_bytes(value@),
{
    match hex_decode(strip_0x(value).as_bytes()) {
        Err(e) => Err(BridgeError::Hex(e)),
        Ok(bytes) => {
            if bytes.len() != 32 {
                return Err(BridgeError::HashLength);
            }
            Ok(array_32(bytes.as_slice()))
        },
    }
}

/// What is hashed to name a lock: the chain, the bridge and the nonce.
pub open spec fn lock_preimage(chain_id: u64, bridge: Seq<u8>, nonce: u64) -> Seq<u8> {
    be_bytes(chain_id as nat, 8) + bridge + be_bytes(nonce as nat, 8)
}

/// The hash that stands for the source transaction of a lock on a LightPool
/// chain.
pub fn lock_source_hash(chain_id: u64, bridge: ContractAddress, nonce: u64) -> (r: [u8; 32])
    ensures
        r@ == keccak(lock_preimage(chain_id, bridge.bytes@, nonce)),
{
    let mut buf: Vec<u8> = Vec::new();
    push_u64(&mut buf, chain_id);
    push_all(&mut buf, bridge.bytes.as_slice());
    push_u64(&mut buf, nonce);
    assert(buf@ =~= lock_preimage(chain_id, bridge.bytes@, nonce));
    keccak256(buf.as_slice())
}

/// The 20 bytes by which a bridge knows the foreign token that a text names: a
/// short text is a contract, padded; a long one an EVM address.
pub open spec fn token_bytes(raw: Seq<char>) -> Result<Seq<u8>, BridgeError> {
    let t = trimmed(raw);
    if t.len() == 0 {
        Err(BridgeError::EmptyForeignToken)
    } else if occurs_in(t, "0x02"@) || encode_utf8(t).len() <= 34 {
        match contract_bytes(t) {
            Ok(b) => Ok(padded_20(b)),
            Err(e) => Err(e),
        }
    } else {
        address_bytes(t)
    }
}

/// Reads a foreign token.
pub fn foreign_token_bytes(raw: &str) -> (r: Result<[u8; 20], BridgeError>)
    ensures
        address_view(r) == token_bytes(raw@),
{
    let trimmed = raw.trim();
    if trimmed.is_empty() {
        return Err(BridgeError::EmptyForeignToken);
    }
    if contains_text(trimmed, "0x02") || trimmed.as_bytes().len() <= 34 {
        return match parse_contract_address(trimmed) {
            Ok(contract) => Ok(pad_20(&contract.bytes)),
            Err(e) => Err(e),
        };
    }
    parse_evm_address(trimmed)
}

/// The foreign token of a route.
pub open spec fn leg_token(leg: LegView) -> Seq<char> {
    match leg {
        LegView::Evm { token_address, .. } => token_address,
        LegView::Lightpool { foreign_token, .. } => foreign_token,
    }
}

/// The lane of a route: the one with its local token, else the one with its
/// foreign token.
pub open spec fn inbound_lane(lanes: Seq<InboundTokenLane>, route: RouteView) -> Result<
    InboundTokenLane,
    BridgeError,
> {
    let lp = route.local_inbound.lp_token;
    let token = leg_token(route.foreign);
    if !is_blank(lp) && contract_bytes(lp) is Err {
        Err(contract_bytes(lp)->Err_0)
    } else if !is_blank(lp) && lane_with_lp_token(lanes, contract_bytes(lp)->Ok_0) is Some {
        Ok(lane_with_lp_token(lanes, contract_bytes(lp)->Ok_0)->0)
    } else if is_blank(token) {
        Err(BridgeError::NoInboundLane)
    } else {
        match token_bytes(token) {
            Err(e) => Err(e),
            Ok(t) => match lane_with_foreign_token(lanes, t) {
                Some(lane) => Ok(lane),
                None => Err(BridgeError::NoInboundLane),
            },
        }
    }
}

/// Finds the lane of a route.
pub fn inbound_lane_for_route<'a>(cfg: &'a BridgeConfig, route: &BridgeRoute) -> (r: Result<
    &'a InboundTokenLane,
    BridgeError,
>)
    ensures
        match r {
            Ok(lane) => inbound_lane(cfg.lanes@, route@) == Ok::<InboundTokenLane, BridgeError>(
                *lane,
            ),
            Err(e) => inbound_lane(cfg.lanes@, route@) == Err::<InboundTokenLane, BridgeError>(e),
        },
{
    if !blank(route.local_inbound.lp_token.as_str()) {
        match parse_contract_address(route.local_inbound.lp_token.as_str()) {
            Err(e) => {
                return Err(e);
            },
            Ok(lp) => {
                if let Some(lane) = cfg.lane_by_lp_token(lp) {
                    return Ok(lane);
                }
            },
        }
    }
    let token = match &route.foreign {
        ForeignLeg::Evm { token_address, .. } => token_address,
        ForeignLeg::Lightpool { foreign_token, .. } => foreign_token,
    };
    if !blank(token.as_str()) {
        match foreign_token_bytes(token.as_str()) {
            Err(e) => {
                return Err(e);
            },
            Ok(foreign) => {
                if let Some(lane) = cfg.lane_by_foreign_token(foreign) {
                    return Ok(lane);
                }
            },
        }
    }
    Err(BridgeError::NoInboundLane)
}

/// The bytes by which a foreign bridge knows a local token.
pub fn contract_to_foreign_token(token: ContractAddress) -> (r: [u8; 20])
    ensures
        r@ == padded_20(token.bytes@),
{
    pad_20(&token.bytes)
}

/// The outbound lane of a local withdraw: by the local token as the foreign
/// bridge knows it, else by its number, else by the local token itself.
pub open spec fn outbound_lane(
    lanes: Seq<OutboundTokenLane>,
    token: Seq<u8>,
    index: u32,
) -> Option<OutboundTokenLane> {
    match outbound_with_foreign_token(lanes, padded_20(token)) {
        Some(lane) => Some(lane),
        None => match outbound_with_index(lanes, index) {
            Some(lane) => Some(lane),
            None => outbound_with_lp_token(lanes, token),
        },
    }
}

/// Finds the outbound lane of a local withdraw.
pub fn outbound_lane_for_inbound_withdraw<'a>(
    cfg: &'a OutboundBridgeConfig,
    record: &BridgeWithdrawRecord,
) -> (r: Result<&'a OutboundTokenLane, BridgeError>)
    ensures
        match r {
            Ok(lane) => outbound_lane(cfg.lanes@, record.token.bytes@, record.lane_index) == Some(
                *lane,
            ),
            Err(e) => e == (BridgeError::NoOutboundLane {
                token: record.token,
                lane_index: record.lane_index,
            }) && outbound_lane(
                cfg.lanes@,
                record.token.bytes@,
                record.lane_index,
            ) is None,
        },
{
    let foreign_ref = contract_to_foreign_token(record.token);
    if let Some(lane) = cfg.lane_by_foreign_token(foreign_ref) {
        return Ok(lane);
    }
    if let Some(lane) = cfg.lane_by_index(record.lane_index) {
        return Ok(lane);
    }
    match cfg.lane_by_lp_token(record.token) {
        Some(lane) => Ok(lane),
        None => Err(
            BridgeError::NoOutboundLane { token: record.token, lane_index: record.lane_index },
        ),
    }
}

/// The hexadecimal text of some bytes is ASCII, and reads back as the bytes.
pub proof fn law_hex_round_trip(b: Seq<u8>)
    ensures
        hex_decoded(encode_utf8(hex_encoded(b))) == Ok::<Seq<u8>, HexError>(b),
{
    let t = hex_encoded(b);
    assert forall|i: int| 0 <= i < t.len() implies hex_digit(#[trigger] t[i]) == Some(
        (if i % 2 == 0 {
            b[i / 2] / 16
        } else {
            b[i / 2] % 16
        }) as nat,
    ) && t[i] as u32 <= 127 by {}
    assert(is_ascii_chars(t));
    is_ascii_chars_encode_utf8(t);
    let e = encode_utf8(t);
    assert(e.len() == 2 * b.len());
    lemma_all_hex(e, 0);
    let d = Seq::new(e.len() / 2, |i: int| hex_pair(e[2 * i], e[2 * i + 1]));
    assert forall|i: int| 0 <= i < b.len() implies d[i] == b[i] by {
        assert(e[2 * i] as char == t[2 * i]);
        assert(e[2 * i + 1] as char == t[2 * i + 1]);
        assert((2 * i) / 2 == i && (2 * i + 1) / 2 == i);
    }
    assert(d =~= b);
}

/// Where every byte is a digit, there is no first byte that is none.
proof fn lemma_all_hex(b: Seq<u8>, from: nat)
    requires
        from <= b.len(),
        forall|i: int| 0 <= i < b.len() ==> hex_digit(#[trigger] b[i] as char) is Some,
    ensures
        first_non_hex(b, from) == b.len(),
    decreases b.len() - from,
{
    if from < b.len() {
        assert(hex_digit(b[from as int] as char) is Some);
        lemma_all_hex(b, from + 1);
    }
}

/// The digits behind the mark of an address are those of its bytes.
pub proof fn lemma_address_digits(b: Seq<u8>)
    requires
        b.len() > 0,
    ensures
        hex_body(trimmed(address_text(b))) == hex_encoded(b),
        hex_body(address_text(b)) == hex_encoded(b),
{
    reveal_strlit("0x");
    let mark = "0x"@;
    let t = address_text(b);
    let digits = hex_encoded(b);
    assert(t[0] == '0');
    assert(t.last() == digits.last());
    lemma_trim_of_trimmed(t);
    assert(t.take(2) =~= mark);
    assert(t.skip(2) =~= digits);
    assert(!has_prefix(digits, mark)) by {
        if has_prefix(digits, mark) {
            assert(digits[1] == digits.take(2)[1]);
            assert(mark[1] == 'x');
        }
    }
    assert(without_prefixes(digits, mark) == digits);
    assert(without_prefixes(t, mark) == without_prefixes(t.skip(2), mark));
}

/// The text of an EVM address reads back as the address.
pub proof fn law_evm_address_round_trip(addr: Seq<u8>)
    requires
        addr.len() == 20,
    ensures
        address_bytes(address_text(addr)) == Ok::<Seq<u8>, BridgeError>(addr),
{
    lemma_address_digits(addr);
    law_hex_round_trip(addr);
}

/// The label of a contract reads back as the contract.
pub proof fn law_contract_round_trip(c: ContractAddress)
    ensures
        contract_bytes(c.text()) == Ok::<Seq<u8>, BridgeError>(c.bytes@),
{
    lemma_address_digits(c.bytes@);
    law_hex_round_trip(c.bytes@);
}

/// The text of a hash reads back as the hash.
pub proof fn law_hash_round_trip(hash: Seq<u8>)
    requires
        hash.len() == 32,
    ensures
        hash_bytes(address_text(hash)) == Ok::<Seq<u8>, BridgeError>(hash),
{
    lemma_address_digits(hash);
    law_hex_round_trip(hash);
}

/// Two locks are hashed from the same bytes only if they are on the same chain,
/// in the same bridge and under the same nonce.
pub proof fn law_lock_preimage_is_injective(
    chain_1: u64,
    bridge_1: Seq<u8>,
    nonce_1: u64,
    chain_2: u64,
    bridge_2: Seq<u8>,
    nonce_2: u64,
)
    requires
        bridge_1.len() == CONTRACT_ADDRESS_LENGTH,
        bridge_2.len() == CONTRACT_ADDRESS_LENGTH,
        lock_preimage(chain_1, bridge_1, nonce_1) == lock_preimage(chain_2, bridge_2, nonce_2),
    ensures
        chain_1 == chain_2,
        bridge_1 == bridge_2,
        nonce_1 == nonce_2,
{
    let p = lock_preimage(chain_1, bridge_1, nonce_1);
    let q = lock_preimage(chain_2, bridge_2, nonce_2);
    lemma_be_bytes_len(chain_1 as nat, 8);
    lemma_be_bytes_len(chain_2 as nat, 8);
    lemma_be_bytes_len(nonce_1 as nat, 8);
    lemma_be_bytes_len(nonce_2 as nat, 8);
    assert(p.take(8) =~= be_bytes(chain_1 as nat, 8));
    assert(q.take(8) =~= be_bytes(chain_2 as nat, 8));
    assert(p.subrange(8, 16) =~= bridge_1);
    assert(q.subrange(8, 16) =~= bridge_2);
    assert(p.skip(16) =~= be_bytes(nonce_1 as nat, 8));
    assert(q.skip(16) =~= be_bytes(nonce_2 as nat, 8));
    lemma_pow_256();
    lemma_be_bytes_injective(chain_1 as nat, chain_2 as nat, 8);
    lemma_be_bytes_injective(nonce_1 as nat, nonce_2 as nat, 8);
}

/// Two local tokens that a foreign bridge knows by the same bytes are the same.
pub proof fn law_foreign_token_is_injective(a: Seq<u8>, b: Seq<u8>)
    requires
        a.len() == CONTRACT_ADDRESS_LENGTH,
        b.len() == CONTRACT_ADDRESS_LENGTH,
        padded_20(a) == padded_20(b),
    ensures
        a == b,
{
    assert(padded_20(a).skip(12) =~= a);
    assert(padded_20(b).skip(12) =~= b);
}

} // verus!
