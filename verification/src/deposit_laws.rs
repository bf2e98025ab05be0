//! What holds of the deposits that are confirmed on the local chain: each field
//! of a message comes from the place where the foreign chain put it.
use vstd::prelude::*;
use vstd::utf8::{encode_utf8, is_ascii_chars, is_ascii_chars_encode_utf8};
use crate::bytes::{be_value, lemma_be_value_bound, lemma_be_value_of_bytes, lemma_pow_256};
use crate::chain::{
    BridgeDepositMessage, DepositView, InboundTokenLane, OutboundDepositMessage,
    OutboundWithdrawRecord, OutboundWithdrawStatus,
};
use crate::codec::{be_bytes, hex_encoded, keccak, lemma_be_bytes_len, zeros};
use crate::route_config::{LegView, RouteView};
use crate::route_state::{
    after_evm_log, after_foreign_withdraw, can_read, fresh_state, larger, log_data, log_hash,
    seen_key, LogView, StateView,
};
use crate::text::{all_hex, hex_body, hex_digit, hex_number, hex_value};
use crate::util::{
    contract_bytes, inbound_lane, law_hash_round_trip, law_hex_round_trip,
    lemma_address_digits, tail_bytes, tail_is_text, topic_account, topic_number, BridgeError,
};

verus! {

/// The low bytes of a number are the number in fewer bytes.
pub proof fn lemma_low_bytes(n: nat, above: nat, len: nat)
    ensures
        be_bytes(n, above + len).skip(above as int) == be_bytes(n, len),
    decreases len,
{
    lemma_be_bytes_len(n, above + len);
    lemma_be_bytes_len(n, len);
    if len > 0 {
        let shorter = (len - 1) as nat;
        lemma_low_bytes(n / 256, above, shorter);
        lemma_be_bytes_len(n / 256, above + shorter);
        assert((above + len - 1) as nat == above + shorter);
        assert(be_bytes(n, above + len).skip(above as int) =~= be_bytes(
            n / 256,
            above + shorter,
        ).skip(above as int).push((n % 256) as u8));
    } else {
        assert(be_bytes(n, above + len).skip(above as int) =~= be_bytes(n, len));
    }
}

/// The digits of some bytes write the number that the bytes write.
proof fn lemma_hex_value(b: Seq<u8>)
    ensures
        hex_value(hex_encoded(b)) == be_value(b),
        all_hex(hex_encoded(b)),
    decreases b.len(),
{
    let t = hex_encoded(b);
    assert forall|i: int| 0 <= i < t.len() implies hex_digit(#[trigger] t[i]) is Some by {}
    if b.len() > 0 {
        let front = b.drop_last();
        lemma_hex_value(front);
        let n = t.len() as int;
        assert(n == 2 * b.len());
        assert(t.drop_last().drop_last() =~= hex_encoded(front));
        assert((n - 1) / 2 == b.len() - 1 && (n - 2) / 2 == b.len() - 1);
        assert((n - 1) % 2 == 1 && (n - 2) % 2 == 0);
        assert(hex_digit(t[n - 1]) == Some((b.last() % 16) as nat));
        assert(hex_digit(t[n - 2]) == Some((b.last() / 16) as nat));
        assert(t.drop_last().last() == t[n - 2]);
        assert(hex_value(t.drop_last()) == be_value(front) * 16 + (b.last() / 16) as nat);
        assert(hex_value(t) == hex_value(t.drop_last()) * 16 + (b.last() % 16) as nat);
    }
}

/// The last digits of a topic are those of the last bytes of its word.
pub proof fn lemma_topic_tail(w: Seq<u8>, from: int)
    requires
        0 <= from <= w.len(),
        w.len() > 0,
    ensures
        tail_bytes("0x"@ + hex_encoded(w), (2 * (w.len() - from)) as nat) == encode_utf8(
            hex_encoded(w.skip(from)),
        ),
        encode_utf8(hex_body("0x"@ + hex_encoded(w))).len() == 2 * w.len(),
{
    lemma_address_digits(w);
    lemma_ascii_digits(w);
    lemma_ascii_digits(w.skip(from));
    let t = hex_encoded(w);
    let u = hex_encoded(w.skip(from));
    assert(t.skip(2 * from) =~= u) by {
        assert forall|i: int| 0 <= i < u.len() implies t.skip(2 * from)[i] == u[i] by {
            assert((2 * from + i) % 2 == i % 2);
            assert((2 * from + i) / 2 == from + i / 2);
        }
    }
    assert(encode_utf8(t).skip(2 * from) =~= encode_utf8(u)) by {
        assert forall|i: int| 0 <= i < u.len() implies encode_utf8(t).skip(2 * from)[i]
            == encode_utf8(u)[i] by {
            assert(t.skip(2 * from)[i] == u[i]);
        }
    }
}

/// The digits of some bytes are one byte each.
pub proof fn lemma_ascii_digits(b: Seq<u8>)
    ensures
        is_ascii_chars(hex_encoded(b)),
        encode_utf8(hex_encoded(b)).len() == 2 * b.len(),
        forall|i: int|
            0 <= i < 2 * b.len() ==> #[trigger] encode_utf8(hex_encoded(b))[i] == hex_encoded(b)[i]
                as u8,
{
    let t = hex_encoded(b);
    assert forall|i: int| 0 <= i < t.len() implies (#[trigger] t[i]) as u32 <= 127 by {}
    assert(is_ascii_chars(t));
    is_ascii_chars_encode_utf8(t);
}

/// The number in a topic is that of the last eight bytes of its word.
pub proof fn lemma_number_topic(w: Seq<u8>)
    requires
        w.len() == 32,
    ensures
        topic_number("0x"@ + hex_encoded(w)) == Ok::<u64, BridgeError>(
            be_value(w.skip(24)) as u64,
        ),
        be_value(w.skip(24)) <= u64::MAX,
{
    lemma_topic_tail(w, 24);
    let u = hex_encoded(w.skip(24));
    vstd::utf8::encode_utf8_decode_utf8(u);
    lemma_hex_value(w.skip(24));
    lemma_be_value_bound(w.skip(24));
    lemma_pow_256();
    assert(u.len() == 16);
    assert(hex_digit(u[0]) is Some);
    assert(hex_number(u) == Some(be_value(w.skip(24)) as u64));
}

/// The account in a topic is the last twenty bytes of its word.
proof fn lemma_account_topic(w: Seq<u8>)
    requires
        w.len() == 32,
    ensures
        topic_account("0x"@ + hex_encoded(w)) == Ok::<Seq<u8>, BridgeError>(w.skip(12)),
{
    lemma_topic_tail(w, 12);
    law_hex_round_trip(w.skip(12));
}

/// A topic can be taken apart before any of its digits.
proof fn lemma_topic_splits(w: Seq<u8>, n: nat)
    requires
        0 < n <= 2 * w.len(),
    ensures
        tail_is_text("0x"@ + hex_encoded(w), n),
{
    lemma_address_digits(w);
    lemma_ascii_digits(w);
    let t = hex_encoded(w);
    let b = encode_utf8(t);
    let at = b.len() - n;
    assert((t[at] as u32) <= 127);
    let byte = b[at];
    assert(byte == t[at] as u8);
    assert(byte <= 127);
    assert(byte & 0xC0 != 0x80) by (bit_vector)
        requires
            byte <= 127u8,
    ;
    vstd::utf8::encode_utf8_valid_utf8(t);
    vstd::utf8::is_char_boundary_iff_not_is_continuation_byte(b, at);
}

/// A deposit log is read as the bridge contract wrote it: the number of the
/// deposit, the sender and the recipient stand in the topics, the token, the
/// amount and the block in the data, numbers in the last eight bytes of their
/// words and accounts in the last twenty. The message to confirm carries them,
/// with the hash of the transaction, the lane and the local token of the route,
/// its chain and the epoch.
pub proof fn law_deposit_log_is_read_as_written(
    s: StateView,
    route: RouteView,
    lane: InboundTokenLane,
    log: LogView,
    epoch: u64,
    number: Seq<u8>,
    sender: Seq<u8>,
    recipient: Seq<u8>,
    data: Seq<u8>,
    hash: Seq<u8>,
)
    requires
        s.config is Some,
        inbound_lane(s.config->0.lanes, route) == Ok::<InboundTokenLane, BridgeError>(lane),
        route.foreign is Evm,
        number.len() == 32,
        sender.len() == 32,
        recipient.len() == 32,
        data.len() >= 96,
        hash.len() == 32,
        log.topics is Some,
        log.topics->0.len() >= 4,
        log.topics->0[1] == "0x"@ + hex_encoded(number),
        log.topics->0[2] == "0x"@ + hex_encoded(sender),
        log.topics->0[3] == "0x"@ + hex_encoded(recipient),
        log.data == Some("0x"@ + hex_encoded(data)),
        log.transaction_hash == Some("0x"@ + hex_encoded(hash)),
        !s.seen.contains(seen_key(lane.lane_index, be_value(number.skip(24)) as u64)),
    ensures
        can_read(s, route, log),
        data.subrange(12, 32) != lane.foreign_token@ ==> after_evm_log(s, route, log, epoch).1
            == Ok::<Option<DepositView>, BridgeError>(None),
        data.subrange(12, 32) == lane.foreign_token@ ==> (after_evm_log(
            s,
            route,
            log,
            epoch,
        ).1 matches Ok(Some(m)) && {
            &&& m.message_id == be_value(number.skip(24))
            &&& m.sender_foreign == sender.skip(12)
            &&& m.recipient == recipient.skip(12)
            &&& m.amount == be_value(data.subrange(56, 64))
            &&& m.source_block == be_value(data.subrange(88, 96))
            &&& m.source_tx_hash == hash
            &&& m.lane_index == lane.lane_index
            &&& m.token == lane.lp_token.bytes@
            &&& route.foreign matches LegView::Evm { chain_id, .. } && m.source_chain_id
                == chain_id
            &&& m.epoch == epoch
        }),
{
    lemma_number_topic(number);
    lemma_account_topic(sender);
    lemma_account_topic(recipient);
    lemma_topic_splits(number, 16);
    lemma_topic_splits(sender, 40);
    lemma_topic_splits(recipient, 40);
    lemma_address_digits(data);
    law_hex_round_trip(data);
    law_hash_round_trip(hash);
    assert(log_data(log) == Ok::<Seq<u8>, BridgeError>(data));
    assert(data.subrange(0, 32).subrange(12, 32) =~= data.subrange(12, 32));
    assert(data.subrange(32, 64).subrange(24, 32) =~= data.subrange(56, 64));
    assert(data.subrange(64, 96).subrange(24, 32) =~= data.subrange(88, 96));
    lemma_be_value_bound(data.subrange(56, 64));
    lemma_be_value_bound(data.subrange(88, 96));
    lemma_pow_256();
}

/// A deposit of any amount is confirmed with that amount, under its own number
/// and with the block that the log names: what the bridge contract writes as a
/// number of 64 bits is read back whole.
pub proof fn law_deposit_numbers_are_read_back(
    s: StateView,
    route: RouteView,
    lane: InboundTokenLane,
    log: LogView,
    epoch: u64,
    id: u64,
    sender: Seq<u8>,
    recipient: Seq<u8>,
    amount: u64,
    block: u64,
    hash: Seq<u8>,
)
    requires
        s.config is Some,
        inbound_lane(s.config->0.lanes, route) == Ok::<InboundTokenLane, BridgeError>(lane),
        route.foreign is Evm,
        sender.len() == 20,
        recipient.len() == 20,
        hash.len() == 32,
        log.topics is Some,
        log.topics->0.len() >= 4,
        log.topics->0[1] == "0x"@ + hex_encoded(be_bytes(id as nat, 32)),
        log.topics->0[2] == "0x"@ + hex_encoded(zeros(12) + sender),
        log.topics->0[3] == "0x"@ + hex_encoded(zeros(12) + recipient),
        log.data == Some(
            "0x"@ + hex_encoded(
                zeros(12) + lane.foreign_token@ + be_bytes(amount as nat, 32) + be_bytes(
                    block as nat,
                    32,
                ),
            ),
        ),
        log.transaction_hash == Some("0x"@ + hex_encoded(hash)),
        !s.seen.contains(seen_key(lane.lane_index, id)),
    ensures
        after_evm_log(s, route, log, epoch).1 matches Ok(Some(m)) && {
            &&& m.message_id == id
            &&& m.sender_foreign == sender
            &&& m.recipient == recipient
            &&& m.amount == amount
            &&& m.source_block == block
            &&& m.source_tx_hash == hash
        },
{
    lemma_pow_256();
    lemma_be_bytes_len(id as nat, 32);
    lemma_be_bytes_len(amount as nat, 32);
    lemma_be_bytes_len(block as nat, 32);
    lemma_low_bytes(id as nat, 24, 8);
    lemma_low_bytes(amount as nat, 24, 8);
    lemma_low_bytes(block as nat, 24, 8);
    lemma_be_value_of_bytes(id as nat, 8);
    lemma_be_value_of_bytes(amount as nat, 8);
    lemma_be_value_of_bytes(block as nat, 8);
    let data = zeros(12) + lane.foreign_token@ + be_bytes(amount as nat, 32) + be_bytes(
        block as nat,
        32,
    );
    assert(data.subrange(12, 32) =~= lane.foreign_token@);
    assert(data.subrange(56, 64) =~= be_bytes(amount as nat, 32).skip(24));
    assert(data.subrange(88, 96) =~= be_bytes(block as nat, 32).skip(24));
    assert((zeros(12) + sender).skip(12) =~= sender);
    assert((zeros(12) + recipient).skip(12) =~= recipient);
    law_deposit_log_is_read_as_written(
        s,
        route,
        lane,
        log,
        epoch,
        be_bytes(id as nat, 32),
        zeros(12) + sender,
        zeros(12) + recipient,
        data,
        hash,
    );
}

/// Whatever log a deposit was confirmed from, its amount and its block are the
/// numbers in the second and the third word of the data of the log.
pub proof fn law_confirmed_amount_is_the_logged_one(
    s: StateView,
    route: RouteView,
    log: LogView,
    epoch: u64,
    amount: u64,
    block: u64,
)
    requires
        after_evm_log(s, route, log, epoch).1 matches Ok(Some(_)),
        log_data(log) is Ok,
        log_data(log)->Ok_0.subrange(32, 64) == be_bytes(amount as nat, 32),
        log_data(log)->Ok_0.subrange(64, 96) == be_bytes(block as nat, 32),
    ensures
        after_evm_log(s, route, log, epoch).1->Ok_0->0.amount == amount,
        after_evm_log(s, route, log, epoch).1->Ok_0->0.source_block == block,
{
    lemma_pow_256();
    let data = log_data(log)->Ok_0;
    lemma_be_bytes_len(amount as nat, 32);
    lemma_be_bytes_len(block as nat, 32);
    lemma_low_bytes(amount as nat, 24, 8);
    lemma_low_bytes(block as nat, 24, 8);
    lemma_be_value_of_bytes(amount as nat, 8);
    lemma_be_value_of_bytes(block as nat, 8);
    assert(data.subrange(32, 64).subrange(24, 32) =~= be_bytes(amount as nat, 32).skip(24));
    assert(data.subrange(64, 96).subrange(24, 32) =~= be_bytes(block as nat, 32).skip(24));
}

/// A withdraw on the foreign LightPool chain is confirmed as it was made: its
/// nonce, its amount, its sender and its recipient are those of the record, and
/// the lane and the token those of the lane of the route, whatever lane and
/// token the record names. The hash is that of the foreign chain, the outbound
/// bridge and the nonce.
pub proof fn law_foreign_withdraw_is_confirmed_as_made(
    s: StateView,
    route: RouteView,
    lane: InboundTokenLane,
    w: OutboundWithdrawRecord,
    epoch: u64,
)
    requires
        s.config is Some,
        inbound_lane(s.config->0.lanes, route) == Ok::<InboundTokenLane, BridgeError>(lane),
        after_foreign_withdraw(s, route, w, epoch).1 matches Ok(Some(_)),
    ensures
        ({
            let m = after_foreign_withdraw(s, route, w, epoch).1->Ok_0->0;
            &&& w.status == OutboundWithdrawStatus::Pending
            &&& m.lane_index == lane.lane_index
            &&& m.token == lane.lp_token.bytes@
            &&& m.message_id == w.nonce
            &&& m.amount == w.amount
            &&& m.sender_foreign == w.sender@
            &&& m.recipient == w.foreign_recipient@
            &&& m.source_block == 0
            &&& m.epoch == epoch
            &&& route.foreign matches LegView::Lightpool {
                chain_id,
                outbound_bridge_contract,
                ..
            } && {
                &&& m.source_chain_id == chain_id
                &&& contract_bytes(outbound_bridge_contract) matches Ok(bridge)
                    && m.source_tx_hash == keccak(
                    be_bytes(chain_id as nat, 8) + bridge + be_bytes(w.nonce as nat, 8),
                )
            }
        }),
{
}

/// Every pending withdraw on the foreign LightPool chain that the lane has not
/// seen gives a message, where the outbound bridge of the route is named, and is
/// remembered with its nonce; one that is not pending gives none and changes
/// nothing.
pub proof fn law_pending_foreign_withdraws_are_confirmed(
    s: StateView,
    route: RouteView,
    lane: InboundTokenLane,
    w: OutboundWithdrawRecord,
    epoch: u64,
)
    requires
        s.config is Some,
        inbound_lane(s.config->0.lanes, route) == Ok::<InboundTokenLane, BridgeError>(lane),
        route.foreign is Lightpool,
        contract_bytes(route.foreign->outbound_bridge_contract) is Ok,
    ensures
        ({
            let (after, said) = after_foreign_withdraw(s, route, w, epoch);
            let fresh = !s.seen.contains(seen_key(lane.lane_index, w.nonce));
            &&& (said matches Ok(Some(_))) == (w.status == OutboundWithdrawStatus::Pending
                && fresh)
            &&& said is Ok
            &&& w.status == OutboundWithdrawStatus::Pending ==> after.seen.contains(
                seen_key(lane.lane_index, w.nonce),
            ) && after.last_foreign_withdraw_nonce >= w.nonce
            &&& w.status != OutboundWithdrawStatus::Pending ==> after == s
        }),
{
}

/// What is seen of one deposit leaves every other unseen, and touches nothing
/// else of the state of the route but the counter of the withdraws.
pub proof fn law_deposits_do_not_hide_each_other(
    s: StateView,
    route: RouteView,
    lane: InboundTokenLane,
    log: LogView,
    w: OutboundWithdrawRecord,
    epoch: u64,
    other_lane: u32,
    other_id: u64,
)
    requires
        s.config is Some,
        inbound_lane(s.config->0.lanes, route) == Ok::<InboundTokenLane, BridgeError>(lane),
    ensures
        ({
            let key = seen_key(other_lane, other_id);
            let logged = after_evm_log(s, route, log, epoch).0;
            let moved = after_foreign_withdraw(s, route, w, epoch).0;
            &&& (log.topics is Some && log.topics->0.len() >= 4 ==> topic_number(
                log.topics->0[1],
            ) != Ok::<u64, BridgeError>(other_id)) || other_lane != lane.lane_index
                ==> logged.seen.contains(key) == s.seen.contains(key)
            &&& w.nonce != other_id || other_lane != lane.lane_index ==> moved.seen.contains(key)
                == s.seen.contains(key)
            &&& logged == (StateView { seen: logged.seen, ..s })
            &&& moved == (StateView {
                seen: moved.seen,
                last_foreign_withdraw_nonce: moved.last_foreign_withdraw_nonce,
                ..s
            })
            &&& moved.last_foreign_withdraw_nonce == s.last_foreign_withdraw_nonce
                || moved.last_foreign_withdraw_nonce == w.nonce
        }),
{
}

/// A counter holds the largest number that it has met.
pub proof fn law_counters_hold_the_largest(a: u64, b: u64)
    ensures
        larger(a, b) >= a,
        larger(a, b) >= b,
        larger(a, b) == a || larger(a, b) == b,
{
}

/// A route on which nothing has happened remembers nothing but its name.
pub proof fn law_fresh_state_is_empty(route_id: Seq<char>, id: u64, key: u128)
    ensures
        ({
            let s = fresh_state(route_id);
            &&& s.route_id == route_id
            &&& s.last_scanned_block == 0
            &&& s.last_withdraw_nonce == 0
            &&& s.last_foreign_withdraw_nonce == 0
            &&& !s.seen.contains(key)
            &&& s.config is None
            &&& !s.evm.contains_key(id)
            &&& !s.lp.contains_key(id)
        }),
{
}

/// Messages are seen as they are written.
pub proof fn law_messages_are_seen_as_written(m: BridgeDepositMessage, p: OutboundDepositMessage)
    ensures
        m@.lane_index == m.lane_index && p@.lane_index == p.lane_index,
        m@.message_id == m.message_id && p@.message_id == p.message_id,
        m@.source_chain_id == m.source_chain_id && p@.source_chain_id == p.source_chain_id,
        m@.token == m.token.bytes@ && p@.token == p.token.bytes@,
        m@.amount == m.amount && p@.amount == p.amount,
        m@.sender_foreign == m.sender_foreign@ && p@.sender_foreign == p.sender_foreign@,
        m@.recipient == m.recipient@ && p@.recipient == p.recipient@,
        m@.source_tx_hash == m.source_tx_hash@ && p@.source_tx_hash == p.source_tx_hash@,
        m@.source_block == m.source_block && p@.source_block == p.source_block,
        m@.epoch == m.epoch && p@.epoch == p.epoch,
        p@.bridge == p.bridge.bytes@,
{
}

/// What cannot be a deposit on the lane of a route changes nothing: without the
/// lanes of the inbound bridge or a lane of the route it is an error, and on a
/// route to the other kind of chain it is passed over.
pub proof fn law_only_events_of_the_route_count(
    s: StateView,
    route: RouteView,
    log: LogView,
    w: OutboundWithdrawRecord,
    epoch: u64,
)
    ensures
        s.config is None ==> after_evm_log(s, route, log, epoch) == (
            s,
            Err::<Option<DepositView>, BridgeError>(BridgeError::ConfigNotLoaded),
        ),
        s.config is None && w.status == OutboundWithdrawStatus::Pending ==> after_foreign_withdraw(
            s,
            route,
            w,
            epoch,
        ) == (s, Err::<Option<DepositView>, BridgeError>(BridgeError::ConfigNotLoaded)),
        s.config matches Some(cfg) ==> (inbound_lane(cfg.lanes, route) matches Err(e) ==> {
            &&& after_evm_log(s, route, log, epoch) == (
                s,
                Err::<Option<DepositView>, BridgeError>(e),
            )
            &&& route.foreign is Lightpool && w.status == OutboundWithdrawStatus::Pending ==> {
                let (after, said) = after_foreign_withdraw(s, route, w, epoch);
                said == Err::<Option<DepositView>, BridgeError>(e) && after.seen == s.seen
            }
        }),
        s.config matches Some(cfg) ==> inbound_lane(cfg.lanes, route) is Ok
            && route.foreign is Lightpool ==> after_evm_log(s, route, log, epoch) == (
            s,
            Ok::<Option<DepositView>, BridgeError>(None),
        ),
        s.config is Some && route.foreign is Evm ==> after_foreign_withdraw(s, route, w, epoch) == (
            s,
            Ok::<Option<DepositView>, BridgeError>(None),
        ),
{
}

/// A log is taken apart only as far as it goes: without topics it is an error,
/// with fewer than four it is passed over, and neither is remembered; where the
/// data are short of three words, or the accounts or the hash cannot be read, it
/// is an error, and the deposit counts as seen.
pub proof fn law_incomplete_logs_give_no_deposit(
    s: StateView,
    route: RouteView,
    lane: InboundTokenLane,
    log: LogView,
    epoch: u64,
    data: Seq<u8>,
)
    requires
        s.config is Some,
        inbound_lane(s.config->0.lanes, route) == Ok::<InboundTokenLane, BridgeError>(lane),
        route.foreign is Evm,
        data.len() > 0,
    ensures
        ({
            let (after, said) = after_evm_log(s, route, log, epoch);
            &&& log.topics is None ==> after == s && said == Err::<
                Option<DepositView>,
                BridgeError,
            >(BridgeError::NoTopics)
            &&& log.topics matches Some(t) ==> t.len() < 4 ==> after == s && said == Ok::<
                Option<DepositView>,
                BridgeError,
            >(None)
            &&& log.topics matches Some(t) ==> t.len() >= 4 ==> (topic_number(t[1]) matches Err(e)
                ==> after == s && said == Err::<Option<DepositView>, BridgeError>(e))
            &&& log.topics matches Some(t) ==> t.len() >= 4 ==> (topic_number(t[1]) matches Ok(id)
                ==> !s.seen.contains(seen_key(lane.lane_index, id)) ==> {
                &&& after.seen == s.seen.insert(seen_key(lane.lane_index, id))
                &&& topic_account(t[2]) matches Err(e) ==> said == Err::<
                    Option<DepositView>,
                    BridgeError,
                >(e)
                &&& topic_account(t[2]) is Ok ==> (topic_account(t[3]) matches Err(e) ==> said
                    == Err::<Option<DepositView>, BridgeError>(e))
                &&& topic_account(t[2]) is Ok && topic_account(t[3]) is Ok && log.data == Some(
                    "0x"@ + hex_encoded(data),
                ) && data.len() < 96 ==> said == Err::<Option<DepositView>, BridgeError>(
                    BridgeError::LogDataTooShort,
                )
                &&& topic_account(t[2]) is Ok && topic_account(t[3]) is Ok && log.data == Some(
                    "0x"@ + hex_encoded(data),
                ) && data.len() >= 96 && data.subrange(12, 32) == lane.foreign_token@ ==> (
                log_hash(log) matches Err(e) ==> said == Err::<Option<DepositView>, BridgeError>(
                    e,
                ))
            })
        }),
{
    lemma_address_digits(data);
    law_hex_round_trip(data);
    if data.len() >= 96 {
        assert(data.subrange(0, 32).subrange(12, 32) =~= data.subrange(12, 32));
    }
}

/// A topic with fewer digits than a number or an account takes holds none.
pub proof fn law_short_topics_hold_nothing(w: Seq<u8>)
    requires
        w.len() > 0,
    ensures
        w.len() < 8 ==> topic_number("0x"@ + hex_encoded(w)) == Err::<u64, BridgeError>(
            BridgeError::NumberTopicTooShort,
        ),
        w.len() < 20 ==> topic_account("0x"@ + hex_encoded(w)) == Err::<Seq<u8>, BridgeError>(
            BridgeError::AddressTopicTooShort,
        ),
{
    lemma_topic_tail(w, 0);
}

} // verus!
