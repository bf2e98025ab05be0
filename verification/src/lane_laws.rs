//! What holds of the lanes that are chosen, and of the messages that ask a
//! foreign chain to pay out.
use vstd::prelude::*;
use crate::chain::{
    lane_with_foreign_token, lane_with_lp_token, outbound_with_foreign_token, outbound_with_index,
    outbound_with_lp_token, BridgeWithdrawRecord, BridgeWithdrawStatus, ContractAddress,
    InboundTokenLane, OutboundTokenLane,
};
use crate::codec::{be_bytes, hex_encoded, keccak, zeros};
use crate::labels::{inbound_bytes, known_lane};
use crate::route_config::{LegView, RouteView};
use crate::route_state::StateView;
use crate::text::{is_blank, lemma_trim_of_trimmed};
use crate::util::{
    contract_bytes, inbound_lane, law_contract_round_trip, leg_token, outbound_lane, token_bytes,
    BridgeError,
};
use crate::withdraws::{outbound_message, wants_local_withdraw};

verus! {

/// The first inbound lane with a local token is the first in the list.
proof fn lemma_first_with_lp_token(lanes: Seq<InboundTokenLane>, token: Seq<u8>)
    ensures
        match lane_with_lp_token(lanes, token) {
            Some(lane) => exists|i: int|
                0 <= i < lanes.len() && #[trigger] lanes[i] == lane && lane.lp_token.bytes@ == token
                    && forall|j: int| 0 <= j < i ==> (#[trigger] lanes[j]).lp_token.bytes@ != token,
            None => forall|j: int|
                0 <= j < lanes.len() ==> (#[trigger] lanes[j]).lp_token.bytes@ != token,
        },
    decreases lanes.len(),
{
    if lanes.len() > 0 {
        let rest = lanes.drop_first();
        if lanes[0].lp_token.bytes@ != token {
            lemma_first_with_lp_token(rest, token);
            assert forall|j: int| 0 < j < lanes.len() implies lanes[j] == rest[j - 1] by {}
            if let Some(lane) = lane_with_lp_token(rest, token) {
                let i = choose|i: int|
                    0 <= i < rest.len() && #[trigger] rest[i] == lane && forall|j: int|
                        0 <= j < i ==> (#[trigger] rest[j]).lp_token.bytes@ != token;
                assert(lanes[i + 1] == lane);
                assert forall|j: int| 0 <= j < i + 1 implies (
                #[trigger] lanes[j]).lp_token.bytes@ != token by {
                    if j > 0 {
                        assert(lanes[j] == rest[j - 1]);
                    }
                }
            }
        } else {
            assert(lanes[0] == lane_with_lp_token(lanes, token)->0);
        }
    }
}

/// The first inbound lane with a foreign token is the first in the list.
proof fn lemma_first_with_foreign_token(lanes: Seq<InboundTokenLane>, token: Seq<u8>)
    ensures
        match lane_with_foreign_token(lanes, token) {
            Some(lane) => exists|i: int|
                0 <= i < lanes.len() && #[trigger] lanes[i] == lane && lane.foreign_token@ == token
                    && forall|j: int| 0 <= j < i ==> (#[trigger] lanes[j]).foreign_token@ != token,
            None => forall|j: int|
                0 <= j < lanes.len() ==> (#[trigger] lanes[j]).foreign_token@ != token,
        },
    decreases lanes.len(),
{
    if lanes.len() > 0 {
        let rest = lanes.drop_first();
        if lanes[0].foreign_token@ != token {
            lemma_first_with_foreign_token(rest, token);
            assert forall|j: int| 0 < j < lanes.len() implies lanes[j] == rest[j - 1] by {}
            if let Some(lane) = lane_with_foreign_token(rest, token) {
                let i = choose|i: int|
                    0 <= i < rest.len() && #[trigger] rest[i] == lane && forall|j: int|
                        0 <= j < i ==> (#[trigger] rest[j]).foreign_token@ != token;
                assert(lanes[i + 1] == lane);
                assert forall|j: int| 0 <= j < i + 1 implies (
                #[trigger] lanes[j]).foreign_token@ != token by {
                    if j > 0 {
                        assert(lanes[j] == rest[j - 1]);
                    }
                }
            }
        } else {
            assert(lanes[0] == lane_with_foreign_token(lanes, token)->0);
        }
    }
}

/// The first outbound lane with a foreign token is one with that token.
proof fn lemma_outbound_with_foreign_token(lanes: Seq<OutboundTokenLane>, token: Seq<u8>)
    ensures
        match outbound_with_foreign_token(lanes, token) {
            Some(lane) => exists|i: int|
                0 <= i < lanes.len() && #[trigger] lanes[i] == lane && lane.foreign_token@ == token
                    && forall|j: int| 0 <= j < i ==> (#[trigger] lanes[j]).foreign_token@ != token,
            None => forall|j: int|
                0 <= j < lanes.len() ==> (#[trigger] lanes[j]).foreign_token@ != token,
        },
    decreases lanes.len(),
{
    if lanes.len() > 0 {
        let rest = lanes.drop_first();
        if lanes[0].foreign_token@ != token {
            lemma_outbound_with_foreign_token(rest, token);
            assert forall|j: int| 0 < j < lanes.len() implies lanes[j] == rest[j - 1] by {}
            if let Some(lane) = outbound_with_foreign_token(rest, token) {
                let i = choose|i: int|
                    0 <= i < rest.len() && #[trigger] rest[i] == lane && forall|j: int|
                        0 <= j < i ==> (#[trigger] rest[j]).foreign_token@ != token;
                assert(lanes[i + 1] == lane);
                assert forall|j: int| 0 <= j < i + 1 implies (
                #[trigger] lanes[j]).foreign_token@ != token by {
                    if j > 0 {
                        assert(lanes[j] == rest[j - 1]);
                    }
                }
            }
        } else {
            assert(lanes[0] == outbound_with_foreign_token(lanes, token)->0);
        }
    }
}

/// The first outbound lane with a number is one with that number.
proof fn lemma_outbound_with_index(lanes: Seq<OutboundTokenLane>, index: u32)
    ensures
        match outbound_with_index(lanes, index) {
            Some(lane) => exists|i: int|
                0 <= i < lanes.len() && #[trigger] lanes[i] == lane && lane.lane_index == index
                    && forall|j: int| 0 <= j < i ==> (#[trigger] lanes[j]).lane_index != index,
            None => forall|j: int|
                0 <= j < lanes.len() ==> (#[trigger] lanes[j]).lane_index != index,
        },
    decreases lanes.len(),
{
    if lanes.len() > 0 {
        let rest = lanes.drop_first();
        if lanes[0].lane_index != index {
            lemma_outbound_with_index(rest, index);
            assert forall|j: int| 0 < j < lanes.len() implies lanes[j] == rest[j - 1] by {}
            if let Some(lane) = outbound_with_index(rest, index) {
                let i = choose|i: int|
                    0 <= i < rest.len() && #[trigger] rest[i] == lane && forall|j: int|
                        0 <= j < i ==> (#[trigger] rest[j]).lane_index != index;
                assert(lanes[i + 1] == lane);
                assert forall|j: int| 0 <= j < i + 1 implies (#[trigger] lanes[j]).lane_index
                    != index by {
                    if j > 0 {
                        assert(lanes[j] == rest[j - 1]);
                    }
                }
            }
        } else {
            assert(lanes[0] == outbound_with_index(lanes, index)->0);
        }
    }
}

/// The first outbound lane with a local token is one with that token.
proof fn lemma_outbound_with_lp_token(lanes: Seq<OutboundTokenLane>, token: Seq<u8>)
    ensures
        match outbound_with_lp_token(lanes, token) {
            Some(lane) => exists|i: int|
                0 <= i < lanes.len() && #[trigger] lanes[i] == lane && lane.lp_token.bytes@ == token
                    && forall|j: int| 0 <= j < i ==> (#[trigger] lanes[j]).lp_token.bytes@ != token,
            None => forall|j: int|
                0 <= j < lanes.len() ==> (#[trigger] lanes[j]).lp_token.bytes@ != token,
        },
    decreases lanes.len(),
{
    if lanes.len() > 0 {
        let rest = lanes.drop_first();
        if lanes[0].lp_token.bytes@ != token {
            lemma_outbound_with_lp_token(rest, token);
            assert forall|j: int| 0 < j < lanes.len() implies lanes[j] == rest[j - 1] by {}
            if let Some(lane) = outbound_with_lp_token(rest, token) {
                let i = choose|i: int|
                    0 <= i < rest.len() && #[trigger] rest[i] == lane && forall|j: int|
                        0 <= j < i ==> (#[trigger] rest[j]).lp_token.bytes@ != token;
                assert(lanes[i + 1] == lane);
                assert forall|j: int| 0 <= j < i + 1 implies (
                #[trigger] lanes[j]).lp_token.bytes@ != token by {
                    if j > 0 {
                        assert(lanes[j] == rest[j - 1]);
                    }
                }
            }
        } else {
            assert(lanes[0] == outbound_with_lp_token(lanes, token)->0);
        }
    }
}

/// A withdraw leaves by the first outbound lane whose foreign token is the token
/// withdrawn, with twelve zero bytes in front; where there is none, by the first
/// with the number of its lane; where there is none either, by the first with
/// its token as the local one; and else by none.
pub proof fn law_outbound_lane_is_the_best_match(
    lanes: Seq<OutboundTokenLane>,
    token: ContractAddress,
    index: u32,
    i: int,
)
    requires
        0 <= i < lanes.len(),
    ensures
        outbound_lane(lanes, token.bytes@, index) matches Some(lane) ==> {
            &&& lanes.contains(lane)
            &&& lane.foreign_token@ == zeros(12) + token.bytes@ || lane.lane_index == index
                || lane.lp_token.bytes@ == token.bytes@
        },
        lanes[i].foreign_token@ == zeros(12) + token.bytes@ ==> (outbound_lane(
            lanes,
            token.bytes@,
            index,
        ) matches Some(lane) && lane.foreign_token@ == zeros(12) + token.bytes@ && exists|k: int|
            0 <= k <= i && #[trigger] lanes[k] == lane),
        lanes[i].lane_index == index && (forall|j: int|
            0 <= j < lanes.len() ==> (#[trigger] lanes[j]).foreign_token@ != zeros(12)
                + token.bytes@) ==> (outbound_lane(lanes, token.bytes@, index) matches Some(lane)
            && lane.lane_index == index && exists|k: int|
            0 <= k <= i && #[trigger] lanes[k] == lane),
        lanes[i].lp_token.bytes@ == token.bytes@ && (forall|j: int|
            0 <= j < lanes.len() ==> (#[trigger] lanes[j]).foreign_token@ != zeros(12)
                + token.bytes@ && lanes[j].lane_index != index) ==> (outbound_lane(
            lanes,
            token.bytes@,
            index,
        ) matches Some(lane) && lane.lp_token.bytes@ == token.bytes@ && exists|k: int|
            0 <= k <= i && #[trigger] lanes[k] == lane),
{
    let padded = zeros(12) + token.bytes@;
    lemma_outbound_with_foreign_token(lanes, padded);
    lemma_outbound_with_index(lanes, index);
    lemma_outbound_with_lp_token(lanes, token.bytes@);
    if let Some(lane) = outbound_with_foreign_token(lanes, padded) {
        let k = choose|k: int|
            0 <= k < lanes.len() && #[trigger] lanes[k] == lane && forall|j: int|
                0 <= j < k ==> (#[trigger] lanes[j]).foreign_token@ != padded;
        assert(lanes[k].foreign_token@ == padded);
        assert(lanes[i].foreign_token@ == padded ==> k <= i);
    } else if let Some(lane) = outbound_with_index(lanes, index) {
        let k = choose|k: int|
            0 <= k < lanes.len() && #[trigger] lanes[k] == lane && forall|j: int|
                0 <= j < k ==> (#[trigger] lanes[j]).lane_index != index;
        assert(lanes[k].lane_index == index);
        assert(lanes[i].lane_index == index ==> k <= i);
    } else if let Some(lane) = outbound_with_lp_token(lanes, token.bytes@) {
        let k = choose|k: int|
            0 <= k < lanes.len() && #[trigger] lanes[k] == lane && forall|j: int|
                0 <= j < k ==> (#[trigger] lanes[j]).lp_token.bytes@ != token.bytes@;
        assert(lanes[k].lp_token.bytes@ == token.bytes@);
        assert(lanes[i].lp_token.bytes@ == token.bytes@ ==> k <= i);
    }
}

/// The lane and the token of a payout belong together: they are those of one
/// lane of the outbound bridge, the one that the withdraw leaves by. What is
/// paid out, to whom, for whom and under which number is what the withdraw
/// says; the hash is that of the local chain, the inbound bridge and the nonce.
pub proof fn law_payout_is_made_in_its_lane(
    bridge: Seq<u8>,
    lanes: Seq<OutboundTokenLane>,
    epoch: u64,
    record: BridgeWithdrawRecord,
    local_chain_id: u64,
    route: RouteView,
)
    requires
        outbound_lane(lanes, record.token.bytes@, record.lane_index) is Some,
    ensures
        ({
            let lane = outbound_lane(lanes, record.token.bytes@, record.lane_index)->0;
            let m = outbound_message(
                bridge,
                lane,
                epoch,
                record,
                local_chain_id,
                inbound_bytes(route),
            );
            &&& exists|i: int|
                0 <= i < lanes.len() && (#[trigger] lanes[i]).lane_index == m.lane_index
                    && lanes[i].lp_token.bytes@ == m.token && lanes[i] == lane
            &&& m.lane_index == lane.lane_index
            &&& m.token == lane.lp_token.bytes@
            &&& m.bridge == bridge
            &&& m.message_id == record.nonce
            &&& m.amount == record.amount
            &&& m.sender_foreign == record.sender@
            &&& m.recipient == record.foreign_recipient@
            &&& m.source_chain_id == local_chain_id
            &&& m.source_block == 0
            &&& m.epoch == epoch
            &&& contract_bytes(route.local_inbound.bridge_contract) matches Ok(inbound) ==> (
            m.source_tx_hash == keccak(
                be_bytes(local_chain_id as nat, 8) + inbound + be_bytes(record.nonce as nat, 8),
            ))
        }),
{
    let token = record.token.bytes@;
    lemma_outbound_with_foreign_token(lanes, zeros(12) + token);
    lemma_outbound_with_index(lanes, record.lane_index);
    lemma_outbound_with_lp_token(lanes, token);
}

/// The lane of a route is one of the lanes of its inbound bridge, and the first
/// with the local token that the route names, where it names one that has a
/// lane.
pub proof fn law_lane_has_the_local_token(
    lanes: Seq<InboundTokenLane>,
    route: RouteView,
    token: ContractAddress,
    i: int,
)
    requires
        route.local_inbound.lp_token == "0x"@ + hex_encoded(token.bytes@),
        0 <= i < lanes.len(),
        lanes[i].lp_token.bytes@ == token.bytes@,
    ensures
        inbound_lane(lanes, route) matches Ok(lane) && {
            &&& lane.lp_token.bytes@ == token.bytes@
            &&& exists|k: int| 0 <= k <= i && #[trigger] lanes[k] == lane
        },
{
    law_contract_round_trip(token);
    assert(token.text() == "0x"@ + hex_encoded(token.bytes@));
    lemma_not_blank(token.bytes@);
    lemma_first_with_lp_token(lanes, token.bytes@);
    let lane = lane_with_lp_token(lanes, token.bytes@)->0;
    let k = choose|k: int|
        0 <= k < lanes.len() && #[trigger] lanes[k] == lane && forall|j: int|
            0 <= j < k ==> (#[trigger] lanes[j]).lp_token.bytes@ != token.bytes@;
    assert(k <= i);
}

/// The text of a contract or an address is not blank.
proof fn lemma_not_blank(b: Seq<u8>)
    requires
        b.len() > 0,
    ensures
        !is_blank("0x"@ + hex_encoded(b)),
{
    reveal_strlit("0x");
    lemma_trim_of_trimmed("0x"@ + hex_encoded(b));
}

/// Where a route names no local token, or one without a lane, its lane is the
/// first with the foreign token that it names.
pub proof fn law_lane_has_the_foreign_token(
    lanes: Seq<InboundTokenLane>,
    route: RouteView,
    token: Seq<u8>,
    i: int,
)
    requires
        is_blank(route.local_inbound.lp_token) || contract_bytes(
            route.local_inbound.lp_token,
        ) is Ok && forall|j: int|
            0 <= j < lanes.len() ==> Ok::<Seq<u8>, BridgeError>(
                (#[trigger] lanes[j]).lp_token.bytes@,
            ) != contract_bytes(route.local_inbound.lp_token),
        !is_blank(leg_token(route.foreign)),
        token_bytes(leg_token(route.foreign)) == Ok::<Seq<u8>, BridgeError>(token),
        0 <= i < lanes.len(),
        lanes[i].foreign_token@ == token,
    ensures
        inbound_lane(lanes, route) matches Ok(lane) && {
            &&& lane.foreign_token@ == token
            &&& exists|k: int| 0 <= k <= i && #[trigger] lanes[k] == lane
        },
{
    if !is_blank(route.local_inbound.lp_token) {
        lemma_first_with_lp_token(lanes, contract_bytes(route.local_inbound.lp_token)->Ok_0);
    }
    lemma_first_with_foreign_token(lanes, token);
    let lane = lane_with_foreign_token(lanes, token)->0;
    let k = choose|k: int|
        0 <= k < lanes.len() && #[trigger] lanes[k] == lane && forall|j: int|
            0 <= j < k ==> (#[trigger] lanes[j]).foreign_token@ != token;
    assert(k <= i);
}

/// A lane that is found for a route is one of the lanes of the bridge, and has
/// the local token or the foreign token that the route names.
pub proof fn law_lane_belongs_to_the_route(lanes: Seq<InboundTokenLane>, route: RouteView)
    ensures
        inbound_lane(lanes, route) matches Ok(lane) ==> {
            &&& lanes.contains(lane)
            &&& contract_bytes(route.local_inbound.lp_token) == Ok::<Seq<u8>, BridgeError>(
                lane.lp_token.bytes@,
            ) || (match route.foreign {
                LegView::Evm { token_address, .. } => token_bytes(token_address),
                LegView::Lightpool { foreign_token, .. } => token_bytes(foreign_token),
            }) == Ok::<Seq<u8>, BridgeError>(lane.foreign_token@)
        },
        known_lane(route, Some(lanes)) == inbound_lane(lanes, route).ok(),
        known_lane(route, None) is None,
{
    if contract_bytes(route.local_inbound.lp_token) is Ok {
        lemma_first_with_lp_token(lanes, contract_bytes(route.local_inbound.lp_token)->Ok_0);
    }
    if token_bytes(leg_token(route.foreign)) is Ok {
        lemma_first_with_foreign_token(lanes, token_bytes(leg_token(route.foreign))->Ok_0);
    }
}

/// A pending withdraw is dealt with until its payout was submitted or refused;
/// one that is not pending never is.
pub proof fn law_pending_withdraws_are_wanted(s: StateView, record: BridgeWithdrawRecord)
    ensures
        record.status != BridgeWithdrawStatus::Pending ==> !wants_local_withdraw(s, record),
        record.status == BridgeWithdrawStatus::Pending && !s.lp.contains_key(record.nonce)
            ==> wants_local_withdraw(s, record),
        record.status == BridgeWithdrawStatus::Pending && s.lp.contains_key(record.nonce)
            && !s.lp[record.nonce].submitted && !s.lp[record.nonce].failed
            ==> wants_local_withdraw(s, record),
        s.lp.contains_key(record.nonce) && (s.lp[record.nonce].submitted
            || s.lp[record.nonce].failed) ==> !wants_local_withdraw(s, record),
{
}

/// A route has no lane where the local token that it names cannot be read, or,
/// if no lane has that token, where it names no foreign token, one that cannot
/// be read, or one that no lane has.
pub proof fn law_routes_without_a_lane(lanes: Seq<InboundTokenLane>, route: RouteView)
    ensures
        !is_blank(route.local_inbound.lp_token) ==> (contract_bytes(
            route.local_inbound.lp_token,
        ) matches Err(e) ==> inbound_lane(lanes, route) == Err::<InboundTokenLane, BridgeError>(e)),
        (is_blank(route.local_inbound.lp_token) || lanes.len() == 0 && contract_bytes(
            route.local_inbound.lp_token,
        ) is Ok) ==> {
            let token = match route.foreign {
                LegView::Evm { token_address, .. } => token_address,
                LegView::Lightpool { foreign_token, .. } => foreign_token,
            };
            &&& is_blank(token) ==> inbound_lane(lanes, route) == Err::<
                InboundTokenLane,
                BridgeError,
            >(BridgeError::NoInboundLane)
            &&& !is_blank(token) ==> (token_bytes(token) matches Err(e) ==> inbound_lane(
                lanes,
                route,
            ) == Err::<InboundTokenLane, BridgeError>(e))
            &&& !is_blank(token) ==> (token_bytes(token) matches Ok(t) ==> (forall|j: int|
                0 <= j < lanes.len() ==> (#[trigger] lanes[j]).foreign_token@ != t)
                ==> inbound_lane(lanes, route) == Err::<InboundTokenLane, BridgeError>(
                BridgeError::NoInboundLane,
            ))
        },
{
    if token_bytes(leg_token(route.foreign)) is Ok {
        lemma_first_with_foreign_token(lanes, token_bytes(leg_token(route.foreign))->Ok_0);
    }
    if contract_bytes(route.local_inbound.lp_token) is Ok {
        lemma_first_with_lp_token(lanes, contract_bytes(route.local_inbound.lp_token)->Ok_0);
    }
}

} // verus!
