//! What holds of the names in reports and of the status.
use vstd::prelude::*;
use vstd::utf8::encode_utf8;
use crate::bytes::padded_20;
use crate::chain::{BridgeWithdrawRecord, ContractAddress, InboundTokenLane};
use crate::codec::{hex_encoded, zeros};
use crate::config::{path_report, BridgeConfigError};
use crate::events::{BridgeEventKind, BridgeEventLevel};
use crate::handle::{
    route_snapshot, summary_of, summary_place, summary_views, BridgeStatusResponse, RouteSummary,
    SummaryView,
};
use crate::labels::{event_token, evm_token_text, inbound_bytes, token_text};
use crate::route_config::{LegView, RouteView};
use crate::route_state::{seen_event, state_lanes, StateView};
use crate::router::{enabled_count, is_status_of, BridgeRouter};
use crate::text::{
    decimal, hex_body, hex_digit, is_blank, lemma_trim_of_trimmed, occurs_at, occurs_in, trimmed,
};
use crate::util::{
    contract_bytes, inbound_lane, law_evm_address_round_trip, law_hex_round_trip,
    lemma_address_digits, token_bytes, BridgeError,
};
use crate::votes::{pending_count, BucketView};
use crate::withdraws::withdraw_seen_event;

verus! {

/// The text that an address is written as: it is trimmed, longer than white
/// space, and one byte for each character.
proof fn lemma_written(b: Seq<u8>)
    requires
        b.len() > 0,
    ensures
        trimmed("0x"@ + hex_encoded(b)) == "0x"@ + hex_encoded(b),
        ("0x"@ + hex_encoded(b)).len() == 2 + 2 * b.len(),
        encode_utf8("0x"@ + hex_encoded(b)).len() == 2 + 2 * b.len(),
{
    reveal_strlit("0x");
    let t = "0x"@ + hex_encoded(b);
    lemma_trim_of_trimmed(t);
    assert forall|i: int| 0 <= i < t.len() implies (#[trigger] t[i]) as u32 <= 127 by {
        if i >= 2 {
            assert(t[i] == hex_encoded(b)[i - 2]);
        }
    }
    assert(vstd::utf8::is_ascii_chars(t));
    vstd::utf8::is_ascii_chars_encode_utf8(t);
}

/// A foreign token is named by an EVM address, or by a contract, whose eight
/// bytes the bridge knows with twelve zero bytes in front. An address that
/// begins with the byte two is left out: its text is taken for that of a
/// contract.
pub proof fn law_foreign_tokens_are_read_from_their_names(address: Seq<u8>, contract: Seq<u8>)
    requires
        address.len() == 20,
        contract.len() == 8,
    ensures
        address[0] != 2 ==> token_bytes("0x"@ + hex_encoded(address)) == Ok::<
            Seq<u8>,
            BridgeError,
        >(address),
        token_bytes("0x"@ + hex_encoded(contract)) == Ok::<Seq<u8>, BridgeError>(
            zeros(12) + contract,
        ),
{
    lemma_written(address);
    lemma_written(contract);
    law_evm_address_round_trip(address);
    if address[0] != 2 {
        lemma_no_contract_mark(address);
    }
    law_contracts_are_read_from_their_names(contract, Seq::empty());
    assert(padded_20(contract) == zeros(12) + contract);
}

/// The mark of a contract stands in the text of an address only at its front.
proof fn lemma_no_contract_mark(address: Seq<u8>)
    requires
        address.len() == 20,
        address[0] != 2,
    ensures
        !occurs_in("0x"@ + hex_encoded(address), "0x02"@),
{
    reveal_strlit("0x");
    reveal_strlit("0x02");
    let d = hex_encoded(address);
    let t = "0x"@ + d;
    assert forall|i: int| !#[trigger] occurs_at(t, "0x02"@, i) by {
        if occurs_at(t, "0x02"@, i) {
            let part = t.subrange(i, i + 4);
            assert(part[1] == t[i + 1] && part[2] == t[i + 2] && part[3] == t[i + 3]);
            if i > 0 {
                assert(t[i + 1] == d[i - 1]);
                lemma_digit(address, i - 1);
            } else {
                assert(t[2] == d[0]);
                assert(t[3] == d[1]);
                lemma_digit(address, 0);
                lemma_digit(address, 1);
                assert(hex_digit('0') == Some(0nat) && hex_digit('2') == Some(2nat));
            }
        }
    }
}

/// The digits of some bytes are their halves.
proof fn lemma_digit(b: Seq<u8>, i: int)
    requires
        0 <= i < 2 * b.len(),
    ensures
        hex_digit(hex_encoded(b)[i]) == Some(
            (if i % 2 == 0 {
                b[i / 2] / 16
            } else {
                b[i / 2] % 16
            }) as nat,
        ),
{
}

/// A text without digits names the first inbound bridge; one with digits for
/// more or fewer bytes than a contract has names none.
pub proof fn law_contracts_are_read_from_their_names(b: Seq<u8>, raw: Seq<char>)
    requires
        b.len() > 0,
    ensures
        hex_body(trimmed(raw)).len() == 0 ==> contract_bytes(raw) == Ok::<Seq<u8>, BridgeError>(
            seq![8u8, 0, 0, 0, 0, 0, 0, 1],
        ),
        b.len() == 8 ==> contract_bytes("0x"@ + hex_encoded(b)) == Ok::<Seq<u8>, BridgeError>(b),
        b.len() != 8 ==> contract_bytes("0x"@ + hex_encoded(b)) == Err::<Seq<u8>, BridgeError>(
            BridgeError::ContractLength { got: b.len() as usize },
        ),
{
    lemma_address_digits(b);
    law_hex_round_trip(b);
}

/// The inbound bridge of a route is the contract that the route names; where it
/// names none that can be read, the bridge with the number zero.
pub proof fn law_inbound_bridge_is_the_named_one(route: RouteView, contract: Seq<u8>)
    ensures
        contract_bytes(route.local_inbound.bridge_contract) == Ok::<Seq<u8>, BridgeError>(contract)
            ==> inbound_bytes(route) == contract,
        contract_bytes(route.local_inbound.bridge_contract) is Err ==> inbound_bytes(route)
            == seq![8u8, 0, 0, 0, 0, 0, 0, 0],
{
}

/// The local token of a route is the one that it names, else that of its lane.
pub proof fn law_local_token_is_named(route: RouteView, lanes: Seq<InboundTokenLane>)
    ensures
        route.local_inbound.lp_token.len() > 0 ==> token_text(route, Some(lanes)) == Some(
            route.local_inbound.lp_token,
        ) && token_text(route, None) == Some(route.local_inbound.lp_token),
        route.local_inbound.lp_token.len() == 0 ==> token_text(route, None) is None,
        route.local_inbound.lp_token.len() == 0 ==> (inbound_lane(lanes, route) matches Ok(lane)
            ==> token_text(route, Some(lanes)) == Some(
            "0x"@ + hex_encoded(lane.lp_token.bytes@),
        )),
        route.local_inbound.lp_token.len() == 0 && inbound_lane(lanes, route) is Err ==> token_text(
            route,
            Some(lanes),
        ) is None,
{
}

/// The foreign token of a route to an EVM chain is the one that it names, white
/// space aside, else that of its lane; that of a route to a LightPool chain is
/// always that of its lane.
pub proof fn law_foreign_token_is_named(route: RouteView, lanes: Seq<InboundTokenLane>)
    ensures
        ({
            let from_lane = match inbound_lane(lanes, route) {
                Ok(lane) => Some("0x"@ + hex_encoded(lane.foreign_token@)),
                Err(_) => None,
            };
            match route.foreign {
                LegView::Evm { token_address, .. } => {
                    &&& !is_blank(token_address) ==> evm_token_text(route, Some(lanes)) == Some(
                        trimmed(token_address),
                    ) && evm_token_text(route, None) == Some(trimmed(token_address))
                    &&& is_blank(token_address) ==> evm_token_text(route, Some(lanes)) == from_lane
                        && evm_token_text(route, None) is None
                },
                LegView::Lightpool { .. } => evm_token_text(route, Some(lanes)) == from_lane
                    && evm_token_text(route, None) is None,
            }
        }),
{
}

/// What happens on the foreign chain is reported with the foreign token, and
/// everything else with the local one.
pub proof fn law_reports_name_the_token_of_their_chain(
    route: RouteView,
    lanes: Option<Seq<InboundTokenLane>>,
    kind: BridgeEventKind,
)
    ensures
        event_token(BridgeEventKind::DepositSeen, route, lanes) == evm_token_text(route, lanes),
        event_token(BridgeEventKind::EvmRequestSent, route, lanes) == evm_token_text(route, lanes),
        event_token(BridgeEventKind::EvmRequestFailed, route, lanes) == evm_token_text(
            route,
            lanes,
        ),
        event_token(BridgeEventKind::EvmFinalized, route, lanes) == evm_token_text(route, lanes),
        event_token(BridgeEventKind::EvmFinalizeFailed, route, lanes) == evm_token_text(
            route,
            lanes,
        ),
        !(kind is DepositSeen) && !(kind is EvmRequestSent) && !(kind is EvmRequestFailed) && !(
        kind is EvmFinalized) && !(kind is EvmFinalizeFailed) ==> event_token(kind, route, lanes)
            == token_text(route, lanes),
{
}

/// A deposit or a withdraw that was seen is reported with its route, its number,
/// its amount and its recipient.
pub proof fn law_sightings_are_reported(
    s: StateView,
    route: RouteView,
    id: u64,
    amount: u64,
    head: Seq<char>,
    recipient: Seq<u8>,
    lanes: Seq<InboundTokenLane>,
    record: BridgeWithdrawRecord,
)
    ensures
        ({
            let e = seen_event(s, route, id, amount, head, recipient);
            &&& e.route_id == s.route_id
            &&& e.kind == BridgeEventKind::DepositSeen
            &&& e.level == BridgeEventLevel::Info
            &&& e.message_id == Some(id)
            &&& e.amount == Some(amount)
            &&& e.token == evm_token_text(route, state_lanes(s))
            &&& e.detail == head + ("0x"@ + hex_encoded(recipient))
        }),
        ({
            let e = withdraw_seen_event(s.route_id, route, lanes, record);
            &&& e.route_id == s.route_id
            &&& e.kind == BridgeEventKind::WithdrawSeen
            &&& e.level == BridgeEventLevel::Info
            &&& e.message_id == Some(record.nonce)
            &&& e.amount == Some(record.amount)
            &&& e.token == token_text(route, Some(lanes))
            &&& e.detail == "withdraw to "@ + ("0x"@ + hex_encoded(record.foreign_recipient@))
        }),
{
}

/// What the status tells of the memory of a route is what the memory holds.
pub proof fn law_summary_tells_the_memory(s: StateView)
    ensures
        summary_of(s).route_id == s.route_id,
        summary_of(s).config == s.config,
        summary_of(s).last_scanned_block == s.last_scanned_block,
        summary_of(s).last_withdraw_nonce == s.last_withdraw_nonce,
        summary_of(s).last_foreign_withdraw_nonce == s.last_foreign_withdraw_nonce,
        summary_of(s).pending_evm_withdraws == s.evm.dom().len(),
        summary_of(s).pending_lp_deposits == s.lp.dom().len(),
        summary_of(s).seen_deposits == s.seen.len(),
{
}

/// The place of the memory of a route is the first one with its id.
proof fn lemma_summary_place(active: Seq<SummaryView>, id: Seq<char>, from: nat)
    requires
        from <= active.len(),
    ensures
        from <= summary_place(active, id, from) <= active.len(),
        forall|j: int|
            from <= j < summary_place(active, id, from) ==> (#[trigger] active[j]).route_id != id,
        summary_place(active, id, from) < active.len() ==> active[summary_place(
            active,
            id,
            from,
        ) as int].route_id == id,
    decreases active.len() - from,
{
    if from < active.len() && active[from as int].route_id != id {
        lemma_summary_place(active, id, from + 1);
    }
}

/// The status of a route that runs tells its settings, the lane that it has on
/// the chain, what its memory holds, and how many of its deposits wait.
pub proof fn law_running_route_is_reported(
    route: RouteView,
    active: Seq<SummaryView>,
    book: Seq<BucketView>,
    i: int,
)
    requires
        0 <= i < active.len(),
        active[i].route_id == route.id,
        forall|j: int| 0 <= j < i ==> (#[trigger] active[j]).route_id != route.id,
    ensures
        ({
            let r = route_snapshot(route, active, book);
            let m = active[i];
            &&& r.id == route.id
            &&& r.enabled == route.enabled
            &&& r.foreign_kind == (if route.foreign is Evm {
                "evm"@
            } else {
                "lightpool"@
            })
            &&& r.inbound_contract == "0x"@ + hex_encoded(inbound_bytes(route))
            &&& r.lp_token == route.local_inbound.lp_token
            &&& r.config_loaded == (m.config is Some)
            &&& r.last_scanned_block == m.last_scanned_block
            &&& r.last_withdraw_nonce_scanned == m.last_withdraw_nonce
            &&& r.last_foreign_withdraw_nonce_scanned == m.last_foreign_withdraw_nonce
            &&& r.pending_deposits == pending_count(book, route.id)
            &&& r.pending_evm_withdraws == m.pending_evm_withdraws
            &&& r.pending_lp_deposits == m.pending_lp_deposits
            &&& r.seen_deposits == m.seen_deposits
            &&& m.config matches Some(cfg) ==> (inbound_lane(cfg.lanes, route) matches Ok(lane)
                ==> {
                &&& r.lp_token_on_chain == Some("0x"@ + hex_encoded(lane.lp_token.bytes@))
                &&& r.evm_token_on_chain == Some("0x"@ + hex_encoded(lane.foreign_token@))
                &&& r.next_withdraw_nonce == Some(lane.next_withdraw_nonce)
            })
            &&& m.config is None || inbound_lane(m.config->0.lanes, route) is Err ==> {
                &&& r.lp_token_on_chain is None
                &&& r.evm_token_on_chain is None
                &&& r.next_withdraw_nonce is None
            }
        }),
{
    lemma_summary_place(active, route.id, 0);
    let at = summary_place(active, route.id, 0) as int;
    assert(at == i) by {
        if at < i {
            assert(active[at].route_id == route.id);
        }
    }
}

/// The status of a route without a memory tells its settings and nothing more.
pub proof fn law_idle_route_is_reported(
    route: RouteView,
    active: Seq<SummaryView>,
    book: Seq<BucketView>,
)
    requires
        forall|j: int| 0 <= j < active.len() ==> (#[trigger] active[j]).route_id != route.id,
    ensures
        ({
            let r = route_snapshot(route, active, book);
            &&& r.id == route.id
            &&& r.enabled == route.enabled
            &&& r.foreign_kind == (if route.foreign is Evm {
                "evm"@
            } else {
                "lightpool"@
            })
            &&& r.lp_token == route.local_inbound.lp_token
            &&& contract_bytes(route.local_inbound.bridge_contract) matches Ok(b)
                ==> r.inbound_contract == "0x"@ + hex_encoded(b)
            &&& contract_bytes(route.local_inbound.bridge_contract) is Err
                ==> r.inbound_contract.len() == 0
            &&& !r.config_loaded
            &&& r.lp_token_on_chain is None
            &&& r.evm_token_on_chain is None
            &&& r.next_withdraw_nonce is None
            &&& r.last_scanned_block == 0
            &&& r.last_withdraw_nonce_scanned == 0
            &&& r.last_foreign_withdraw_nonce_scanned == 0
            &&& r.pending_deposits == 0
            &&& r.pending_evm_withdraws == 0
            &&& r.pending_lp_deposits == 0
            &&& r.seen_deposits == 0
        }),
{
    lemma_summary_place(active, route.id, 0);
    let at = summary_place(active, route.id, 0) as int;
    if at < active.len() {
        assert(active[at].route_id == route.id);
    }
}

/// The status tells of the whole bridge: its committee, and each of its routes
/// in the order of the configuration.
pub proof fn law_status_tells_of_every_route(
    r: BridgeStatusResponse,
    router: BridgeRouter,
    active: Seq<RouteSummary>,
    validator: Seq<char>,
    i: int,
)
    requires
        is_status_of(r, router, active, validator),
        0 <= i < router.config@.routes.len(),
    ensures
        r.running,
        r.config_path@ == router.config_path@,
        r.validator@ == validator,
        r.committee_epoch == router.committee.epoch,
        r.committee_size == router.committee.members@.len(),
        r.route_count == router.config@.routes.len(),
        r.enabled_route_count == enabled_count(router.config@.routes),
        r.routes@.len() == router.config@.routes.len(),
        r.routes@[i]@.id == router.config@.routes[i].id,
        r.routes@[i]@.enabled == router.config@.routes[i].enabled,
        r.routes@[i]@ == route_snapshot(
            router.config@.routes[i],
            summary_views(active),
            router.pending@,
        ),
{
    assert(r.routes@[i]@ == route_snapshot(
        router.config@.routes[i],
        summary_views(active),
        router.pending@,
    ));
}

/// An error about a file names the file and says what was found there.
pub proof fn law_config_errors_name_the_file(path: String, what: String)
    ensures
        ({
            let rest = " '"@ + path@ + "': "@ + what@;
            &&& (BridgeConfigError::Read { path, source: what }).text()
                == "failed to read bridge config"@ + rest
            &&& (BridgeConfigError::Parse { path, source: what }).text()
                == "failed to parse bridge config"@ + rest
            &&& (BridgeConfigError::WalletRead { path, source: what }).text()
                == "failed to read wallet"@ + rest
            &&& (BridgeConfigError::WalletParse { path, source: what }).text()
                == "failed to parse wallet"@ + rest
            &&& (BridgeConfigError::InvalidWallet { path, message: what }).text()
                == "invalid wallet"@ + rest
            &&& (BridgeConfigError::Validation { path, message: what }).text()
                == "invalid bridge config"@ + rest
            &&& (BridgeConfigError::Write { path, source: what }).text()
                == "failed to write bridge config"@ + rest
        }),
{
    assert(forall|head: Seq<char>| #[trigger]
        path_report(head, path@, what@) =~= head + (" '"@ + path@ + "': "@ + what@));
}

/// An error about an address says how many bytes were found, one about a
/// withdraw without a lane which token and lane it names, and one on a route
/// which route.
pub proof fn law_errors_say_what_was_found(
    got: usize,
    token: ContractAddress,
    lane_index: u32,
    route_id: Seq<char>,
)
    ensures
        (BridgeError::ContractLength { got }).text() == "contract address must be "@ + decimal(8)
            + " bytes, got "@ + decimal(got as nat),
        (BridgeError::AddressLength { got }).text() == "evm address must be 20 bytes, got "@
            + decimal(got as nat),
        (BridgeError::NoOutboundLane { token, lane_index }).text()
            == "no outbound lane for local token "@ + ("0x"@ + hex_encoded(token.bytes@))
            + " (lane_index="@ + decimal(lane_index as nat) + ")"@,
        BridgeError::NoInboundLane.text_on(route_id) == "no inbound lane matched for route "@
            + route_id,
        BridgeError::ConfigNotLoaded.text_on(route_id) == "route "@ + route_id
            + " inbound config not loaded"@,
        forall|e: BridgeError|
            !(e is NoInboundLane) && !(e is ConfigNotLoaded) ==> #[trigger] e.text_on(route_id)
                == e.text(),
{
}

} // verus!
