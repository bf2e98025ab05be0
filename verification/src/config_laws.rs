//! What holds of the configuration and of the changes to it.
use vstd::prelude::*;
use vstd::utf8::encode_utf8;
use crate::admin::{non_empty, route_created, route_place, EventFilter};
use crate::codec::{hex_decoded, hex_encoded, keccak};
use crate::config::{default_config, poll_wait, wallet_secret, ConfigView};
use crate::events::{
    kind_name, level_name, page_count, BridgeEventKind, BridgeEventLevel, BridgeEventRecord,
};
use crate::evm::text_of;
use crate::route_config::{
    config_problem, first_enabled, id_taken, lead_route, normalized, route_problem,
    LegView, RouteView,
};
use crate::router::{
    deposit_topic_text, enabled_count, id_place, lemma_id_place, slots, subscribes, BridgeRouter,
    SlotView, SubscriberKind,
};
use crate::text::{decimal, is_blank, trimmed};
use crate::util::law_hex_round_trip;

verus! {

/// The key of a wallet is read back from its digits, white space around them
/// aside; digits of another length are refused, with the length that was found.
pub proof fn law_wallet_key_is_read_back(key: Seq<u8>, text: Seq<char>)
    requires
        trimmed(text) == hex_encoded(key),
    ensures
        key.len() == 32 ==> wallet_secret(text) == Ok::<Seq<u8>, Seq<char>>(key),
        key.len() != 32 ==> wallet_secret(text) == Err::<Seq<u8>, Seq<char>>(
            "private_key must be 32 bytes, got "@ + decimal(key.len()),
        ),
{
    law_hex_round_trip(key);
}

/// A text that is not hexadecimal is no key.
pub proof fn law_only_digits_are_a_key(text: Seq<char>)
    requires
        hex_decoded(encode_utf8(trimmed(text))) is Err,
    ensures
        wallet_secret(text) == Err::<Seq<u8>, Seq<char>>(
            "invalid private_key hex: "@ + hex_decoded(encode_utf8(trimmed(text)))->Err_0.text(),
        ),
{
}

/// The first route that is on comes before no other that is.
proof fn lemma_first_enabled(routes: Seq<RouteView>, from: nat)
    requires
        from <= routes.len(),
    ensures
        from <= first_enabled(routes, from) <= routes.len(),
        forall|j: int|
            from <= j < first_enabled(routes, from) ==> !(#[trigger] routes[j]).enabled,
        first_enabled(routes, from) < routes.len() ==> routes[first_enabled(
            routes,
            from,
        ) as int].enabled,
    decreases routes.len() - from,
{
    if from < routes.len() && !routes[from as int].enabled {
        lemma_first_enabled(routes, from + 1);
    }
}

/// Bringing a configuration into order fills gaps and changes nothing that is
/// set: routes, addresses and all other settings that are there stay, and an
/// address of the local node that is missing is that of the other setting.
pub proof fn law_normalize_keeps_what_is_set(cfg: ConfigView)
    ensures
        ({
            let n = normalized(cfg);
            &&& n.enabled == cfg.enabled
            &&& n.wallet_path == cfg.wallet_path
            &&& n.cast_bin == cfg.cast_bin
            &&& n.poll_interval_ms == cfg.poll_interval_ms
            &&& n.local_chain_id == cfg.local_chain_id
            &&& cfg.routes.len() > 0 ==> n.routes == cfg.routes
            &&& cfg.evm_rpc_url.len() > 0 ==> n.evm_rpc_url == cfg.evm_rpc_url
            &&& cfg.evm_bridge_address.len() > 0 ==> n.evm_bridge_address
                == cfg.evm_bridge_address
            &&& cfg.local_rpc_url.len() > 0 ==> n.local_rpc_url == cfg.local_rpc_url
            &&& cfg.lightpool_rpc_url.len() > 0 ==> n.lightpool_rpc_url == cfg.lightpool_rpc_url
            &&& cfg.local_rpc_url.len() == 0 ==> n.local_rpc_url == cfg.lightpool_rpc_url
            &&& cfg.lightpool_rpc_url.len() == 0 ==> n.lightpool_rpc_url == cfg.local_rpc_url
        }),
{
}

/// A configuration without routes that names a bridge gets one route, to that
/// bridge; one that names none gets none.
pub proof fn law_old_settings_become_a_route(cfg: ConfigView)
    requires
        cfg.routes.len() == 0,
    ensures
        is_blank(cfg.evm_bridge_address) ==> normalized(cfg).routes.len() == 0,
        !is_blank(cfg.evm_bridge_address) ==> {
            let routes = normalized(cfg).routes;
            &&& routes.len() == 1
            &&& routes[0].id == "reth-default"@
            &&& routes[0].enabled
            &&& routes[0].local_inbound.bridge_contract.len() == 0
            &&& routes[0].local_inbound.lp_token.len() == 0
            &&& routes[0].foreign matches LegView::Evm {
                rpc_url,
                chain_id,
                bridge_address,
                token_address,
                confirmations,
                start_block,
            } && {
                &&& rpc_url == cfg.evm_rpc_url
                &&& chain_id == 1337
                &&& bridge_address == cfg.evm_bridge_address
                &&& token_address.len() == 0
                &&& confirmations == cfg.evm_confirmations
                &&& start_block == cfg.start_block
            }
        },
{
}

/// The settings outside the list follow the first route that is on, or the first
/// route where none is: confirmations and first block always, the addresses
/// where they are missing. A route to a LightPool chain leaves them.
pub proof fn law_settings_follow_the_leading_route(cfg: ConfigView, i: int)
    requires
        0 <= i < cfg.routes.len(),
        cfg.routes[i].enabled && (forall|j: int|
            0 <= j < i ==> !(#[trigger] cfg.routes[j]).enabled) || i == 0 && (forall|j: int|
            0 <= j < cfg.routes.len() ==> !(#[trigger] cfg.routes[j]).enabled),
    ensures
        lead_route(cfg.routes) == Some(cfg.routes[i]),
        cfg.routes[i].foreign matches LegView::Evm {
            rpc_url,
            bridge_address,
            confirmations,
            start_block,
            ..
        } ==> {
            let n = normalized(cfg);
            &&& n.evm_confirmations == confirmations
            &&& n.start_block == start_block
            &&& cfg.evm_rpc_url.len() == 0 ==> n.evm_rpc_url == rpc_url
            &&& cfg.evm_bridge_address.len() == 0 ==> n.evm_bridge_address == bridge_address
        },
        cfg.routes[i].foreign is Lightpool ==> {
            let n = normalized(cfg);
            &&& n.evm_confirmations == cfg.evm_confirmations
            &&& n.start_block == cfg.start_block
            &&& n.evm_rpc_url == cfg.evm_rpc_url
            &&& n.evm_bridge_address == cfg.evm_bridge_address
        },
{
    lemma_first_enabled(cfg.routes, 0);
    let at = first_enabled(cfg.routes, 0) as int;
    if cfg.routes[i].enabled {
        assert(at == i) by {
            if at < i {
                assert(cfg.routes[at].enabled);
            }
        }
    } else {
        assert(at == cfg.routes.len()) by {
            if at < cfg.routes.len() {
                assert(cfg.routes[at].enabled);
            }
        }
    }
}

/// A list of routes is accepted if every id is more than white space and used
/// once, and every route that is on names what its foreign end needs.
pub proof fn law_complete_routes_are_accepted(routes: Seq<RouteView>)
    requires
        forall|i: int| 0 <= i < routes.len() ==> !is_blank((#[trigger] routes[i]).id),
        forall|i: int, j: int|
            0 <= i < j < routes.len() ==> trimmed((#[trigger] routes[i]).id) != trimmed(
                (#[trigger] routes[j]).id,
            ),
        forall|i: int|
            0 <= i < routes.len() && (#[trigger] routes[i]).enabled ==> match routes[i].foreign {
                LegView::Evm { rpc_url, bridge_address, .. } => !is_blank(rpc_url) && !is_blank(
                    bridge_address,
                ),
                LegView::Lightpool { rpc_url, outbound_bridge_contract, foreign_token, .. } => {
                    !is_blank(rpc_url) && !is_blank(outbound_bridge_contract) && !is_blank(
                        foreign_token,
                    )
                },
            },
    ensures
        config_problem(routes) is None,
    decreases routes.len(),
{
    if routes.len() > 0 {
        let front = routes.drop_last();
        let last = routes.len() - 1;
        assert forall|i: int| 0 <= i < front.len() implies #[trigger] front[i] == routes[i] by {}
        law_complete_routes_are_accepted(front);
        assert(routes[last] == routes.last());
        assert(!id_taken(front, trimmed(routes.last().id))) by {
            if id_taken(front, trimmed(routes.last().id)) {
                let i = choose|i: int|
                    0 <= i < front.len() && trimmed(#[trigger] front[i].id) == trimmed(
                        routes.last().id,
                    );
                assert(front[i] == routes[i]);
                assert(trimmed(routes[i].id) != trimmed(routes[last].id));
            }
        }
    }
}

/// The first route with something wrong decides what is said of a list: one
/// route more is looked at only where nothing is wrong with those before it.
pub proof fn law_first_problem_is_reported(routes: Seq<RouteView>, route: RouteView)
    ensures
        config_problem(Seq::empty()) is None,
        config_problem(routes) is Some ==> config_problem(routes.push(route)) == config_problem(
            routes,
        ),
        config_problem(routes) is None ==> config_problem(routes.push(route)) == route_problem(
            route,
            routes,
        ),
{
    assert(routes.push(route).drop_last() =~= routes);
}

/// What is wrong with a route is said in these words: an id that is missing or
/// taken, and, of a route that is on, the first setting that it lacks.
pub proof fn law_problems_are_named(route: RouteView, earlier: Seq<RouteView>)
    ensures
        is_blank(route.id) ==> route_problem(route, earlier) == Some(
            "route id must not be empty"@,
        ),
        !is_blank(route.id) && (exists|i: int|
            0 <= i < earlier.len() && trimmed(#[trigger] earlier[i].id) == trimmed(route.id))
            ==> route_problem(route, earlier) == Some("duplicate route id: "@ + trimmed(route.id)),
        !is_blank(route.id) && (forall|i: int|
            0 <= i < earlier.len() ==> trimmed(#[trigger] earlier[i].id) != trimmed(route.id)) ==> {
            let name = "route "@ + trimmed(route.id);
            &&& !route.enabled ==> route_problem(route, earlier) is None
            &&& route.enabled ==> route_problem(route, earlier) == (match route.foreign {
                LegView::Evm { rpc_url, bridge_address, .. } => if is_blank(rpc_url) {
                    Some(name + ": evm rpc_url is empty"@)
                } else if is_blank(bridge_address) {
                    Some(name + ": evm bridge_address is empty"@)
                } else {
                    None
                },
                LegView::Lightpool { rpc_url, outbound_bridge_contract, foreign_token, .. } => {
                    if is_blank(rpc_url) {
                        Some(name + ": lightpool rpc_url is empty"@)
                    } else if is_blank(outbound_bridge_contract) {
                        Some(name + ": outbound_bridge_contract is empty"@)
                    } else if is_blank(foreign_token) {
                        Some(name + ": foreign_token is empty"@)
                    } else {
                        None
                    }
                },
            })
        },
{
}

/// A withdraw that waits is looked at as often as the configuration says, else
/// every second.
pub proof fn law_wait_is_the_configured_one(ms: u64)
    ensures
        poll_wait(Some(ms)) == ms,
        poll_wait(None) == 1000,
{
}

/// A route is created at the end of the list, if its id is more than white space
/// and no route has it; else nothing is created, for the reason given.
pub proof fn law_new_route_is_added_once(routes: Seq<RouteView>, route: RouteView)
    ensures
        is_blank(route.id) ==> route_created(routes, route) == Err::<Seq<RouteView>, Seq<char>>(
            "route id must not be empty"@,
        ),
        !is_blank(route.id) && (exists|i: int|
            0 <= i < routes.len() && (#[trigger] routes[i]).id == route.id) ==> route_created(
            routes,
            route,
        ) == Err::<Seq<RouteView>, Seq<char>>("route id already exists: "@ + route.id),
        !is_blank(route.id) && (forall|i: int|
            0 <= i < routes.len() ==> (#[trigger] routes[i]).id != route.id) ==> route_created(
            routes,
            route,
        ) == Ok::<Seq<RouteView>, Seq<char>>(routes.push(route)),
{
    lemma_route_place(routes, route.id, 0);
    let at = route_place(routes, route.id, 0) as int;
    if at < routes.len() {
        assert(routes[at].id == route.id);
    }
}

/// The place of a route is the first one with its id.
proof fn lemma_route_place(routes: Seq<RouteView>, id: Seq<char>, from: nat)
    requires
        from <= routes.len(),
    ensures
        from <= route_place(routes, id, from) <= routes.len(),
        forall|j: int|
            from <= j < route_place(routes, id, from) ==> (#[trigger] routes[j]).id != id,
        route_place(routes, id, from) < routes.len() ==> routes[route_place(
            routes,
            id,
            from,
        ) as int].id == id,
    decreases routes.len() - from,
{
    if from < routes.len() && routes[from as int].id != id {
        lemma_route_place(routes, id, from + 1);
    }
}

/// The route that is changed is the first one with its id; where no route has
/// the id there is none.
pub proof fn law_changed_route_is_the_first(routes: Seq<RouteView>, id: Seq<char>, i: int)
    requires
        0 <= i < routes.len(),
    ensures
        routes[i].id == id && (forall|j: int| 0 <= j < i ==> (#[trigger] routes[j]).id != id)
            ==> route_place(routes, id, 0) == i,
        (forall|j: int| 0 <= j < routes.len() ==> (#[trigger] routes[j]).id != id) ==> route_place(
            routes,
            id,
            0,
        ) == routes.len(),
{
    lemma_route_place(routes, id, 0);
    let at = route_place(routes, id, 0) as int;
    if at < routes.len() {
        assert(routes[at].id == id);
    }
}

/// A filter lets through the events of its route and its token, and where it
/// names neither every event; an empty name is no name.
pub proof fn law_filter_lets_through_what_it_names(
    filter: EventFilter,
    event: BridgeEventRecord,
    name: Seq<char>,
)
    ensures
        filter.route_id is None && filter.token is None ==> filter.wants(event),
        filter.route_id matches Some(r) ==> r@ != event.route_id@ ==> !filter.wants(event),
        filter.token matches Some(t) ==> text_of(event.token) != Some(t@) ==> !filter.wants(event),
        text_of(filter.route_id) == Some(event.route_id@) && filter.token is None ==> filter.wants(
            event,
        ),
        filter.token is Some && text_of(filter.token) == text_of(event.token)
            && filter.route_id is None ==> filter.wants(event),
        name.len() == 0 ==> non_empty(Some(name)) is None,
        name.len() > 0 ==> non_empty(Some(name)) == Some(name),
        non_empty(None) is None,
{
}

/// The routes that are on are counted one by one.
pub proof fn law_enabled_routes_are_counted(routes: Seq<RouteView>, route: RouteView)
    ensures
        enabled_count(Seq::empty()) == 0,
        enabled_count(routes.push(route)) == enabled_count(routes) + (if route.enabled {
            1int
        } else {
            0
        }),
{
    assert(routes.push(route).drop_last() =~= routes);
}

/// A route that is on is watched on the local chain and on its foreign chain, a
/// route that is off on neither.
pub proof fn law_routes_are_watched_at_both_ends(route: RouteView)
    ensures
        !route.enabled ==> !subscribes(route, SubscriberKind::Evm) && !subscribes(
            route,
            SubscriberKind::LpForeign,
        ) && !subscribes(route, SubscriberKind::LpLocal),
        route.enabled ==> subscribes(route, SubscriberKind::LpLocal),
        route.enabled ==> subscribes(route, SubscriberKind::Evm) == (route.foreign is Evm),
        route.enabled ==> subscribes(route, SubscriberKind::LpForeign) == (
        route.foreign is Lightpool),
{
}

/// The memories of the routes are laid out in the order of the routes that are
/// on: a route whose id was known before keeps its memory, another gets a new
/// one.
pub proof fn law_memories_follow_the_routes(
    routes: Seq<RouteView>,
    route: RouteView,
    previous: Seq<Seq<char>>,
    i: int,
)
    ensures
        slots(Seq::empty(), previous).len() == 0,
        !route.enabled ==> slots(routes.push(route), previous) == slots(routes, previous),
        route.enabled && !previous.contains(route.id) ==> slots(routes.push(route), previous)
            == slots(routes, previous).push(SlotView::Fresh(route.id)),
        route.enabled && 0 <= i < previous.len() && previous[i] == route.id && (forall|j: int|
            0 <= j < i ==> #[trigger] previous[j] != route.id) ==> slots(
            routes.push(route),
            previous,
        ) == slots(routes, previous).push(SlotView::Existing(i as nat)),
{
    assert(routes.push(route).drop_last() =~= routes);
    lemma_id_place(previous, route.id, 0);
    let at = id_place(previous, route.id, 0) as int;
    if at < previous.len() {
        assert(previous[at] == route.id);
        assert(previous.contains(route.id));
    }
}

/// Deposits are looked for by the hash of the declaration of their log.
pub proof fn law_deposit_topic_is_the_hash_of_its_declaration()
    ensures
        deposit_topic_text() == "0x"@ + hex_encoded(
            keccak(
                encode_utf8("DepositInitiated(uint64,address,address,address,uint64,uint64)"@),
            ),
        ),
{
}

/// No page of events is empty: there are no more pages than it takes.
pub proof fn law_no_page_is_empty(total: u64, page_size: u32)
    requires
        page_size > 0,
    ensures
        total == 0 ==> page_count(total, page_size) == 0,
        total > 0 ==> page_count(total, page_size) >= 1 && (page_count(total, page_size) - 1)
            * page_size < total,
{
    let size = page_size as int;
    if total > 0 {
        let n = (total + size - 1) / size;
        assert(n * size <= total + size - 1 < (n + 1) * size) by (nonlinear_arith)
            requires
                size > 0,
                n == (total + size - 1) / size,
        ;
        assert(n >= 1 && (n - 1) * size < total) by (nonlinear_arith)
            requires
                size > 0,
                total > 0,
                n * size <= total + size - 1,
                total + size - 1 < (n + 1) * size,
        ;
    }
}

/// Events are stored under these names of their kinds and levels.
pub proof fn law_events_are_stored_under_their_names()
    ensures
        kind_name(BridgeEventKind::DepositSeen) == "deposit_seen"@,
        kind_name(BridgeEventKind::ConfirmDepSubmitted) == "confirm_dep_submitted"@,
        kind_name(BridgeEventKind::ConfirmDepOk) == "confirm_dep_ok"@,
        kind_name(BridgeEventKind::ConfirmDepFailed) == "confirm_dep_failed"@,
        kind_name(BridgeEventKind::WithdrawSeen) == "withdraw_seen"@,
        kind_name(BridgeEventKind::EvmRequestSent) == "evm_request_sent"@,
        kind_name(BridgeEventKind::EvmRequestFailed) == "evm_request_failed"@,
        kind_name(BridgeEventKind::EvmFinalized) == "evm_finalized"@,
        kind_name(BridgeEventKind::EvmFinalizeFailed) == "evm_finalize_failed"@,
        kind_name(BridgeEventKind::DepositSubmitted) == "deposit_submitted"@,
        kind_name(BridgeEventKind::DepositOk) == "deposit_ok"@,
        kind_name(BridgeEventKind::DepositFailed) == "deposit_failed"@,
        kind_name(BridgeEventKind::ConfigUpdated) == "config_updated"@,
        kind_name(BridgeEventKind::RouteReloaded) == "route_reloaded"@,
        level_name(BridgeEventLevel::Info) == "info"@,
        level_name(BridgeEventLevel::Warn) == "warn"@,
        level_name(BridgeEventLevel::Error) == "error"@,
{
}

/// A bridge that nothing is configured for is on, has no routes, waits for one
/// confirmation and talks to a LightPool node on this machine; it is in order as
/// it is.
pub proof fn law_default_config_is_in_order()
    ensures
        ({
            let c = default_config();
            &&& c.enabled
            &&& c.routes.len() == 0
            &&& c.wallet_path.len() == 0
            &&& c.evm_rpc_url.len() == 0
            &&& c.evm_bridge_address.len() == 0
            &&& c.evm_confirmations == 1
            &&& c.start_block == 0
            &&& c.lightpool_rpc_url == "http://127.0.0.1:26300"@
            &&& c.local_rpc_url == "http://127.0.0.1:26300"@
            &&& c.local_chain_id == 1
            &&& c.cast_bin == "cast"@
            &&& c.poll_interval_ms is None
            &&& config_problem(c.routes) is None
        }),
{
}

/// What changes the configuration or the votes of a bridge changes nothing else
/// of it.
pub proof fn law_changes_stay_in_their_part(a: BridgeRouter, b: BridgeRouter)
    ensures
        a.same_but_config(b) || a.same_but_votes(b) ==> a.config_path == b.config_path && a.name
            == b.name && a.secret_key == b.secret_key && a.committee == b.committee
            && a.deposit_topic == b.deposit_topic,
        a.same_but_config(b) ==> a.pending == b.pending,
        a.same_but_votes(b) ==> a.config == b.config,
{
}

} // verus!
