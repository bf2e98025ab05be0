//! The administration of the bridge: what its requests do to the configuration.
use vstd::prelude::*;
use vstd::string::*;
use crate::config::{BridgeConfigError, BridgeLinkConfig, ConfigView};
use crate::events::{BridgeEventKind, BridgeEventRecord};
use crate::evm::text_of;
use crate::route_config::{route_views, BridgeRoute, RouteView};
use crate::router::{enabled_count, enabled_routes};
use crate::text::{blank, cat, is_blank, same_text};

verus! {

/// Whether the bridge is well.
#[derive(Clone, Debug)]
pub struct HealthResponse {
    pub ok: bool,
    pub config_path: String,
    pub route_count: usize,
    pub enabled_route_count: usize,
}

/// The answer to the question whether the bridge is well.
pub fn health(config: &BridgeLinkConfig, config_path: &str) -> (r: HealthResponse)
    ensures
        r.ok,
        r.config_path@ == config_path@,
        r.route_count == config@.routes.len(),
        r.enabled_route_count == enabled_count(config@.routes),
{
    HealthResponse {
        ok: true,
        config_path: config_path.to_owned(),
        route_count: config.routes.len(),
        enabled_route_count: enabled_routes(&config.routes),
    }
}

/// The page of events that is given unless another is asked for.
pub fn default_event_page() -> (r: u32)
    ensures
        r == 1,
{
    1
}

/// The size of a page of events unless another is asked for.
pub fn default_event_page_size() -> (r: u32)
    ensures
        r == 50,
{
    50
}

/// Which events a listener wants.
#[derive(Clone, Debug)]
pub struct EventFilter {
    pub route_id: Option<String>,
    pub token: Option<String>,
}

/// A wish, unless it is empty.
pub open spec fn non_empty(s: Option<Seq<char>>) -> Option<Seq<char>> {
    match s {
        Some(t) => if t.len() == 0 {
            None
        } else {
            Some(t)
        },
        None => None,
    }
}

/// A wish, unless it is empty.
fn drop_empty(s: Option<String>) -> (r: Option<String>)
    ensures
        text_of(r) == non_empty(text_of(s)),
{
    match s {
        Some(t) => if t.as_str().is_empty() {
            None
        } else {
            Some(t)
        },
        None => None,
    }
}

impl EventFilter {
    /// Whether an event is wanted.
    pub open spec fn wants(self, event: BridgeEventRecord) -> bool {
        &&& self.route_id matches Some(r) ==> event.route_id@ == r@
        &&& self.token matches Some(t) ==> text_of(event.token) == Some(t@)
    }

    /// The events of a route and a token; an empty name stands for any.
    pub fn new(route_id: Option<String>, token: Option<String>) -> (r: Self)
        ensures
            text_of(r.route_id) == non_empty(text_of(route_id)),
            text_of(r.token) == non_empty(text_of(token)),
    {
        EventFilter { route_id: drop_empty(route_id), token: drop_empty(token) }
    }

    /// Whether an event is wanted.
    pub fn accepts(&self, event: &BridgeEventRecord) -> (r: bool)
        ensures
            r == self.wants(*event),
    {
        if let Some(route_id) = &self.route_id {
            if !same_text(event.route_id.as_str(), route_id.as_str()) {
                return false;
            }
        }
        if let Some(token) = &self.token {
            return match &event.token {
                Some(t) => same_text(t.as_str(), token.as_str()),
                None => false,
            };
        }
        true
    }
}

/// Whether the status is sent after an event.
pub fn changes_status(kind: BridgeEventKind) -> (r: bool)
    ensures
        r == (kind == BridgeEventKind::ConfigUpdated || kind == BridgeEventKind::RouteReloaded),
{
    match kind {
        BridgeEventKind::ConfigUpdated => true,
        BridgeEventKind::RouteReloaded => true,
        _ => false,
    }
}

/// A request that was refused: the status of the answer and why.
#[derive(Clone, Debug, PartialEq, Eq)]
pub struct AppError {
    pub status: u16,
    pub message: String,
}

impl AppError {
    /// The request is wrong.
    pub fn bad_request(message: String) -> (r: Self)
        ensures
            r.status == 400,
            r.message == message,
    {
        AppError { status: 400, message }
    }

    /// What the request is about does not exist.
    pub fn not_found(message: String) -> (r: Self)
        ensures
            r.status == 404,
            r.message == message,
    {
        AppError { status: 404, message }
    }

    /// The configuration was not taken up.
    pub fn from_config(err: &BridgeConfigError) -> (r: Self)
        ensures
            r.status == 500,
            r.message@ == err.text(),
    {
        AppError { status: 500, message: err.message() }
    }
}

/// The place of the first route with an id, from `from` on; the length of the
/// list where there is none.
pub open spec fn route_place(routes: Seq<RouteView>, id: Seq<char>, from: nat) -> nat
    decreases routes.len() - from,
{
    if from >= routes.len() {
        routes.len()
    } else if routes[from as int].id == id {
        from
    } else {
        route_place(routes, id, from + 1)
    }
}

/// The routes without those that have an id.
pub open spec fn without_route(routes: Seq<RouteView>, id: Seq<char>) -> Seq<RouteView>
    decreases routes.len(),
{
    if routes.len() == 0 {
        Seq::empty()
    } else {
        let rest = without_route(routes.drop_last(), id);
        if routes.last().id == id {
            rest
        } else {
            rest.push(routes.last())
        }
    }
}

/// The place of the first route with an id.
fn find_route(routes: &Vec<BridgeRoute>, id: &str) -> (r: usize)
    ensures
        r == route_place(route_views(routes@), id@, 0),
        r <= routes@.len(),
{
    let ghost views = route_views(routes@);
    let mut i: usize = 0;
    while i < routes.len()
        invariant
            i <= routes.len(),
            views == route_views(routes@),
            route_place(views, id@, 0) == route_place(views, id@, i as nat),
        decreases routes.len() - i,
    {
        assert(views[i as int] == routes@[i as int]@);
        if same_text(routes[i].id.as_str(), id) {
            return i;
        }
        i += 1;
    }
    i
}

/// What asking for a new route comes to: the routes with it, or why not.
pub open spec fn route_created(routes: Seq<RouteView>, route: RouteView) -> Result<
    Seq<RouteView>,
    Seq<char>,
> {
    if is_blank(route.id) {
        Err("route id must not be empty"@)
    } else if route_place(routes, route.id, 0) < routes.len() {
        Err("route id already exists: "@ + route.id)
    } else {
        Ok(routes.push(route))
    }
}

/// The configuration with one more route.
pub fn create_route(config: BridgeLinkConfig, route: BridgeRoute) -> (r: Result<
    BridgeLinkConfig,
    AppError,
>)
    ensures
        match route_created(config@.routes, route@) {
            Ok(routes) => r matches Ok(c) && c@ == (ConfigView { routes, ..config@ }),
            Err(message) => r matches Err(e) && e.status == 400 && e.message@ == message,
        },
{
    if blank(route.id.as_str()) {
        return Err(AppError::bad_request("route id must not be empty".to_owned()));
    }
    let at: usize = find_route(&config.routes, route.id.as_str());
    assert(config@.routes.len() == config.routes@.len());
    if at < config.routes.len() {
        return Err(
            AppError::bad_request(cat("route id already exists: ", route.id.as_str())),
        );
    }
    let mut config = config;
    let ghost before = config@;
    let ghost added = route@;
    config.routes.push(route);
    assert(config@.routes =~= before.routes.push(added));
    Ok(config)
}

/// The configuration with a route exchanged.
pub fn update_route(config: BridgeLinkConfig, id: &str, route: BridgeRoute) -> (r: Result<
    BridgeLinkConfig,
    AppError,
>)
    ensures
        ({
            let at = route_place(config@.routes, id@, 0);
            if route@.id != id@ {
                r matches Err(e) && e.status == 400 && e.message@
                    == "route id in path and body must match"@
            } else if at >= config@.routes.len() {
                r matches Err(e) && e.status == 404 && e.message@ == "route not found: "@ + id@
            } else {
                r matches Ok(c) && c@ == (ConfigView {
                    routes: config@.routes.update(at as int, route@),
                    ..config@
                })
            }
        }),
{
    if !same_text(route.id.as_str(), id) {
        return Err(AppError::bad_request("route id in path and body must match".to_owned()));
    }
    let at: usize = find_route(&config.routes, id);
    assert(config@.routes.len() == config.routes@.len());
    if at >= config.routes.len() {
        return Err(AppError::not_found(cat("route not found: ", id)));
    }
    let mut config = config;
    let ghost before = config@;
    let ghost put = route@;
    config.routes.set(at, route);
    assert(config@.routes =~= before.routes.update(at as int, put));
    Ok(config)
}

/// The configuration without the routes that have an id.
pub fn delete_route(config: BridgeLinkConfig, id: &str) -> (r: Result<BridgeLinkConfig, AppError>)
    ensures
        if without_route(config@.routes, id@).len() == config@.routes.len() {
            r matches Err(e) && e.status == 404 && e.message@ == "route not found: "@ + id@
        } else {
            r matches Ok(c) && c@ == (ConfigView {
                routes: without_route(config@.routes, id@),
                ..config@
            })
        },
{
    let ghost views = route_views(config.routes@);
    let mut kept: Vec<BridgeRoute> = Vec::new();
    let mut i: usize = 0;
    assert(views.take(0) =~= Seq::<RouteView>::empty());
    assert(route_views(kept@) =~= Seq::<RouteView>::empty());
    while i < config.routes.len()
        invariant
            i <= config.routes.len(),
            views == route_views(config.routes@),
            route_views(kept@) == without_route(views.take(i as int), id@),
        decreases config.routes.len() - i,
    {
        proof {
            let now = views.take(i + 1);
            assert(now.drop_last() =~= views.take(i as int));
            assert(now.last() == config.routes@[i as int]@);
        }
        if !same_text(config.routes[i].id.as_str(), id) {
            let route = config.routes[i].duplicate();
            let ghost before = kept@;
            kept.push(route);
            assert(route_views(kept@) =~= route_views(before).push(route@));
        }
        i += 1;
    }
    assert(views.take(i as int) =~= views);
    assert(route_views(kept@).len() == kept@.len());
    if kept.len() == config.routes.len() {
        return Err(AppError::not_found(cat("route not found: ", id)));
    }
    let mut config = config;
    config.routes = kept;
    Ok(config)
}

/// A route that was deleted is gone, and no other is.
pub proof fn law_delete_removes_exactly(routes: Seq<RouteView>, id: Seq<char>, route: RouteView)
    ensures
        without_route(routes, id).contains(route) == (routes.contains(route) && route.id != id),
    decreases routes.len(),
{
    if routes.len() > 0 {
        let front = routes.drop_last();
        let rest = without_route(front, id);
        let now = without_route(routes, id);
        law_delete_removes_exactly(front, id, route);
        if rest.contains(route) {
            let i = rest.index_of(route);
            assert(now[i] == route);
        }
        if front.contains(route) {
            let i = front.index_of(route);
            assert(routes[i] == route);
        }
        if routes.last() == route && route.id != id {
            assert(now[now.len() - 1] == route);
            assert(routes[routes.len() - 1] == route);
        }
        if now.contains(route) {
            let i = now.index_of(route);
            if i < rest.len() {
                assert(rest[i] == route);
            } else {
                assert(routes[routes.len() - 1] == route);
            }
        }
        if routes.contains(route) && !front.contains(route) {
            let i = routes.index_of(route);
            assert(i == routes.len() - 1) by {
                if i < front.len() {
                    assert(front[i] == route);
                }
            }
        }
    }
}

/// What was created can be deleted, which gives the routes of before.
pub proof fn law_delete_undoes_create(routes: Seq<RouteView>, route: RouteView)
    requires
        route_created(routes, route) is Ok,
    ensures
        without_route(route_created(routes, route)->Ok_0, route.id) == routes,
{
    let now = routes.push(route);
    assert(now.drop_last() =~= routes);
    lemma_route_place(routes, route.id, 0);
    lemma_nothing_to_delete(routes, route.id);
}

/// The place of a route is the first one with its id.
proof fn lemma_route_place(routes: Seq<RouteView>, id: Seq<char>, from: nat)
    requires
        from <= routes.len(),
    ensures
        forall|j: int|
            from <= j < route_place(routes, id, from) && j < routes.len() ==> (
            #[trigger] routes[j]).id != id,
    decreases routes.len() - from,
{
    if from < routes.len() && routes[from as int].id != id {
        lemma_route_place(routes, id, from + 1);
    }
}

/// Where no route has the id, nothing is deleted.
proof fn lemma_nothing_to_delete(routes: Seq<RouteView>, id: Seq<char>)
    requires
        forall|j: int| 0 <= j < routes.len() ==> (#[trigger] routes[j]).id != id,
    ensures
        without_route(routes, id) == routes,
    decreases routes.len(),
{
    if routes.len() > 0 {
        let front = routes.drop_last();
        assert forall|j: int| 0 <= j < front.len() implies (#[trigger] front[j]).id != id by {
            assert(front[j] == routes[j]);
        }
        lemma_nothing_to_delete(front, id);
        assert(routes[routes.len() - 1] == routes.last());
        assert(without_route(routes, id) =~= routes);
    } else {
        assert(without_route(routes, id) =~= routes);
    }
}

} // verus!
