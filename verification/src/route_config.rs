//! Routes: which local token is bridged to which foreign one.
use vstd::prelude::*;
use vstd::string::*;
use crate::config::{BridgeLinkConfig, ConfigView};
use crate::text::{blank, cat, cat3, is_blank, same_text, trimmed};

verus! {

/// The local chain.
#[derive(Clone, Debug, PartialEq, Eq)]
pub struct LocalChainConfig {
    pub rpc_url: String,
    pub chain_id: u64,
}

/// The local end of a route. An empty contract means the first inbound bridge;
/// an empty token means that the foreign token picks the lane.
#[derive(Clone, Debug, PartialEq, Eq)]
pub struct LocalInboundConfig {
    pub bridge_contract: String,
    pub lp_token: String,
}

/// The foreign end of a route.
#[derive(Clone, Debug, PartialEq, Eq)]
pub enum ForeignLeg {
    Evm {
        rpc_url: String,
        chain_id: u64,
        bridge_address: String,
        token_address: String,
        confirmations: u64,
        start_block: u64,
    },
    Lightpool {
        rpc_url: String,
        chain_id: u64,
        outbound_bridge_contract: String,
        foreign_token: String,
    },
}

/// One route: one foreign token and one local token.
#[derive(Clone, Debug, PartialEq, Eq)]
pub struct BridgeRoute {
    pub id: String,
    pub enabled: bool,
    pub local_inbound: LocalInboundConfig,
    pub foreign: ForeignLeg,
}

/// A [`LocalInboundConfig`] as text sequences.
#[verifier::ext_equal]
pub struct InboundView {
    pub bridge_contract: Seq<char>,
    pub lp_token: Seq<char>,
}

/// A [`ForeignLeg`] as text sequences.
#[verifier::ext_equal]
pub enum LegView {
    Evm {
        rpc_url: Seq<char>,
        chain_id: u64,
        bridge_address: Seq<char>,
        token_address: Seq<char>,
        confirmations: u64,
        start_block: u64,
    },
    Lightpool {
        rpc_url: Seq<char>,
        chain_id: u64,
        outbound_bridge_contract: Seq<char>,
        foreign_token: Seq<char>,
    },
}

/// A [`BridgeRoute`] as text sequences.
#[verifier::ext_equal]
pub struct RouteView {
    pub id: Seq<char>,
    pub enabled: bool,
    pub local_inbound: InboundView,
    pub foreign: LegView,
}

impl View for LocalInboundConfig {
    type V = InboundView;

    open spec fn view(&self) -> InboundView {
        InboundView { bridge_contract: self.bridge_contract@, lp_token: self.lp_token@ }
    }
}

impl View for ForeignLeg {
    type V = LegView;

    open spec fn view(&self) -> LegView {
        match *self {
            ForeignLeg::Evm {
                rpc_url,
                chain_id,
                bridge_address,
                token_address,
                confirmations,
                start_block,
            } => LegView::Evm {
                rpc_url: rpc_url@,
                chain_id,
                bridge_address: bridge_address@,
                token_address: token_address@,
                confirmations,
                start_block,
            },
            ForeignLeg::Lightpool {
                rpc_url,
                chain_id,
                outbound_bridge_contract,
                foreign_token,
            } => LegView::Lightpool {
                rpc_url: rpc_url@,
                chain_id,
                outbound_bridge_contract: outbound_bridge_contract@,
                foreign_token: foreign_token@,
            },
        }
    }
}

impl View for BridgeRoute {
    type V = RouteView;

    open spec fn view(&self) -> RouteView {
        RouteView {
            id: self.id@,
            enabled: self.enabled,
            local_inbound: self.local_inbound@,
            foreign: self.foreign@,
        }
    }
}

/// The views of a list of routes.
pub open spec fn route_views(routes: Seq<BridgeRoute>) -> Seq<RouteView> {
    Seq::new(routes.len(), |i: int| routes[i]@)
}

/// A route is on unless the configuration says otherwise.
pub fn default_true() -> (r: bool)
    ensures
        r,
{
    true
}

/// The RPC address of a LightPool node on this machine.
pub fn default_lightpool_rpc() -> (r: String)
    ensures
        r@ == "http://127.0.0.1:26300"@,
{
    "http://127.0.0.1:26300".to_owned()
}

/// The number of blocks to wait for unless the configuration says otherwise.
pub fn default_confirmations() -> (r: u64)
    ensures
        r == 1,
{
    1
}

/// The chain id of the local chain unless the configuration says otherwise.
pub fn default_local_chain_id() -> (r: u64)
    ensures
        r == 1,
{
    1
}

impl Default for LocalChainConfig {
    fn default() -> (r: Self)
        ensures
            r.rpc_url@ == "http://127.0.0.1:26300"@,
            r.chain_id == 1,
    {
        LocalChainConfig { rpc_url: default_lightpool_rpc(), chain_id: default_local_chain_id() }
    }
}

impl Default for LocalInboundConfig {
    fn default() -> (r: Self)
        ensures
            r.bridge_contract@ == Seq::<char>::empty(),
            r.lp_token@ == Seq::<char>::empty(),
    {
        LocalInboundConfig { bridge_contract: String::new(), lp_token: String::new() }
    }
}

impl LocalInboundConfig {
    /// A copy.
    pub fn duplicate(&self) -> (r: Self)
        ensures
            r == *self,
    {
        LocalInboundConfig {
            bridge_contract: self.bridge_contract.clone(),
            lp_token: self.lp_token.clone(),
        }
    }
}

impl ForeignLeg {
    /// A copy.
    pub fn duplicate(&self) -> (r: Self)
        ensures
            r == *self,
    {
        match self {
            ForeignLeg::Evm {
                rpc_url,
                chain_id,
                bridge_address,
                token_address,
                confirmations,
                start_block,
            } => ForeignLeg::Evm {
                rpc_url: rpc_url.clone(),
                chain_id: *chain_id,
                bridge_address: bridge_address.clone(),
                token_address: token_address.clone(),
                confirmations: *confirmations,
                start_block: *start_block,
            },
            ForeignLeg::Lightpool {
                rpc_url,
                chain_id,
                outbound_bridge_contract,
                foreign_token,
            } => ForeignLeg::Lightpool {
                rpc_url: rpc_url.clone(),
                chain_id: *chain_id,
                outbound_bridge_contract: outbound_bridge_contract.clone(),
                foreign_token: foreign_token.clone(),
            },
        }
    }
}

/// A copy of a list of routes.
pub fn copy_routes(routes: &Vec<BridgeRoute>) -> (r: Vec<BridgeRoute>)
    ensures
        r@ == routes@,
{
    let mut out: Vec<BridgeRoute> = Vec::new();
    let mut i: usize = 0;
    while i < routes.len()
        invariant
            i <= routes.len(),
            out@ == routes@.take(i as int),
        decreases routes.len() - i,
    {
        out.push(routes[i].duplicate());
        i += 1;
        assert(routes@.take(i as int) =~= routes@.take(i - 1).push(routes@[i - 1]));
    }
    assert(routes@.take(i as int) =~= routes@);
    out
}

/// The route that the settings outside the route list describe.
pub open spec fn legacy_route(id: Seq<char>, cfg: ConfigView) -> RouteView {
    RouteView {
        id,
        enabled: true,
        local_inbound: InboundView { bridge_contract: Seq::empty(), lp_token: Seq::empty() },
        foreign: LegView::Evm {
            rpc_url: cfg.evm_rpc_url,
            chain_id: 1337,
            bridge_address: cfg.evm_bridge_address,
            token_address: Seq::empty(),
            confirmations: cfg.evm_confirmations,
            start_block: cfg.start_block,
        },
    }
}

impl BridgeRoute {
    /// A copy.
    pub fn duplicate(&self) -> (r: Self)
        ensures
            r == *self,
    {
        BridgeRoute {
            id: self.id.clone(),
            enabled: self.enabled,
            local_inbound: self.local_inbound.duplicate(),
            foreign: self.foreign.duplicate(),
        }
    }

    /// The route to the EVM chain that the settings outside the route list
    /// describe.
    pub fn legacy_reth(id: &str, cfg: &BridgeLinkConfig) -> (r: Self)
        ensures
            r@ == legacy_route(id@, cfg@),
    {
        BridgeRoute {
            id: id.to_owned(),
            enabled: true,
            local_inbound: LocalInboundConfig {
                bridge_contract: String::new(),
                lp_token: String::new(),
            },
            foreign: ForeignLeg::Evm {
                rpc_url: cfg.evm_rpc_url.clone(),
                chain_id: 1337,
                bridge_address: cfg.evm_bridge_address.clone(),
                token_address: String::new(),
                confirmations: cfg.evm_confirmations,
                start_block: cfg.start_block,
            },
        }
    }
}

/// What an enabled route lacks at its foreign end, if anything.
pub open spec fn leg_problem(id: Seq<char>, leg: LegView) -> Option<Seq<char>> {
    match leg {
        LegView::Evm { rpc_url, bridge_address, .. } => if is_blank(rpc_url) {
            Some("route "@ + id + ": evm rpc_url is empty"@)
        } else if is_blank(bridge_address) {
            Some("route "@ + id + ": evm bridge_address is empty"@)
        } else {
            None
        },
        LegView::Lightpool { rpc_url, outbound_bridge_contract, foreign_token, .. } => if is_blank(
            rpc_url,
        ) {
            Some("route "@ + id + ": lightpool rpc_url is empty"@)
        } else if is_blank(outbound_bridge_contract) {
            Some("route "@ + id + ": outbound_bridge_contract is empty"@)
        } else if is_blank(foreign_token) {
            Some("route "@ + id + ": foreign_token is empty"@)
        } else {
            None
        },
    }
}

/// Whether a route in the list has this id, white space around it aside.
pub open spec fn id_taken(routes: Seq<RouteView>, id: Seq<char>) -> bool {
    exists|i: int| 0 <= i < routes.len() && trimmed(#[trigger] routes[i].id) == id
}

/// What is wrong with a route that comes after `earlier`, if anything.
pub open spec fn route_problem(route: RouteView, earlier: Seq<RouteView>) -> Option<Seq<char>> {
    let id = trimmed(route.id);
    if id.len() == 0 {
        Some("route id must not be empty"@)
    } else if id_taken(earlier, id) {
        Some("duplicate route id: "@ + id)
    } else if route.enabled {
        leg_problem(id, route.foreign)
    } else {
        None
    }
}

/// The first thing that is wrong with a list of routes, if anything.
pub open spec fn config_problem(routes: Seq<RouteView>) -> Option<Seq<char>>
    decreases routes.len(),
{
    if routes.len() == 0 {
        None
    } else {
        match config_problem(routes.drop_last()) {
            Some(p) => Some(p),
            None => route_problem(routes.last(), routes.drop_last()),
        }
    }
}

/// What an enabled route lacks at its foreign end, if anything.
fn check_leg(id: &str, leg: &ForeignLeg) -> (r: Result<(), String>)
    ensures
        match r {
            Ok(()) => leg_problem(id@, leg@) is None,
            Err(m) => leg_problem(id@, leg@) == Some(m@),
        },
{
    match leg {
        ForeignLeg::Evm { rpc_url, bridge_address, .. } => {
            if blank(rpc_url.as_str()) {
                return Err(cat3("route ", id, ": evm rpc_url is empty"));
            }
            if blank(bridge_address.as_str()) {
                return Err(cat3("route ", id, ": evm bridge_address is empty"));
            }
        },
        ForeignLeg::Lightpool { rpc_url, outbound_bridge_contract, foreign_token, .. } => {
            if blank(rpc_url.as_str()) {
                return Err(cat3("route ", id, ": lightpool rpc_url is empty"));
            }
            if blank(outbound_bridge_contract.as_str()) {
                return Err(cat3("route ", id, ": outbound_bridge_contract is empty"));
            }
            if blank(foreign_token.as_str()) {
                return Err(cat3("route ", id, ": foreign_token is empty"));
            }
        },
    }
    Ok(())
}

/// Whether one of the first `n` routes has this id.
fn id_among(routes: &Vec<BridgeRoute>, n: usize, id: &str) -> (r: bool)
    requires
        n <= routes@.len(),
    ensures
        r == id_taken(route_views(routes@).take(n as int), id@),
{
    let ghost earlier = route_views(routes@).take(n as int);
    let mut j: usize = 0;
    while j < n
        invariant
            j <= n,
            n <= routes@.len(),
            earlier == route_views(routes@).take(n as int),
            forall|k: int| 0 <= k < j ==> trimmed(#[trigger] earlier[k].id) != id@,
        decreases n - j,
    {
        assert(earlier[j as int].id == routes@[j as int].id@);
        if same_text(routes[j].id.as_str().trim(), id) {
            return true;
        }
        j += 1;
    }
    false
}

/// Checks the routes in their order: each has an id that no earlier one has,
/// and an enabled one says where its foreign chain is. Reports the first route
/// that fails.
pub fn validate_config(cfg: &BridgeLinkConfig) -> (r: Result<(), String>)
    ensures
        match r {
            Ok(()) => config_problem(cfg@.routes) is None,
            Err(m) => config_problem(cfg@.routes) == Some(m@),
        },
{
    let ghost views = route_views(cfg.routes@);
    let mut i: usize = 0;
    assert(views.take(0) =~= Seq::empty());
    while i < cfg.routes.len()
        invariant
            i <= cfg.routes.len(),
            views == route_views(cfg.routes@),
            config_problem(views.take(i as int)) is None,
        decreases cfg.routes.len() - i,
    {
        let route = &cfg.routes[i];
        let id = route.id.as_str().trim();
        proof {
            assert(views.take(i + 1).drop_last() =~= views.take(i as int));
            assert(views.take(i + 1).last() == route@);
        }
        let mut problem: Result<(), String> = Ok(());
        if id.is_empty() {
            problem = Err("route id must not be empty".to_owned());
        } else if id_among(&cfg.routes, i, id) {
            problem = Err(cat("duplicate route id: ", id));
        } else if route.enabled {
            problem = check_leg(id, &route.foreign);
        }
        if problem.is_err() {
            proof {
                lemma_first_problem_stays(views, i + 1);
            }
            return problem;
        }
        i += 1;
    }
    assert(views.take(i as int) =~= views);
    Ok(())
}

/// A problem among the first routes is the problem of the whole list.
proof fn lemma_first_problem_stays(routes: Seq<RouteView>, n: int)
    requires
        0 <= n <= routes.len(),
        config_problem(routes.take(n)) is Some,
    ensures
        config_problem(routes) == config_problem(routes.take(n)),
    decreases routes.len() - n,
{
    if n < routes.len() {
        assert(routes.take(n + 1).drop_last() =~= routes.take(n));
        lemma_first_problem_stays(routes, n + 1);
    } else {
        assert(routes.take(n) =~= routes);
    }
}

/// The place of the first enabled route from `from` on; the length of the list
/// where there is none.
pub open spec fn first_enabled(routes: Seq<RouteView>, from: nat) -> nat
    decreases routes.len() - from,
{
    if from >= routes.len() {
        routes.len()
    } else if routes[from as int].enabled {
        from
    } else {
        first_enabled(routes, from + 1)
    }
}

/// The route that fills in the settings outside the route list: the first
/// enabled one, else the first one.
pub open spec fn lead_route(routes: Seq<RouteView>) -> Option<RouteView> {
    let i = first_enabled(routes, 0);
    if i < routes.len() {
        Some(routes[i as int])
    } else if routes.len() > 0 {
        Some(routes[0])
    } else {
        None
    }
}

/// `a`, or `b` where `a` is empty.
pub open spec fn or_else_text(a: Seq<char>, b: Seq<char>) -> Seq<char> {
    if a.len() == 0 {
        b
    } else {
        a
    }
}

/// The routes after [`BridgeLinkConfig::normalize_routes`]: an empty list gets
/// the route that the other settings describe, if they name a bridge.
pub open spec fn normalized_routes(cfg: ConfigView) -> Seq<RouteView> {
    if cfg.routes.len() == 0 && !is_blank(cfg.evm_bridge_address) {
        seq![legacy_route("reth-default"@, cfg)]
    } else {
        cfg.routes
    }
}

/// The configuration after [`BridgeLinkConfig::normalize_routes`].
pub open spec fn normalized(cfg: ConfigView) -> ConfigView {
    let local_rpc_url = or_else_text(cfg.local_rpc_url, cfg.lightpool_rpc_url);
    let base = ConfigView {
        local_rpc_url,
        lightpool_rpc_url: or_else_text(cfg.lightpool_rpc_url, local_rpc_url),
        routes: normalized_routes(cfg),
        ..cfg
    };
    match lead_route(base.routes) {
        Some(
            RouteView {
                foreign: LegView::Evm { rpc_url, bridge_address, confirmations, start_block, .. },
                ..
            },
        ) => ConfigView {
            evm_rpc_url: or_else_text(cfg.evm_rpc_url, rpc_url),
            evm_bridge_address: or_else_text(cfg.evm_bridge_address, bridge_address),
            evm_confirmations: confirmations,
            start_block,
            ..base
        },
        _ => base,
    }
}

/// The place of the route that fills in the settings outside the list.
fn lead_of(routes: &Vec<BridgeRoute>) -> (r: Option<usize>)
    ensures
        match r {
            Some(i) => i < routes@.len() && lead_route(route_views(routes@)) == Some(
                routes@[i as int]@,
            ),
            None => lead_route(route_views(routes@)) is None,
        },
{
    let ghost views = route_views(routes@);
    let mut i: usize = 0;
    while i < routes.len()
        invariant
            i <= routes.len(),
            views == route_views(routes@),
            first_enabled(views, 0) == first_enabled(views, i as nat),
        decreases routes.len() - i,
    {
        assert(views[i as int].enabled == routes@[i as int].enabled);
        if routes[i].enabled {
            return Some(i);
        }
        i += 1;
    }
    if routes.len() > 0 {
        Some(0)
    } else {
        None
    }
}

impl BridgeLinkConfig {
    /// Brings the settings into line with each other: the two addresses of the
    /// local node stand in for each other, an empty route list gets the route
    /// that the other settings describe, and the settings of the EVM chain are
    /// taken from the leading route.
    pub fn normalize_routes(&mut self)
        ensures
            final(self)@ == normalized(old(self)@),
    {
        if self.local.rpc_url.as_str().is_empty() {
            self.local.rpc_url = self.lightpool_rpc_url.clone();
        }
        if self.lightpool_rpc_url.as_str().is_empty() {
            self.lightpool_rpc_url = self.local.rpc_url.clone();
        }
        if self.routes.is_empty() && !blank(self.evm_bridge_address.as_str()) {
            let route = BridgeRoute::legacy_reth("reth-default", self);
            self.routes.push(route);
        }
        proof {
            assert(route_views(self.routes@) =~= normalized_routes(old(self)@));
        }
        match lead_of(&self.routes) {
            Some(i) => {
                let foreign = self.routes[i].foreign.duplicate();
                if let ForeignLeg::Evm {
                    rpc_url,
                    bridge_address,
                    confirmations,
                    start_block,
                    ..
                } = foreign {
                    if self.evm_rpc_url.as_str().is_empty() {
                        self.evm_rpc_url = rpc_url;
                    }
                    if self.evm_bridge_address.as_str().is_empty() {
                        self.evm_bridge_address = bridge_address;
                    }
                    self.evm_confirmations = confirmations;
                    self.start_block = start_block;
                }
            },
            None => {},
        }
    }
}

/// Normalizing a configuration a second time changes nothing.
pub proof fn law_normalize_is_idempotent(cfg: ConfigView)
    ensures
        normalized(normalized(cfg)) == normalized(cfg),
{
    let once = normalized(cfg);
    assert(normalized_routes(once) =~= once.routes);
}

/// No two routes of a configuration that passes the check have the same id,
/// even with the white space around their ids left out.
pub proof fn law_valid_ids_are_distinct(routes: Seq<RouteView>, i: int, j: int)
    requires
        config_problem(routes) is None,
        0 <= i < j < routes.len(),
    ensures
        trimmed(routes[i].id) != trimmed(routes[j].id),
        trimmed(routes[i].id).len() > 0,
    decreases routes.len(),
{
    if j == routes.len() - 1 {
        let earlier = routes.drop_last();
        assert(earlier[i].id == routes[i].id);
        assert(!id_taken(earlier, trimmed(routes[j].id)));
        lemma_valid_ids_are_named(routes, i);
    } else {
        law_valid_ids_are_distinct(routes.drop_last(), i, j);
    }
}

/// Every route of a configuration that passes the check has an id.
proof fn lemma_valid_ids_are_named(routes: Seq<RouteView>, i: int)
    requires
        config_problem(routes) is None,
        0 <= i < routes.len(),
    ensures
        trimmed(routes[i].id).len() > 0,
    decreases routes.len(),
{
    if i < routes.len() - 1 {
        lemma_valid_ids_are_named(routes.drop_last(), i);
    }
}

/// Every enabled route of a configuration that passes the check says where its
/// foreign chain is.
pub proof fn law_valid_enabled_routes_are_complete(routes: Seq<RouteView>, i: int)
    requires
        config_problem(routes) is None,
        0 <= i < routes.len(),
        routes[i].enabled,
    ensures
        match routes[i].foreign {
            LegView::Evm { rpc_url, bridge_address, .. } => !is_blank(rpc_url) && !is_blank(
                bridge_address,
            ),
            LegView::Lightpool { rpc_url, outbound_bridge_contract, foreign_token, .. } =>
                !is_blank(rpc_url) && !is_blank(outbound_bridge_contract) && !is_blank(
                    foreign_token,
                ),
        },
    decreases routes.len(),
{
    if i < routes.len() - 1 {
        law_valid_enabled_routes_are_complete(routes.drop_last(), i);
    }
}

} // verus!
