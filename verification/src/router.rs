//! The bridge as a whole: its configuration, the committee and the votes.
use vstd::prelude::*;
use vstd::string::*;
use vstd::utf8::encode_utf8;
use crate::chain::{BridgeDepositMessage, Committee, ContractAddress, PublicKey};
use crate::codec::{hex_encode, keccak, keccak256};
use crate::config::{BridgeConfigError, BridgeLinkConfig, SecretKey, WriteOutcome};
use crate::handle::{
    route_snapshot, snapshot, summary_views, BridgeStatusResponse, RouteStatusSnapshot,
    RouteSummary,
};
use crate::labels::{inbound_bytes, inbound_contract_for};
use crate::messages::BridgeLinkVote;
use crate::route_config::{
    config_problem, normalized, route_views, BridgeRoute, ForeignLeg, RouteView,
};
use crate::text::{cat, has_text, same_text, texts};
use crate::util::address_text;
use crate::votes::{
    book_wf, submission_views, submissions, with_deposit_vote, with_link_vote, DepositSubmission,
    VoteBook,
};

verus! {

/// The bridge of one validator.
#[derive(Debug)]
pub struct BridgeRouter {
    pub config_path: String,
    pub config: BridgeLinkConfig,
    pub name: PublicKey,
    pub secret_key: SecretKey,
    pub committee: Committee,
    pub pending: VoteBook,
    pub deposit_topic: String,
}

/// The topic of the logs that report deposits.
pub open spec fn deposit_topic_text() -> Seq<char> {
    address_text(
        keccak(
            encode_utf8("DepositInitiated(uint64,address,address,address,uint64,uint64)"@),
        ),
    )
}

/// The number of routes that are on.
pub open spec fn enabled_count(routes: Seq<RouteView>) -> nat
    decreases routes.len(),
{
    if routes.len() == 0 {
        0
    } else {
        enabled_count(routes.drop_last()) + if routes.last().enabled {
            1nat
        } else {
            0
        }
    }
}

/// The number of routes that are on.
pub fn enabled_routes(routes: &Vec<BridgeRoute>) -> (r: usize)
    ensures
        r == enabled_count(route_views(routes@)),
{
    let ghost views = route_views(routes@);
    let mut n: usize = 0;
    let mut i: usize = 0;
    assert(views.take(0) =~= Seq::<RouteView>::empty());
    while i < routes.len()
        invariant
            i <= routes.len(),
            views == route_views(routes@),
            n == enabled_count(views.take(i as int)),
            n <= i,
        decreases routes.len() - i,
    {
        proof {
            let now = views.take(i + 1);
            assert(now.drop_last() =~= views.take(i as int));
            assert(now.last() == routes@[i as int]@);
        }
        if routes[i].enabled {
            n += 1;
        }
        i += 1;
    }
    assert(views.take(i as int) =~= views);
    n
}

/// Where the memory of a route comes from.
#[derive(Clone, Debug, PartialEq, Eq)]
pub enum RouteSlot {
    /// It is kept, from this place.
    Existing(usize),
    /// It is new, for the route with this id.
    Fresh(String),
}

/// A [`RouteSlot`] in mathematical terms.
#[verifier::ext_equal]
pub enum SlotView {
    Existing(nat),
    Fresh(Seq<char>),
}

impl View for RouteSlot {
    type V = SlotView;

    open spec fn view(&self) -> SlotView {
        match *self {
            RouteSlot::Existing(i) => SlotView::Existing(i as nat),
            RouteSlot::Fresh(id) => SlotView::Fresh(id@),
        }
    }
}

/// The views of a list of slots.
pub open spec fn slot_views(slots: Seq<RouteSlot>) -> Seq<SlotView> {
    Seq::new(slots.len(), |i: int| slots[i]@)
}

/// The place of an id, from `from` on; the length of the list where it is not
/// there.
pub open spec fn id_place(ids: Seq<Seq<char>>, id: Seq<char>, from: nat) -> nat
    decreases ids.len() - from,
{
    if from >= ids.len() {
        ids.len()
    } else if ids[from as int] == id {
        from
    } else {
        id_place(ids, id, from + 1)
    }
}

/// Where the memory of the routes that are on comes from.
pub open spec fn slots(routes: Seq<RouteView>, previous: Seq<Seq<char>>) -> Seq<SlotView>
    decreases routes.len(),
{
    if routes.len() == 0 {
        Seq::empty()
    } else {
        let rest = slots(routes.drop_last(), previous);
        let route = routes.last();
        let at = id_place(previous, route.id, 0);
        if !route.enabled {
            rest
        } else if at < previous.len() {
            rest.push(SlotView::Existing(at))
        } else {
            rest.push(SlotView::Fresh(route.id))
        }
    }
}

/// The place of an id in a list.
fn place_of_id(ids: &Vec<String>, id: &str) -> (r: usize)
    ensures
        r == id_place(texts(ids@), id@, 0),
        r <= ids@.len(),
{
    let ghost views = texts(ids@);
    let mut i: usize = 0;
    while i < ids.len()
        invariant
            i <= ids.len(),
            views == texts(ids@),
            id_place(views, id@, 0) == id_place(views, id@, i as nat),
        decreases ids.len() - i,
    {
        assert(views[i as int] == ids@[i as int]@);
        if same_text(ids[i].as_str(), id) {
            return i;
        }
        i += 1;
    }
    i
}

/// Where the memory of the routes that are on comes from: a route that is known
/// keeps its own, a new one starts afresh.
pub fn build_route_states(config: &BridgeLinkConfig, previous: &Vec<String>) -> (r: Vec<RouteSlot>)
    ensures
        slot_views(r@) == slots(config@.routes, texts(previous@)),
{
    let ghost views = route_views(config.routes@);
    let mut out: Vec<RouteSlot> = Vec::new();
    let mut i: usize = 0;
    assert(views.take(0) =~= Seq::<RouteView>::empty());
    assert(slot_views(out@) =~= Seq::<SlotView>::empty());
    while i < config.routes.len()
        invariant
            i <= config.routes.len(),
            views == route_views(config.routes@),
            slot_views(out@) == slots(views.take(i as int), texts(previous@)),
        decreases config.routes.len() - i,
    {
        proof {
            let now = views.take(i + 1);
            assert(now.drop_last() =~= views.take(i as int));
            assert(now.last() == config.routes@[i as int]@);
            assert(texts(previous@).len() == previous@.len());
        }
        if config.routes[i].enabled {
            let at: usize = place_of_id(previous, config.routes[i].id.as_str());
            let slot = if at < previous.len() {
                RouteSlot::Existing(at)
            } else {
                RouteSlot::Fresh(config.routes[i].id.clone())
            };
            let ghost before = out@;
            out.push(slot);
            assert(slot_views(out@) =~= slot_views(before).push(slot@));
        }
        i += 1;
    }
    assert(views.take(i as int) =~= views);
    out
}

/// A kind of subscription.
#[derive(Clone, Copy, Debug, PartialEq, Eq, Structural)]
pub enum SubscriberKind {
    /// Deposits on EVM chains.
    Evm,
    /// Withdraws on foreign LightPool chains.
    LpForeign,
    /// Withdraws on the local chain.
    LpLocal,
}

/// Whether a route has a subscription of a kind.
pub open spec fn subscribes(route: RouteView, kind: SubscriberKind) -> bool {
    route.enabled && match kind {
        SubscriberKind::Evm => route.foreign is Evm,
        SubscriberKind::LpForeign => route.foreign is Lightpool,
        SubscriberKind::LpLocal => true,
    }
}

/// Tells whether a route has a subscription of a kind.
fn wants_subscriber(route: &BridgeRoute, kind: SubscriberKind) -> (r: bool)
    ensures
        r == subscribes(route@, kind),
{
    if !route.enabled {
        return false;
    }
    match (&route.foreign, kind) {
        (_, SubscriberKind::LpLocal) => true,
        (ForeignLeg::Evm { .. }, SubscriberKind::Evm) => true,
        (ForeignLeg::Lightpool { .. }, SubscriberKind::LpForeign) => true,
        _ => false,
    }
}

/// One step on the way to the subscriptions that are wanted.
#[derive(Clone, Debug)]
pub enum SubscriberStep {
    /// Stop the subscription of the route with this id, if it runs.
    Stop(String),
    /// Start a subscription, in place of the one that runs for the route, if
    /// any.
    Start(BridgeRoute),
}

/// A [`SubscriberStep`] in mathematical terms.
#[verifier::ext_equal]
pub enum StepView {
    Stop(Seq<char>),
    Start(RouteView),
}

impl View for SubscriberStep {
    type V = StepView;

    open spec fn view(&self) -> StepView {
        match *self {
            SubscriberStep::Stop(id) => StepView::Stop(id@),
            SubscriberStep::Start(route) => StepView::Start(route@),
        }
    }
}

/// The views of a list of steps.
pub open spec fn step_views(steps: Seq<SubscriberStep>) -> Seq<StepView> {
    Seq::new(steps.len(), |i: int| steps[i]@)
}

/// Whether a subscription is wanted for a route with this id.
pub open spec fn wanted(routes: Seq<RouteView>, kind: SubscriberKind, id: Seq<char>) -> bool {
    exists|i: int|
        0 <= i < routes.len() && subscribes(#[trigger] routes[i], kind) && routes[i].id == id
}

/// The subscriptions that run and are not wanted are stopped.
pub open spec fn stops(
    routes: Seq<RouteView>,
    kind: SubscriberKind,
    running: Seq<Seq<char>>,
) -> Seq<StepView>
    decreases running.len(),
{
    if running.len() == 0 {
        Seq::empty()
    } else {
        let rest = stops(routes, kind, running.drop_last());
        if wanted(routes, kind, running.last()) {
            rest
        } else {
            rest.push(StepView::Stop(running.last()))
        }
    }
}

/// Those that are wanted are started anew; where the route has no memory, the
/// one that runs is stopped.
pub open spec fn starts(
    routes: Seq<RouteView>,
    kind: SubscriberKind,
    states: Seq<Seq<char>>,
) -> Seq<StepView>
    decreases routes.len(),
{
    if routes.len() == 0 {
        Seq::empty()
    } else {
        let rest = starts(routes.drop_last(), kind, states);
        let route = routes.last();
        if !subscribes(route, kind) {
            rest
        } else if states.contains(route.id) {
            rest.push(StepView::Start(route))
        } else {
            rest.push(StepView::Stop(route.id))
        }
    }
}

/// Whether a subscription is wanted for a route with this id.
fn is_wanted(routes: &Vec<BridgeRoute>, kind: SubscriberKind, id: &str) -> (r: bool)
    ensures
        r == wanted(route_views(routes@), kind, id@),
{
    let ghost views = route_views(routes@);
    let mut i: usize = 0;
    while i < routes.len()
        invariant
            i <= routes.len(),
            views == route_views(routes@),
            forall|j: int|
                0 <= j < i ==> !(subscribes(#[trigger] views[j], kind) && views[j].id == id@),
        decreases routes.len() - i,
    {
        assert(views[i as int] == routes@[i as int]@);
        if wants_subscriber(&routes[i], kind) && same_text(routes[i].id.as_str(), id) {
            return true;
        }
        i += 1;
    }
    false
}

/// The steps from the subscriptions that run to those that the configuration
/// wants, for the routes that have a memory.
pub fn subscriber_steps(
    config: &BridgeLinkConfig,
    kind: SubscriberKind,
    running: &Vec<String>,
    states: &Vec<String>,
) -> (r: Vec<SubscriberStep>)
    ensures
        step_views(r@) == stops(config@.routes, kind, texts(running@)) + starts(
            config@.routes,
            kind,
            texts(states@),
        ),
{
    let ghost views = route_views(config.routes@);
    let ghost run = texts(running@);
    let mut out: Vec<SubscriberStep> = Vec::new();
    let mut i: usize = 0;
    assert(run.take(0) =~= Seq::<Seq<char>>::empty());
    assert(step_views(out@) =~= Seq::<StepView>::empty());
    while i < running.len()
        invariant
            i <= running.len(),
            views == route_views(config.routes@),
            run == texts(running@),
            step_views(out@) == stops(views, kind, run.take(i as int)),
        decreases running.len() - i,
    {
        proof {
            let now = run.take(i + 1);
            assert(now.drop_last() =~= run.take(i as int));
            assert(now.last() == running@[i as int]@);
        }
        if !is_wanted(&config.routes, kind, running[i].as_str()) {
            let step = SubscriberStep::Stop(running[i].clone());
            let ghost before = out@;
            out.push(step);
            assert(step_views(out@) =~= step_views(before).push(step@));
        }
        i += 1;
    }
    assert(run.take(i as int) =~= run);
    let ghost first = step_views(out@);
    let mut j: usize = 0;
    assert(views.take(0) =~= Seq::<RouteView>::empty());
    assert(first + Seq::<StepView>::empty() =~= first);
    while j < config.routes.len()
        invariant
            j <= config.routes.len(),
            views == route_views(config.routes@),
            step_views(out@) == first + starts(views.take(j as int), kind, texts(states@)),
        decreases config.routes.len() - j,
    {
        proof {
            let now = views.take(j + 1);
            assert(now.drop_last() =~= views.take(j as int));
            assert(now.last() == config.routes@[j as int]@);
        }
        let route = &config.routes[j];
        if wants_subscriber(route, kind) {
            let step = if has_text(states, route.id.as_str()) {
                SubscriberStep::Start(route.duplicate())
            } else {
                SubscriberStep::Stop(route.id.clone())
            };
            let ghost before = out@;
            out.push(step);
            assert(step_views(out@) =~= step_views(before).push(step@));
            assert(step_views(out@) =~= first + starts(
                views.take(j + 1),
                kind,
                texts(states@),
            ));
        }
        j += 1;
    }
    assert(views.take(j as int) =~= views);
    out
}

/// Whether a status tells of a router and the memories of its routes.
pub open spec fn is_status_of(
    r: BridgeStatusResponse,
    router: BridgeRouter,
    active: Seq<RouteSummary>,
    validator: Seq<char>,
) -> bool {
    let routes = router.config@.routes;
    &&& r.running
    &&& r.config_path@ == router.config_path@
    &&& r.validator@ == validator
    &&& r.committee_epoch == router.committee.epoch
    &&& r.committee_size == router.committee.members@.len()
    &&& r.route_count == routes.len()
    &&& r.enabled_route_count == enabled_count(routes)
    &&& r.routes@.len() == routes.len()
    &&& forall|i: int|
        0 <= i < routes.len() ==> (#[trigger] r.routes@[i])@ == route_snapshot(
            routes[i],
            summary_views(active),
            router.pending@,
        )
}

impl BridgeRouter {
    /// Whether all but the configuration is the same.
    pub open spec fn same_but_config(self, other: BridgeRouter) -> bool {
        &&& self.config_path == other.config_path
        &&& self.name == other.name
        &&& self.secret_key == other.secret_key
        &&& self.committee == other.committee
        &&& self.pending == other.pending
        &&& self.deposit_topic == other.deposit_topic
    }

    /// Whether all but the votes is the same.
    pub open spec fn same_but_votes(self, other: BridgeRouter) -> bool {
        &&& self.config_path == other.config_path
        &&& self.config == other.config
        &&& self.name == other.name
        &&& self.secret_key == other.secret_key
        &&& self.committee == other.committee
        &&& self.deposit_topic == other.deposit_topic
    }

    /// The bridge of the validator `name`, without votes.
    pub fn new(
        config_path: String,
        config: BridgeLinkConfig,
        name: PublicKey,
        secret_key: SecretKey,
        committee: Committee,
    ) -> (r: Self)
        ensures
            r.config_path == config_path,
            r.config == config,
            r.name == name,
            r.secret_key == secret_key,
            r.committee == committee,
            r.pending@.len() == 0,
            book_wf(r.pending@),
            r.deposit_topic@ == deposit_topic_text(),
    {
        let topic = keccak256(
            "DepositInitiated(uint64,address,address,address,uint64,uint64)".as_bytes(),
        );
        BridgeRouter {
            config_path,
            config,
            name,
            secret_key,
            committee,
            pending: VoteBook::new(),
            deposit_topic: cat("0x", hex_encode(topic.as_slice()).as_str()),
        }
    }

    /// The topic of the logs that report deposits.
    pub fn deposit_topic(&self) -> (r: &str)
        ensures
            r@ == self.deposit_topic@,
    {
        self.deposit_topic.as_str()
    }

    /// A copy of the configuration.
    pub fn config_snapshot(&self) -> (r: BridgeLinkConfig)
        ensures
            r@ == self.config@,
    {
        self.config.duplicate()
    }

    /// The configuration as it would be stored: in normal form, if it passes
    /// the check.
    pub fn prepare_config(&self, config: BridgeLinkConfig) -> (r: Result<
        BridgeLinkConfig,
        BridgeConfigError,
    >)
        ensures
            match config_problem(normalized(config@).routes) {
                None => r matches Ok(c) && c@ == normalized(config@),
                Some(problem) => r matches Err(
                    BridgeConfigError::Validation { path, message },
                ) && path@ == self.config_path@ && message@ == problem,
            },
    {
        let mut config = config;
        config.normalize_routes();
        match config.check(self.config_path.as_str()) {
            Ok(()) => Ok(config),
            Err(e) => Err(e),
        }
    }

    /// Takes up a configuration, in normal form, once it has been stored. One
    /// that does not pass the check or was not stored changes nothing.
    pub fn update_config(&mut self, config: BridgeLinkConfig, outcome: &WriteOutcome) -> (r: Result<
        BridgeLinkConfig,
        BridgeConfigError,
    >)
        ensures
            final(self).same_but_config(*old(self)),
            r is Err ==> final(self).config == old(self).config,
            match config_problem(normalized(config@).routes) {
                Some(problem) => r matches Err(
                    BridgeConfigError::Validation { path, message },
                ) && path@ == old(self).config_path@ && message@ == problem,
                None => match *outcome {
                    WriteOutcome::NotEncoded(e) => r matches Err(
                        BridgeConfigError::Validation { path, message },
                    ) && path@ == old(self).config_path@ && message == e,
                    WriteOutcome::TempNotWritten { tmp, source: e } => r matches Err(
                        BridgeConfigError::Write { path, source },
                    ) && path == tmp && source == e,
                    WriteOutcome::NotRenamed(e) => r matches Err(
                        BridgeConfigError::Write { path, source },
                    ) && path@ == old(self).config_path@ && source == e,
                    WriteOutcome::Written => r matches Ok(c) && c@ == normalized(config@)
                        && final(self).config@ == normalized(config@),
                },
            },
    {
        let config = match self.prepare_config(config) {
            Ok(config) => config,
            Err(e) => {
                return Err(e);
            },
        };
        match config.write(self.config_path.as_str(), outcome) {
            Ok(()) => {},
            Err(e) => {
                return Err(e);
            },
        }
        self.config = config.duplicate();
        Ok(config)
    }

    /// The state of the bridge, where `active` tells of the routes that run and
    /// `validator` names the key.
    pub fn status_snapshot(&self, active: &Vec<RouteSummary>, validator: &str) -> (r:
        BridgeStatusResponse)
        ensures
            is_status_of(r, *self, active@, validator@),
    {
        let mut routes: Vec<RouteStatusSnapshot> = Vec::new();
        let ghost views = self.config@.routes;
        let mut i: usize = 0;
        while i < self.config.routes.len()
            invariant
                i <= self.config.routes.len(),
                views == self.config@.routes,
                views == route_views(self.config.routes@),
                routes@.len() == i,
                forall|j: int|
                    0 <= j < i ==> (#[trigger] routes@[j])@ == route_snapshot(
                        views[j],
                        summary_views(active@),
                        self.pending@,
                    ),
            decreases self.config.routes.len() - i,
        {
            assert(views[i as int] == self.config.routes@[i as int]@);
            routes.push(snapshot(&self.config.routes[i], active, &self.pending));
            i += 1;
        }
        BridgeStatusResponse {
            running: true,
            config_path: self.config_path.clone(),
            validator: validator.to_owned(),
            committee_epoch: self.committee.epoch,
            committee_size: self.committee.size(),
            route_count: self.config.routes.len(),
            enabled_route_count: enabled_routes(&self.config.routes),
            routes,
        }
    }

    /// The route with an id, if it is on.
    pub fn route_cfg(&self, route_id: &str) -> (r: Option<BridgeRoute>)
        ensures
            match r {
                Some(route) => exists|i: int|
                    0 <= i < self.config.routes@.len() && (#[trigger] self.config.routes@[i])
                        == route && route.id@ == route_id@ && route.enabled && forall|j: int|
                        0 <= j < i ==> !((#[trigger] self.config.routes@[j]).id@ == route_id@
                            && self.config.routes@[j].enabled),
                None => forall|i: int|
                    0 <= i < self.config.routes@.len() ==> !((
                    #[trigger] self.config.routes@[i]).id@ == route_id@
                        && self.config.routes@[i].enabled),
            },
    {
        let routes = &self.config.routes;
        let mut i: usize = 0;
        while i < routes.len()
            invariant
                i <= routes.len(),
                *routes == self.config.routes,
                forall|j: int|
                    0 <= j < i ==> !((#[trigger] routes@[j]).id@ == route_id@
                        && routes@[j].enabled),
            decreases routes.len() - i,
        {
            if routes[i].enabled && same_text(routes[i].id.as_str(), route_id) {
                return Some(routes[i].duplicate());
            }
            i += 1;
        }
        None
    }

    /// Takes up the committee that the local chain named; where it could not be
    /// asked, the one before stands.
    pub fn refresh_committee(&mut self, fetched: Option<Committee>)
        ensures
            final(self).committee == (match fetched {
                Some(c) => c,
                None => old(self).committee,
            }),
            final(self).config == old(self).config,
            final(self).config_path == old(self).config_path,
            final(self).name == old(self).name,
            final(self).secret_key == old(self).secret_key,
            final(self).pending == old(self).pending,
            final(self).deposit_topic == old(self).deposit_topic,
    {
        if let Some(committee) = fetched {
            self.committee = committee;
        }
    }

    /// Whether this validator is the one to submit.
    pub fn is_leader(&self, now_secs: u64) -> (r: bool)
        ensures
            r == self.committee.leads(self.name@, now_secs),
    {
        self.committee.is_leader(&self.name, now_secs)
    }

    /// The deposits that this validator is to submit now.
    pub fn try_submit_deposits(&self, now_secs: u64) -> (r: Vec<DepositSubmission>)
        ensures
            submission_views(r@) == (if self.committee.leads(self.name@, now_secs) {
                submissions(self.pending@, self.committee)
            } else {
                Seq::empty()
            }),
    {
        self.pending.try_submit_deposits(&self.committee, &self.name, now_secs)
    }

    /// Notes this validator's own vote for a deposit of a route.
    pub fn ingest_deposit_vote(
        &mut self,
        route_id: &str,
        route: &BridgeRoute,
        vote: BridgeLinkVote,
        message: BridgeDepositMessage,
    )
        ensures
            final(self).same_but_votes(*old(self)),
            exists|contract: ContractAddress|
                contract.bytes@ == inbound_bytes(route@) && final(self).pending@
                    == #[trigger] with_deposit_vote(
                    old(self).pending@,
                    route_id@,
                    contract,
                    vote@,
                    message,
                ),
    {
        let contract = inbound_contract_for(route);
        self.pending.ingest_deposit_vote(route_id, contract, vote, message);
    }

    /// Notes the vote of another validator.
    pub fn ingest_vote(&mut self, vote: BridgeLinkVote)
        ensures
            final(self).same_but_votes(*old(self)),
            final(self).pending@ == with_link_vote(old(self).pending@, vote@),
    {
        self.pending.ingest_vote(vote);
    }

    /// The key of this validator.
    pub fn local_name(&self) -> (r: PublicKey)
        ensures
            r == self.name,
    {
        self.name.duplicate()
    }

    /// The secret of this validator.
    pub fn secret_key(&self) -> (r: &SecretKey)
        ensures
            *r == self.secret_key,
    {
        &self.secret_key
    }
}

/// The routes with a subscription after some steps.
pub open spec fn after_steps(running: Set<Seq<char>>, steps: Seq<StepView>) -> Set<Seq<char>>
    decreases steps.len(),
{
    if steps.len() == 0 {
        running
    } else {
        let before = after_steps(running, steps.drop_last());
        match steps.last() {
            StepView::Stop(id) => before.remove(id),
            StepView::Start(route) => before.insert(route.id),
        }
    }
}

/// Steps can be taken in two parts.
proof fn lemma_steps_in_parts(running: Set<Seq<char>>, a: Seq<StepView>, b: Seq<StepView>)
    ensures
        after_steps(running, a + b) == after_steps(after_steps(running, a), b),
    decreases b.len(),
{
    if b.len() == 0 {
        assert(a + b =~= a);
    } else {
        lemma_steps_in_parts(running, a, b.drop_last());
        assert((a + b).drop_last() =~= a + b.drop_last());
        assert((a + b).last() == b.last());
    }
}

/// Stopping what is not wanted leaves the rest.
proof fn lemma_after_stops(
    routes: Seq<RouteView>,
    kind: SubscriberKind,
    run: Seq<Seq<char>>,
    running: Set<Seq<char>>,
    id: Seq<char>,
)
    ensures
        after_steps(running, stops(routes, kind, run)).contains(id) == (running.contains(id) && !(
        run.contains(id) && !wanted(routes, kind, id))),
    decreases run.len(),
{
    if run.len() > 0 {
        let front = run.drop_last();
        lemma_after_stops(routes, kind, front, running, id);
        let rest = stops(routes, kind, front);
        if !wanted(routes, kind, run.last()) {
            assert(stops(routes, kind, run).drop_last() =~= rest);
        }
        if front.contains(id) {
            let i = front.index_of(id);
            assert(run[i] == id);
        }
        if run.contains(id) && id != run.last() {
            let i = run.index_of(id);
            assert(front[i] == id);
        }
        if id == run.last() {
            assert(run[run.len() - 1] == id);
        }
    }
}

/// Starting what is wanted settles the routes that are wanted and leaves the
/// others.
proof fn lemma_after_starts(
    routes: Seq<RouteView>,
    kind: SubscriberKind,
    states: Seq<Seq<char>>,
    running: Set<Seq<char>>,
    id: Seq<char>,
)
    ensures
        after_steps(running, starts(routes, kind, states)).contains(id) == (if wanted(
            routes,
            kind,
            id,
        ) {
            states.contains(id)
        } else {
            running.contains(id)
        }),
    decreases routes.len(),
{
    if routes.len() > 0 {
        let front = routes.drop_last();
        let route = routes.last();
        lemma_after_starts(front, kind, states, running, id);
        let rest = starts(front, kind, states);
        if subscribes(route, kind) {
            assert(starts(routes, kind, states).drop_last() =~= rest);
        }
        if wanted(front, kind, id) {
            let i = choose|i: int|
                0 <= i < front.len() && subscribes(#[trigger] front[i], kind) && front[i].id == id;
            assert(routes[i] == front[i]);
        }
        if wanted(routes, kind, id) && !(subscribes(route, kind) && route.id == id) {
            let i = choose|i: int|
                0 <= i < routes.len() && subscribes(#[trigger] routes[i], kind) && routes[i].id
                    == id;
            assert(front[i] == routes[i]);
        }
        if subscribes(route, kind) && route.id == id {
            assert(routes[routes.len() - 1] == route);
        }
    }
}

/// Whatever ran before: after the steps exactly the routes that are wanted and
/// have a memory have a subscription.
pub proof fn law_steps_reach_the_wanted(
    routes: Seq<RouteView>,
    kind: SubscriberKind,
    running: Seq<Seq<char>>,
    states: Seq<Seq<char>>,
    id: Seq<char>,
)
    ensures
        after_steps(
            running.to_set(),
            stops(routes, kind, running) + starts(routes, kind, states),
        ).contains(id) == (wanted(routes, kind, id) && states.contains(id)),
{
    let all = running.to_set();
    let first = stops(routes, kind, running);
    lemma_steps_in_parts(all, first, starts(routes, kind, states));
    lemma_after_stops(routes, kind, running, all, id);
    lemma_after_starts(routes, kind, states, after_steps(all, first), id);
}

/// A route that keeps running keeps its memory, and one whose id is new starts
/// afresh.
pub proof fn law_known_routes_keep_their_memory(
    routes: Seq<RouteView>,
    previous: Seq<Seq<char>>,
    k: int,
)
    requires
        0 <= k < slots(routes, previous).len(),
    ensures
        match slots(routes, previous)[k] {
            SlotView::Existing(i) => i < previous.len() && exists|r: int|
                0 <= r < routes.len() && (#[trigger] routes[r]).enabled && routes[r].id
                    == previous[i as int],
            SlotView::Fresh(id) => !previous.contains(id) && exists|r: int|
                0 <= r < routes.len() && (#[trigger] routes[r]).enabled && routes[r].id == id,
        },
    decreases routes.len(),
{
    let front = routes.drop_last();
    let rest = slots(front, previous);
    if k < rest.len() {
        law_known_routes_keep_their_memory(front, previous, k);
        match rest[k] {
            SlotView::Existing(i) => {
                let r = choose|r: int|
                    0 <= r < front.len() && (#[trigger] front[r]).enabled && front[r].id
                        == previous[i as int];
                assert(routes[r] == front[r]);
            },
            SlotView::Fresh(id) => {
                let r = choose|r: int|
                    0 <= r < front.len() && (#[trigger] front[r]).enabled && front[r].id == id;
                assert(routes[r] == front[r]);
            },
        }
    } else {
        let last = routes.len() - 1;
        assert(routes[last] == routes.last());
        lemma_id_place(previous, routes.last().id, 0);
    }
}

/// The place of an id is the first one where it stands.
pub proof fn lemma_id_place(ids: Seq<Seq<char>>, id: Seq<char>, from: nat)
    requires
        from <= ids.len(),
    ensures
        from <= id_place(ids, id, from) <= ids.len(),
        forall|j: int| from <= j < id_place(ids, id, from) ==> #[trigger] ids[j] != id,
        id_place(ids, id, from) < ids.len() ==> ids[id_place(ids, id, from) as int] == id,
    decreases ids.len() - from,
{
    if from < ids.len() && ids[from as int] != id {
        lemma_id_place(ids, id, from + 1);
    }
}

/// Every route that is on has a memory, in the order of the configuration.
pub proof fn law_every_enabled_route_has_a_memory(
    routes: Seq<RouteView>,
    previous: Seq<Seq<char>>,
)
    ensures
        slots(routes, previous).len() == enabled_count(routes),
    decreases routes.len(),
{
    if routes.len() > 0 {
        law_every_enabled_route_has_a_memory(routes.drop_last(), previous);
    }
}

} // verus!
