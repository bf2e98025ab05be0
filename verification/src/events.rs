//! What the bridge reports: events, their names and pages of them.
use vstd::prelude::*;
use vstd::string::*;
use crate::evm::text_of;
use crate::text::{cat, same_text};

verus! {

/// How grave an event is.
#[derive(Clone, Copy, Debug, PartialEq, Eq, Structural)]
pub enum BridgeEventLevel {
    Info,
    Warn,
    Error,
}

/// What happened.
#[derive(Clone, Copy, Debug, PartialEq, Eq, Structural)]
pub enum BridgeEventKind {
    DepositSeen,
    ConfirmDepSubmitted,
    ConfirmDepOk,
    ConfirmDepFailed,
    WithdrawSeen,
    EvmRequestSent,
    EvmRequestFailed,
    EvmFinalized,
    EvmFinalizeFailed,
    DepositSubmitted,
    DepositOk,
    DepositFailed,
    ConfigUpdated,
    RouteReloaded,
}

/// An event on its way to the store.
#[derive(Clone, Debug, PartialEq, Eq)]
pub struct EventDraft {
    pub route_id: String,
    pub token: Option<String>,
    pub kind: BridgeEventKind,
    pub level: BridgeEventLevel,
    pub message_id: Option<u64>,
    pub amount: Option<u64>,
    pub detail: String,
}

/// An [`EventDraft`] as text sequences.
#[verifier::ext_equal]
pub struct DraftView {
    pub route_id: Seq<char>,
    pub token: Option<Seq<char>>,
    pub kind: BridgeEventKind,
    pub level: BridgeEventLevel,
    pub message_id: Option<u64>,
    pub amount: Option<u64>,
    pub detail: Seq<char>,
}

impl View for EventDraft {
    type V = DraftView;

    open spec fn view(&self) -> DraftView {
        DraftView {
            route_id: self.route_id@,
            token: text_of(self.token),
            kind: self.kind,
            level: self.level,
            message_id: self.message_id,
            amount: self.amount,
            detail: self.detail@,
        }
    }
}

/// An event in the store.
#[derive(Clone, Debug, PartialEq, Eq)]
pub struct BridgeEventRecord {
    pub id: u64,
    pub ts_ms: u64,
    pub route_id: String,
    pub token: Option<String>,
    pub kind: BridgeEventKind,
    pub level: BridgeEventLevel,
    pub message_id: Option<u64>,
    pub amount: Option<u64>,
    pub detail: String,
}

/// A [`BridgeEventRecord`] as sequences.
#[verifier::ext_equal]
pub struct RecordView {
    pub id: u64,
    pub ts_ms: u64,
    pub said: DraftView,
}

impl View for BridgeEventRecord {
    type V = RecordView;

    open spec fn view(&self) -> RecordView {
        RecordView { id: self.id, ts_ms: self.ts_ms, said: self.draft() }
    }
}

impl BridgeEventRecord {
    /// What the event says, its number and time left out.
    pub open spec fn draft(self) -> DraftView {
        DraftView {
            route_id: self.route_id@,
            token: text_of(self.token),
            kind: self.kind,
            level: self.level,
            message_id: self.message_id,
            amount: self.amount,
            detail: self.detail@,
        }
    }
}

/// One page of events, the newest first.
#[derive(Clone, Debug, PartialEq, Eq)]
pub struct EventsPage {
    pub events: Vec<BridgeEventRecord>,
    pub total: u64,
    pub page: u32,
    pub page_size: u32,
    pub total_pages: u32,
}

/// The name of the directory and of the file that hold the events.
#[derive(Clone, Debug, PartialEq, Eq)]
pub struct EventsDbPath {
    pub directory: String,
    pub file: String,
}

/// Where the events of a configuration file are kept: beside it, under its
/// name without the extension.
pub fn events_db_path(parent: Option<&str>, stem: Option<&str>) -> (r: EventsDbPath)
    ensures
        r.directory@ == (match parent {
            Some(p) => p@,
            None => "."@,
        }),
        r.file@ == (match stem {
            Some(s) => s@,
            None => "bridge"@,
        }) + "-events.db"@,
{
    let directory = match parent {
        Some(p) => p.to_owned(),
        None => ".".to_owned(),
    };
    let file = match stem {
        Some(s) => cat(s, "-events.db"),
        None => cat("bridge", "-events.db"),
    };
    EventsDbPath { directory, file }
}

/// The name of a kind of event.
pub open spec fn kind_name(kind: BridgeEventKind) -> Seq<char> {
    match kind {
        BridgeEventKind::DepositSeen => "deposit_seen"@,
        BridgeEventKind::ConfirmDepSubmitted => "confirm_dep_submitted"@,
        BridgeEventKind::ConfirmDepOk => "confirm_dep_ok"@,
        BridgeEventKind::ConfirmDepFailed => "confirm_dep_failed"@,
        BridgeEventKind::WithdrawSeen => "withdraw_seen"@,
        BridgeEventKind::EvmRequestSent => "evm_request_sent"@,
        BridgeEventKind::EvmRequestFailed => "evm_request_failed"@,
        BridgeEventKind::EvmFinalized => "evm_finalized"@,
        BridgeEventKind::EvmFinalizeFailed => "evm_finalize_failed"@,
        BridgeEventKind::DepositSubmitted => "deposit_submitted"@,
        BridgeEventKind::DepositOk => "deposit_ok"@,
        BridgeEventKind::DepositFailed => "deposit_failed"@,
        BridgeEventKind::ConfigUpdated => "config_updated"@,
        BridgeEventKind::RouteReloaded => "route_reloaded"@,
    }
}

/// The name of a kind of event.
pub fn event_kind_name(kind: BridgeEventKind) -> (r: &'static str)
    ensures
        r@ == kind_name(kind),
{
    match kind {
        BridgeEventKind::DepositSeen => "deposit_seen",
        BridgeEventKind::ConfirmDepSubmitted => "confirm_dep_submitted",
        BridgeEventKind::ConfirmDepOk => "confirm_dep_ok",
        BridgeEventKind::ConfirmDepFailed => "confirm_dep_failed",
        BridgeEventKind::WithdrawSeen => "withdraw_seen",
        BridgeEventKind::EvmRequestSent => "evm_request_sent",
        BridgeEventKind::EvmRequestFailed => "evm_request_failed",
        BridgeEventKind::EvmFinalized => "evm_finalized",
        BridgeEventKind::EvmFinalizeFailed => "evm_finalize_failed",
        BridgeEventKind::DepositSubmitted => "deposit_submitted",
        BridgeEventKind::DepositOk => "deposit_ok",
        BridgeEventKind::DepositFailed => "deposit_failed",
        BridgeEventKind::ConfigUpdated => "config_updated",
        BridgeEventKind::RouteReloaded => "route_reloaded",
    }
}

/// The name of a level.
pub open spec fn level_name(level: BridgeEventLevel) -> Seq<char> {
    match level {
        BridgeEventLevel::Info => "info"@,
        BridgeEventLevel::Warn => "warn"@,
        BridgeEventLevel::Error => "error"@,
    }
}

/// The name of a level.
pub fn event_level_name(level: BridgeEventLevel) -> (r: &'static str)
    ensures
        r@ == level_name(level),
{
    match level {
        BridgeEventLevel::Info => "info",
        BridgeEventLevel::Warn => "warn",
        BridgeEventLevel::Error => "error",
    }
}

/// The kind of event with the name `raw`.
pub fn parse_kind(raw: &str) -> (r: Option<BridgeEventKind>)
    ensures
        match r {
            Some(kind) => kind_name(kind) == raw@,
            None => forall|kind: BridgeEventKind| #[trigger] kind_name(kind) != raw@,
        },
{
    if same_text(raw, "deposit_seen") {
        return Some(BridgeEventKind::DepositSeen);
    }
    if same_text(raw, "confirm_dep_submitted") {
        return Some(BridgeEventKind::ConfirmDepSubmitted);
    }
    if same_text(raw, "confirm_dep_ok") {
        return Some(BridgeEventKind::ConfirmDepOk);
    }
    if same_text(raw, "confirm_dep_failed") {
        return Some(BridgeEventKind::ConfirmDepFailed);
    }
    if same_text(raw, "withdraw_seen") {
        return Some(BridgeEventKind::WithdrawSeen);
    }
    if same_text(raw, "evm_request_sent") {
        return Some(BridgeEventKind::EvmRequestSent);
    }
    if same_text(raw, "evm_request_failed") {
        return Some(BridgeEventKind::EvmRequestFailed);
    }
    if same_text(raw, "evm_finalized") {
        return Some(BridgeEventKind::EvmFinalized);
    }
    if same_text(raw, "evm_finalize_failed") {
        return Some(BridgeEventKind::EvmFinalizeFailed);
    }
    if same_text(raw, "deposit_submitted") {
        return Some(BridgeEventKind::DepositSubmitted);
    }
    if same_text(raw, "deposit_ok") {
        return Some(BridgeEventKind::DepositOk);
    }
    if same_text(raw, "deposit_failed") {
        return Some(BridgeEventKind::DepositFailed);
    }
    if same_text(raw, "config_updated") {
        return Some(BridgeEventKind::ConfigUpdated);
    }
    if same_text(raw, "route_reloaded") {
        return Some(BridgeEventKind::RouteReloaded);
    }
    None
}

/// The level with the name `raw`.
pub fn parse_level(raw: &str) -> (r: Option<BridgeEventLevel>)
    ensures
        match r {
            Some(level) => level_name(level) == raw@,
            None => forall|level: BridgeEventLevel| #[trigger] level_name(level) != raw@,
        },
{
    if same_text(raw, "info") {
        return Some(BridgeEventLevel::Info);
    }
    if same_text(raw, "warn") {
        return Some(BridgeEventLevel::Warn);
    }
    if same_text(raw, "error") {
        return Some(BridgeEventLevel::Error);
    }
    None
}

/// Different kinds of events have different names, so that a name that was
/// stored reads back as the kind.
pub proof fn law_kind_names_are_distinct(a: BridgeEventKind, b: BridgeEventKind)
    requires
        kind_name(a) == kind_name(b),
    ensures
        a == b,
{
    reveal_strlit("deposit_seen");
    reveal_strlit("confirm_dep_submitted");
    reveal_strlit("confirm_dep_ok");
    reveal_strlit("confirm_dep_failed");
    reveal_strlit("withdraw_seen");
    reveal_strlit("evm_request_sent");
    reveal_strlit("evm_request_failed");
    reveal_strlit("evm_finalized");
    reveal_strlit("evm_finalize_failed");
    reveal_strlit("deposit_submitted");
    reveal_strlit("deposit_ok");
    reveal_strlit("deposit_failed");
    reveal_strlit("config_updated");
    reveal_strlit("route_reloaded");
    assert("deposit_seen"@.len() == 12);
    assert("confirm_dep_submitted"@.len() == 21);
    assert("confirm_dep_ok"@.len() == 14);
    assert("confirm_dep_failed"@.len() == 18);
    assert("withdraw_seen"@.len() == 13);
    assert("evm_request_sent"@.len() == 16);
    assert("evm_request_failed"@.len() == 18);
    assert("evm_finalized"@.len() == 13);
    assert("evm_finalize_failed"@.len() == 19);
    assert("deposit_submitted"@.len() == 17);
    assert("deposit_ok"@.len() == 10);
    assert("deposit_failed"@.len() == 14);
    assert("config_updated"@.len() == 14);
    assert("route_reloaded"@.len() == 14);
    assert("confirm_dep_ok"@[0] == 'c' && "confirm_dep_ok"@[5] == 'r');
    assert("confirm_dep_failed"@[0] == 'c' && "confirm_dep_failed"@[5] == 'r');
    assert("withdraw_seen"@[0] == 'w' && "withdraw_seen"@[5] == 'r');
    assert("evm_request_failed"@[0] == 'e' && "evm_request_failed"@[5] == 'e');
    assert("evm_finalized"@[0] == 'e' && "evm_finalized"@[5] == 'i');
    assert("deposit_failed"@[0] == 'd' && "deposit_failed"@[5] == 'i');
    assert("config_updated"@[0] == 'c' && "config_updated"@[5] == 'g');
    assert("route_reloaded"@[0] == 'r' && "route_reloaded"@[5] == '_');
}

/// Different levels have different names.
pub proof fn law_level_names_are_distinct(a: BridgeEventLevel, b: BridgeEventLevel)
    requires
        level_name(a) == level_name(b),
    ensures
        a == b,
{
    reveal_strlit("info");
    reveal_strlit("warn");
    reveal_strlit("error");
    assert("info"@[0] == 'i' && "warn"@[0] == 'w' && "error"@[0] == 'e');
}

/// A column of the store that holds what it should not.
#[derive(Clone, Debug, PartialEq, Eq)]
pub struct ColumnError {
    pub column: usize,
    pub value: String,
}

/// Reads the kind and the level of a stored event.
pub fn row_labels(kind_raw: &str, level_raw: &str) -> (r: Result<
    (BridgeEventKind, BridgeEventLevel),
    ColumnError,
>)
    ensures
        match r {
            Ok((kind, level)) => kind_name(kind) == kind_raw@ && level_name(level) == level_raw@,
            Err(e) => {
                ||| e.column == 4 && e.value@ == kind_raw@ && forall|kind: BridgeEventKind|
                    #[trigger] kind_name(kind) != kind_raw@
                ||| e.column == 5 && e.value@ == level_raw@ && (exists|kind: BridgeEventKind|
                    #[trigger] kind_name(kind) == kind_raw@) && forall|level: BridgeEventLevel|
                    #[trigger] level_name(level) != level_raw@
            },
        },
{
    match parse_kind(kind_raw) {
        None => Err(ColumnError { column: 4, value: kind_raw.to_owned() }),
        Some(kind) => match parse_level(level_raw) {
            None => Err(ColumnError { column: 5, value: level_raw.to_owned() }),
            Some(level) => Ok((kind, level)),
        },
    }
}

/// The part of the store of events that is kept in memory: the number of the
/// next event.
#[derive(Clone, Copy, Debug, PartialEq, Eq)]
pub struct EventStore {
    pub next_id: u64,
}

/// A page of events to be fetched.
#[derive(Clone, Copy, Debug, PartialEq, Eq)]
pub struct PageRequest {
    pub page: u32,
    pub page_size: u32,
    /// How many newer events are passed over.
    pub offset: u64,
}

/// The number of pages that hold `total` events.
pub open spec fn page_count(total: u64, page_size: u32) -> int {
    if total == 0 {
        0
    } else {
        (total + page_size - 1) / (page_size as int)
    }
}

/// The number of the first event after those up to `max_id`.
pub open spec fn first_number(max_id: u64) -> u64 {
    if max_id < u64::MAX {
        (max_id + 1) as u64
    } else {
        u64::MAX
    }
}

/// The number after `id`; after the largest one comes zero.
pub open spec fn number_after(id: u64) -> u64 {
    if id < u64::MAX {
        (id + 1) as u64
    } else {
        0
    }
}

/// The events of a store that gives out the number `next`, when these drafts
/// are handed to it one after the other, each with its time.
pub open spec fn emitted(next: u64, drafts: Seq<(u64, DraftView)>) -> Seq<RecordView>
    decreases drafts.len(),
{
    if drafts.len() == 0 {
        Seq::empty()
    } else {
        let (ts_ms, said) = drafts[0];
        seq![RecordView { id: next, ts_ms, said }] + emitted(number_after(next), drafts.skip(1))
    }
}

impl EventStore {
    /// A store whose largest number so far is `max_id`.
    pub fn open(max_id: u64) -> (r: Self)
        ensures
            r.next_id == first_number(max_id),
    {
        EventStore { next_id: max_id.saturating_add(1) }
    }

    /// Numbers an event. After the largest number comes zero.
    pub fn emit(&mut self, ts_ms: u64, draft: EventDraft) -> (r: BridgeEventRecord)
        ensures
            r@ == (RecordView { id: old(self).next_id, ts_ms, said: draft@ }),
            final(self).next_id == number_after(old(self).next_id),
    {
        let id: u64 = self.next_id;
        self.next_id = id.wrapping_add(1);
        BridgeEventRecord {
            id,
            ts_ms,
            route_id: draft.route_id,
            token: draft.token,
            kind: draft.kind,
            level: draft.level,
            message_id: draft.message_id,
            amount: draft.amount,
            detail: draft.detail,
        }
    }

    /// The page that is fetched for a wish: pages count from one and hold one to
    /// two hundred events.
    pub fn list_page(page: u32, page_size: u32) -> (r: PageRequest)
        ensures
            r.page == (if page == 0 {
                1
            } else {
                page
            }),
            r.page_size == (if page_size == 0 {
                1
            } else if page_size > 200 {
                200
            } else {
                page_size
            }),
            r.offset == (r.page - 1) * r.page_size,
            r.page >= 1,
            1 <= r.page_size <= 200,
            page >= 1 ==> r.page == page,
            1 <= page_size <= 200 ==> r.page_size == page_size,
    {
        let page: u32 = if page < 1 {
            1
        } else {
            page
        };
        let page_size: u32 = if page_size < 1 {
            1
        } else if page_size > 200 {
            200
        } else {
            page_size
        };
        let before: u64 = page as u64 - 1;
        let size: u64 = page_size as u64;
        assert(before * size <= 0xffff_ffff * 200) by (nonlinear_arith)
            requires
                before <= 0xffff_ffff,
                size <= 200,
        ;
        PageRequest { page, page_size, offset: before * size }
    }
}

/// The number of pages that hold `total` events; of a number over 32 bits the
/// low ones.
pub fn total_pages(total: u64, page_size: u32) -> (r: u32)
    requires
        page_size > 0,
        total + page_size - 1 <= u64::MAX,
    ensures
        r == page_count(total, page_size) as u32,
        page_count(total, page_size) <= u32::MAX ==> r == page_count(total, page_size),
{
    if total == 0 {
        0
    } else {
        let pages: u64 = (total + (page_size as u64 - 1)) / page_size as u64;
        #[verifier::truncate]
        (pages as u32)
    }
}

/// The page with the events that were found.
pub fn query_page(request: PageRequest, total: u64, events: Vec<BridgeEventRecord>) -> (r:
    EventsPage)
    requires
        request.page_size > 0,
        total + request.page_size - 1 <= u64::MAX,
    ensures
        r.events == events,
        r.total == total,
        r.page == request.page,
        r.page_size == request.page_size,
        r.total_pages == page_count(total, request.page_size) as u32,
{
    let pages: u32 = total_pages(total, request.page_size);
    EventsPage {
        events,
        total,
        page: request.page,
        page_size: request.page_size,
        total_pages: pages,
    }
}

/// The page that is given where the events cannot be read.
pub fn empty_page(page: u32, page_size: u32) -> (r: EventsPage)
    ensures
        r.events@.len() == 0,
        r.total == 0,
        r.page == page,
        r.page_size == page_size,
        r.total_pages == 0,
{
    EventsPage { events: Vec::new(), total: 0, page, page_size, total_pages: 0 }
}

/// Every event stands on exactly one page: the one that its place leads to, and
/// that page is counted.
pub proof fn law_pages_cover_all_events(total: u64, page_size: u32, place: u64)
    requires
        page_size > 0,
        place < total,
    ensures
        0 <= place / (page_size as u64) < page_count(total, page_size),
        (place / (page_size as u64)) * page_size <= place < (place / (page_size as u64) + 1)
            * page_size,
{
    let size = page_size as int;
    let q = place as int / size;
    let n = (total + size - 1) / size;
    assert(q * size <= place < (q + 1) * size) by (nonlinear_arith)
        requires
            size > 0,
            q == place as int / size,
    ;
    assert(n * size <= total + size - 1 < (n + 1) * size) by (nonlinear_arith)
        requires
            size > 0,
            n == (total + size - 1) / size,
    ;
    assert(q < n) by (nonlinear_arith)
        requires
            size > 0,
            q * size <= place,
            place < total,
            total + size - 1 < (n + 1) * size,
    ;
}

/// The events of a store that is opened after the number `max_id` get the
/// numbers that follow, in the order of the calls: all are different, and none
/// was given before. Each keeps its time and what it says. Left out are more
/// events than there are numbers left.
pub proof fn law_events_are_numbered_on(max_id: u64, drafts: Seq<(u64, DraftView)>)
    requires
        max_id + drafts.len() <= u64::MAX,
    ensures
        emitted(first_number(max_id), drafts).len() == drafts.len(),
        forall|i: int|
            0 <= i < drafts.len() ==> (#[trigger] emitted(first_number(max_id), drafts)[i]) == (
            RecordView { id: (max_id + 1 + i) as u64, ts_ms: drafts[i].0, said: drafts[i].1 }),
        forall|i: int, j: int|
            0 <= i < j < drafts.len() ==> (#[trigger] emitted(first_number(max_id), drafts)[i]).id
                < (#[trigger] emitted(first_number(max_id), drafts)[j]).id,
        forall|i: int|
            0 <= i < drafts.len() ==> (#[trigger] emitted(first_number(max_id), drafts)[i]).id
                > max_id,
    decreases drafts.len(),
{
    let all = emitted(first_number(max_id), drafts);
    if drafts.len() > 0 {
        let rest = emitted(number_after(first_number(max_id)), drafts.skip(1));
        assert(all =~= seq![all[0]] + rest);
        if drafts.len() > 1 {
            law_events_are_numbered_on((max_id + 1) as u64, drafts.skip(1));
        } else {
            assert(drafts.skip(1).len() == 0);
        }
        assert forall|i: int| 0 <= i < drafts.len() implies #[trigger] all[i] == (RecordView {
            id: (max_id + 1 + i) as u64,
            ts_ms: drafts[i].0,
            said: drafts[i].1,
        }) by {
            if i > 0 {
                assert(all[i] == rest[i - 1]);
                assert(drafts.skip(1)[i - 1] == drafts[i]);
            }
        }
    }
}

} // verus!
