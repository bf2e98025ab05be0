use lightpool_bridge::events::{
    empty_page, event_kind_name, event_level_name, events_db_path, parse_kind, parse_level,
    query_page, row_labels, total_pages, BridgeEventKind, BridgeEventLevel, EventDraft, EventStore,
    PageRequest,
};

const KINDS: [(BridgeEventKind, &str); 14] = [
    (BridgeEventKind::DepositSeen, "deposit_seen"),
    (BridgeEventKind::ConfirmDepSubmitted, "confirm_dep_submitted"),
    (BridgeEventKind::ConfirmDepOk, "confirm_dep_ok"),
    (BridgeEventKind::ConfirmDepFailed, "confirm_dep_failed"),
    (BridgeEventKind::WithdrawSeen, "withdraw_seen"),
    (BridgeEventKind::EvmRequestSent, "evm_request_sent"),
    (BridgeEventKind::EvmRequestFailed, "evm_request_failed"),
    (BridgeEventKind::EvmFinalized, "evm_finalized"),
    (BridgeEventKind::EvmFinalizeFailed, "evm_finalize_failed"),
    (BridgeEventKind::DepositSubmitted, "deposit_submitted"),
    (BridgeEventKind::DepositOk, "deposit_ok"),
    (BridgeEventKind::DepositFailed, "deposit_failed"),
    (BridgeEventKind::ConfigUpdated, "config_updated"),
    (BridgeEventKind::RouteReloaded, "route_reloaded"),
];

#[test]
fn kinds_read_back() {
    for (kind, name) in KINDS {
        assert_eq!(event_kind_name(kind), name);
        assert_eq!(parse_kind(name), Some(kind));
    }
    assert_eq!(parse_kind("deposit"), None);
    assert_eq!(parse_kind(""), None);
}

#[test]
fn levels_read_back() {
    for (level, name) in [
        (BridgeEventLevel::Info, "info"),
        (BridgeEventLevel::Warn, "warn"),
        (BridgeEventLevel::Error, "error"),
    ] {
        assert_eq!(event_level_name(level), name);
        assert_eq!(parse_level(name), Some(level));
    }
    assert_eq!(parse_level("INFO"), None);
}

#[test]
fn rows_with_unknown_labels() {
    assert_eq!(
        row_labels("deposit_ok", "warn"),
        Ok((BridgeEventKind::DepositOk, BridgeEventLevel::Warn))
    );
    let kind = row_labels("nope", "nope").unwrap_err();
    assert_eq!((kind.column, kind.value.as_str()), (4, "nope"));
    let level = row_labels("deposit_ok", "loud").unwrap_err();
    assert_eq!((level.column, level.value.as_str()), (5, "loud"));
}

#[test]
fn where_events_are_kept() {
    let p = events_db_path(Some("/etc/bridge"), Some("main"));
    assert_eq!((p.directory.as_str(), p.file.as_str()), ("/etc/bridge", "main-events.db"));
    let q = events_db_path(None, None);
    assert_eq!((q.directory.as_str(), q.file.as_str()), (".", "bridge-events.db"));
}

#[test]
fn events_are_numbered() {
    let mut store = EventStore::open(41);
    let draft = EventDraft {
        route_id: "r".to_string(),
        token: Some("t".to_string()),
        kind: BridgeEventKind::DepositSeen,
        level: BridgeEventLevel::Info,
        message_id: Some(7),
        amount: None,
        detail: "d".to_string(),
    };
    let first = store.emit(1000, draft.clone());
    let second = store.emit(1001, draft);
    assert_eq!((first.id, first.ts_ms, first.detail.as_str()), (42, 1000, "d"));
    assert_eq!((second.id, second.ts_ms), (43, 1001));
    assert_eq!(second.token.as_deref(), Some("t"));
    assert_eq!(EventStore::open(u64::MAX).next_id, u64::MAX);
    let mut last = EventStore { next_id: u64::MAX };
    let event = last.emit(0, EventDraft {
        route_id: String::new(),
        token: None,
        kind: BridgeEventKind::DepositOk,
        level: BridgeEventLevel::Info,
        message_id: None,
        amount: None,
        detail: String::new(),
    });
    assert_eq!((event.id, last.next_id), (u64::MAX, 0));
}

#[test]
fn events_are_numbered_on_from_the_largest_number() {
    let mut store = EventStore::open(5);
    let ids: Vec<u64> = (0..4)
        .map(|i| {
            let event = store.emit(i, EventDraft {
                route_id: "r".to_string(),
                token: None,
                kind: BridgeEventKind::WithdrawSeen,
                level: BridgeEventLevel::Warn,
                message_id: Some(i),
                amount: Some(2 * i),
                detail: format!("event {i}"),
            });
            assert_eq!((event.ts_ms, event.message_id, event.amount), (i, Some(i), Some(2 * i)));
            assert_eq!(event.detail, format!("event {i}"));
            event.id
        })
        .collect();
    assert_eq!(ids, vec![6, 7, 8, 9]);
}

#[test]
fn pages_are_brought_within_bounds() {
    assert_eq!(EventStore::list_page(0, 0), PageRequest { page: 1, page_size: 1, offset: 0 });
    assert_eq!(
        EventStore::list_page(3, 50),
        PageRequest { page: 3, page_size: 50, offset: 100 }
    );
    assert_eq!(
        EventStore::list_page(u32::MAX, 1000),
        PageRequest { page: u32::MAX, page_size: 200, offset: (u32::MAX as u64 - 1) * 200 }
    );
}

#[test]
fn page_counts() {
    assert_eq!(total_pages(0, 50), 0);
    assert_eq!(total_pages(1, 50), 1);
    assert_eq!(total_pages(50, 50), 1);
    assert_eq!(total_pages(51, 50), 2);
    // Of a count over 32 bits the low ones are kept.
    assert_eq!(total_pages((1 << 32) + 5, 1), 5);
    let page = query_page(EventStore::list_page(2, 10), 25, Vec::new());
    assert_eq!((page.total, page.page, page.page_size, page.total_pages), (25, 2, 10, 3));
    let none = empty_page(4, 20);
    assert_eq!((none.total, none.page, none.page_size, none.total_pages), (0, 4, 20, 0));
    assert!(none.events.is_empty());
}
