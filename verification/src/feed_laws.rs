//! What holds of what is read from the two chains, and of the payouts on the
//! foreign LightPool chain.
use vstd::prelude::*;
use crate::chain::{
    BridgeWithdrawStatus, ContractAddress, InboundTokenLane, OutboundWithdrawStatus,
};
use crate::codec::{url_normal, url_port, url_with_port, url_with_scheme};
use crate::events::{BridgeEventKind, BridgeEventLevel};
use crate::evm::{processed_text, text_of};
use crate::evm_laws::law_block_numbers_are_read_back;
use crate::evm_ws::{
    after_message, front_ready, log_block, ws_url_text, FeedMessage, FeedView, QueuedLog,
};
use crate::labels::event_token;
use crate::lp_submit::{
    after_reply, lp_due, lp_event, lp_open, refused_for_good, reply_event, settled, LpReply,
};
use crate::lp_ws::{
    all_withdraws, inbound_in_block, inbound_in_events, inbound_withdraw_in, lane_withdraws,
    lp_ws_text, outbound_in_block, outbound_in_events,
    outbound_withdraw_in, TransactionEvent, TransactionOutput, WsUrlError,
};
use crate::route_config::RouteView;
use crate::route_state::{state_lanes, PendingLpDeposit, StateView};
use crate::text::{
    digits_of, first_replaced, has_prefix, hex_body, hex_number, occurs_at, occurs_in, trimmed,
};
use crate::util::{contract_bytes, BridgeError};

verus! {

/// A header moves the feed to its block and touches nothing else.
pub proof fn law_header_moves_the_feed(feed: FeedView, msg: FeedMessage, n: u64)
    requires
        text_of(msg.method) == Some("eth_subscription"@),
        text_of(msg.subscription) == Some(feed.heads_sub),
        msg.result is Some,
        text_of((msg.result->0).number) == Some("0x"@ + digits_of(n as nat, 16)),
    ensures
        after_message(feed, msg) matches Ok(now) && {
            &&& now.latest_head == n
            &&& now.queued == feed.queued
            &&& now.confirmations == feed.confirmations
            &&& now.heads_sub == feed.heads_sub
            &&& now.logs_sub == feed.logs_sub
        },
{
    law_block_numbers_are_read_back(n);
}

/// A header whose number cannot be read is an error; one without a number is
/// passed over.
pub proof fn law_unreadable_header_is_an_error(feed: FeedView, msg: FeedMessage)
    requires
        text_of(msg.method) == Some("eth_subscription"@),
        text_of(msg.subscription) == Some(feed.heads_sub),
        msg.result is Some,
    ensures
        (msg.result->0).number is None ==> after_message(feed, msg) == Ok::<FeedView, BridgeError>(
            feed,
        ),
        (msg.result->0).number matches Some(hex) ==> hex_number(hex_body(hex@)) is None
            ==> after_message(feed, msg) == Err::<FeedView, BridgeError>(BridgeError::Number),
{
}

/// A log joins the queue at its end, with the block that it names, or with the
/// latest one where it names none.
pub proof fn law_log_is_queued_with_its_block(feed: FeedView, msg: FeedMessage, n: u64)
    requires
        text_of(msg.method) == Some("eth_subscription"@),
        text_of(msg.subscription) == Some(feed.logs_sub),
        feed.logs_sub != feed.heads_sub,
        msg.result is Some,
    ensures
        after_message(feed, msg) matches Ok(now) && {
            &&& now.queued.len() == feed.queued.len() + 1
            &&& now.queued.drop_last() == feed.queued
            &&& now.queued.last().log == (msg.result->0).log
            &&& text_of((msg.result->0).log.block_number) == Some("0x"@ + digits_of(n as nat, 16))
                ==> now.queued.last().block == n
            &&& (msg.result->0).log.block_number is None ==> now.queued.last().block
                == feed.latest_head
            &&& now.latest_head == feed.latest_head
            &&& now.confirmations == feed.confirmations
            &&& now.heads_sub == feed.heads_sub
            &&& now.logs_sub == feed.logs_sub
        },
{
    law_block_numbers_are_read_back(n);
    let log = (msg.result->0).log;
    let block = match log_block(log@) {
        Some(b) => b,
        None => feed.latest_head,
    };
    assert(feed.queued.push(QueuedLog { log, block }).drop_last() =~= feed.queued);
}

/// A message that delivers nothing, or for another subscription, changes
/// nothing.
pub proof fn law_other_messages_are_passed_over(feed: FeedView, msg: FeedMessage)
    requires
        text_of(msg.method) != Some("eth_subscription"@) || msg.result is None || (
        msg.subscription matches Some(sub) && sub@ != feed.heads_sub && sub@ != feed.logs_sub),
    ensures
        after_message(feed, msg) == Ok::<FeedView, BridgeError>(feed),
{
}

/// The log that came first is handed on if and only if the latest block is as
/// many blocks after its own as the route asks for.
pub proof fn law_first_log_is_ready_after_its_confirmations(feed: FeedView)
    requires
        feed.queued.len() > 0,
        feed.queued[0].block + feed.confirmations <= u64::MAX,
    ensures
        front_ready(feed) == (feed.latest_head >= feed.queued[0].block + feed.confirmations),
        !front_ready(FeedView { queued: Seq::empty(), ..feed }),
{
}

/// A text is exchanged where it first stands, and nowhere else.
proof fn lemma_first_replaced(a: Seq<char>, from: Seq<char>, to: Seq<char>, b: Seq<char>)
    requires
        from.len() > 0,
        forall|i: int| 0 <= i < a.len() ==> !#[trigger] occurs_at(a + from + b, from, i),
    ensures
        first_replaced(a + from + b, from, to) == a + to + b,
    decreases a.len(),
{
    let s = a + from + b;
    if a.len() == 0 {
        assert(s.take(from.len() as int) =~= from);
        assert(s.skip(from.len() as int) =~= b);
        assert(a + to + b =~= to + b);
    } else {
        let rest = a.drop_first();
        let t = rest + from + b;
        assert(s.drop_first() =~= t);
        assert(!occurs_at(s, from, 0));
        if has_prefix(s, from) {
            assert(s.subrange(0, from.len() as int) =~= s.take(from.len() as int));
        }
        assert forall|i: int| 0 <= i < rest.len() implies !#[trigger] occurs_at(t, from, i) by {
            assert(!occurs_at(s, from, i + 1));
            if occurs_at(t, from, i) {
                assert(s.subrange(i + 1, i + 1 + from.len()) =~= t.subrange(i, i + from.len()));
            }
        }
        lemma_first_replaced(rest, from, to, b);
        assert(seq![s[0]] + (rest + to + b) =~= a + to + b);
    }
}

/// A text in which nothing is to be exchanged stays as it is.
proof fn lemma_nothing_replaced(s: Seq<char>, from: Seq<char>, to: Seq<char>)
    requires
        from.len() > 0,
        !occurs_in(s, from),
    ensures
        first_replaced(s, from, to) == s,
    decreases s.len(),
{
    if has_prefix(s, from) {
        assert(s.subrange(0, from.len() as int) =~= s.take(from.len() as int));
        assert(occurs_at(s, from, 0));
    }
    if s.len() > 0 {
        let rest = s.drop_first();
        if occurs_in(rest, from) {
            let i = choose|i: int| #[trigger] occurs_at(rest, from, i);
            assert(s.subrange(i + 1, i + 1 + from.len()) =~= rest.subrange(i, i + from.len()));
            assert(occurs_at(s, from, i + 1));
        }
        lemma_nothing_replaced(rest, from, to);
        assert(seq![s[0]] + rest =~= s);
    }
}

/// The WebSocket of an EVM node is found at the address of its RPC with the
/// scheme exchanged, and, where the address names the usual port, at the next
/// one.
pub proof fn law_ws_url_moves_the_usual_port(host: Seq<char>, path: Seq<char>, url: Seq<char>)
    requires
        forall|i: int|
            0 <= i < host.len() ==> !#[trigger] occurs_at(host + ":8545"@ + path, ":8545"@, i),
    ensures
        trimmed(url) == "http://"@ + (host + ":8545"@ + path) ==> ws_url_text(url) == "ws://"@ + (
        host + ":8546"@ + path),
        trimmed(url) == "https://"@ + (host + ":8545"@ + path) ==> ws_url_text(url) == "wss://"@ + (
        host + ":8546"@ + path),
{
    lemma_schemes(host + ":8545"@ + path);
    reveal_strlit(":8545");
    lemma_first_replaced(host, ":8545"@, ":8546"@, path);
}

/// An address that names another port, or none, has only its scheme exchanged;
/// one without a scheme gets one.
pub proof fn law_ws_url_keeps_other_ports(rest: Seq<char>, url: Seq<char>)
    requires
        !occurs_in(rest, ":8545"@),
    ensures
        trimmed(url) == "http://"@ + rest ==> ws_url_text(url) == "ws://"@ + rest,
        trimmed(url) == "https://"@ + rest ==> ws_url_text(url) == "wss://"@ + rest,
        !has_prefix(trimmed(url), "ws://"@) && !has_prefix(trimmed(url), "wss://"@) && !has_prefix(
            trimmed(url),
            "http://"@,
        ) && !has_prefix(trimmed(url), "https://"@) ==> ws_url_text(url) == "ws://"@ + trimmed(
            url,
        ),
{
    lemma_schemes(rest);
    reveal_strlit(":8545");
    lemma_nothing_replaced(rest, ":8545"@, ":8546"@);
}

/// The schemes of addresses are told apart.
proof fn lemma_schemes(rest: Seq<char>)
    ensures
        !has_prefix("http://"@ + rest, "ws://"@),
        !has_prefix("http://"@ + rest, "wss://"@),
        !has_prefix("http://"@ + rest, "https://"@),
        has_prefix("http://"@ + rest, "http://"@),
        ("http://"@ + rest).skip("http://"@.len() as int) == rest,
        !has_prefix("https://"@ + rest, "ws://"@),
        !has_prefix("https://"@ + rest, "wss://"@),
        has_prefix("https://"@ + rest, "https://"@),
        ("https://"@ + rest).skip("https://"@.len() as int) == rest,
{
    reveal_strlit("http://");
    reveal_strlit("https://");
    reveal_strlit("ws://");
    reveal_strlit("wss://");
    let h = "http://"@ + rest;
    let t = "https://"@ + rest;
    assert(h.skip(7) =~= rest && t.skip(8) =~= rest);
    assert(h.take(7) =~= "http://"@ && t.take(8) =~= "https://"@);
    if has_prefix(h, "ws://"@) {
        assert(h.take(5)[0] == h[0]);
    }
    if has_prefix(h, "wss://"@) {
        assert(h.take(6)[0] == h[0]);
    }
    if has_prefix(h, "https://"@) {
        assert(h.take(8)[4] == h[4]);
    }
    if has_prefix(t, "ws://"@) {
        assert(t.take(5)[0] == t[0]);
    }
    if has_prefix(t, "wss://"@) {
        assert(t.take(6)[0] == t[0]);
    }
}

/// The WebSocket of a LightPool node is found at the address of its RPC with
/// the scheme exchanged and, where a port is named, a hundred ports further on.
pub proof fn law_lp_ws_url_moves_the_port(
    rpc: Seq<char>,
    url: Seq<char>,
    ws: Seq<char>,
    port: u16,
    moved: Seq<char>,
)
    requires
        url_normal(trimmed(rpc)) == Some(url),
        url_with_scheme(url, "ws"@) == Some(ws),
    ensures
        url_port(ws) is None ==> lp_ws_text(rpc) == Ok::<Seq<char>, WsUrlError>(ws),
        url_port(ws) == Some(port) && port <= 65435 && url_with_port(ws, (port + 100) as u16)
            == Some(moved) ==> lp_ws_text(rpc) == Ok::<Seq<char>, WsUrlError>(moved),
{
}

/// A withdraw on a bridge is read from the event of the call: each field is that
/// of the event, and the withdraw is pending.
pub proof fn law_withdraw_event_is_read(event: TransactionEvent, bridge: ContractAddress)
    requires
        text_of(event.call) == Some("withdraw"@),
        event.contract matches Some(c) && c.bytes@ == bridge.bytes@,
    ensures
        event.outbound matches Some(p) ==> (outbound_withdraw_in(event, bridge) matches Some(w) && {
            &&& w.lane_index == p.lane_index
            &&& w.nonce == p.nonce
            &&& w.sender == p.sender
            &&& w.foreign_recipient == p.foreign_recipient
            &&& w.amount == p.amount
            &&& w.token == p.token
            &&& w.status == OutboundWithdrawStatus::Pending
        }),
        event.inbound matches Some(p) ==> (inbound_withdraw_in(event, bridge) matches Some(w) && {
            &&& w.lane_index == p.lane_index
            &&& w.nonce == p.nonce
            &&& w.sender == p.sender
            &&& w.foreign_recipient == p.foreign_recipient
            &&& w.amount == p.amount
            &&& w.token == p.token
            &&& w.status == BridgeWithdrawStatus::Pending
        }),
        event.outbound is None ==> outbound_withdraw_in(event, bridge) is None,
        event.inbound is None ==> inbound_withdraw_in(event, bridge) is None,
{
}

/// An event of another call, or of another contract, is no withdraw.
pub proof fn law_other_events_are_no_withdraws(event: TransactionEvent, bridge: ContractAddress)
    requires
        text_of(event.call) != Some("withdraw"@) || event.contract is None
            || event.contract->0.bytes@ != bridge.bytes@,
    ensures
        outbound_withdraw_in(event, bridge) is None,
        inbound_withdraw_in(event, bridge) is None,
{
}

/// The withdraws of a block are those of its transactions one after the other,
/// and those of a transaction those of its events; a transaction that failed
/// adds none.
pub proof fn law_blocks_are_read_in_order(
    txs: Seq<TransactionOutput>,
    tx: TransactionOutput,
    events: Seq<TransactionEvent>,
    event: TransactionEvent,
    bridge: ContractAddress,
)
    ensures
        outbound_in_block(Seq::empty(), bridge).len() == 0,
        inbound_in_block(Seq::empty(), bridge).len() == 0,
        outbound_in_events(Seq::empty(), bridge).len() == 0,
        inbound_in_events(Seq::empty(), bridge).len() == 0,
        tx.success ==> outbound_in_block(txs.push(tx), bridge) == outbound_in_block(txs, bridge)
            + outbound_in_events(tx.events@, bridge),
        tx.success ==> inbound_in_block(txs.push(tx), bridge) == inbound_in_block(txs, bridge)
            + inbound_in_events(tx.events@, bridge),
        !tx.success ==> outbound_in_block(txs.push(tx), bridge) == outbound_in_block(txs, bridge),
        !tx.success ==> inbound_in_block(txs.push(tx), bridge) == inbound_in_block(txs, bridge),
        outbound_in_events(events.push(event), bridge) == (match outbound_withdraw_in(
            event,
            bridge,
        ) {
            Some(w) => outbound_in_events(events, bridge).push(w),
            None => outbound_in_events(events, bridge),
        }),
        inbound_in_events(events.push(event), bridge) == (match inbound_withdraw_in(event, bridge) {
            Some(w) => inbound_in_events(events, bridge).push(w),
            None => inbound_in_events(events, bridge),
        }),
{
    assert(txs.push(tx).drop_last() =~= txs);
    assert(events.push(event).drop_last() =~= events);
}

/// The withdraws of a lane are all of that lane.
proof fn lemma_lane_withdraws(lane: InboundTokenLane, first: u64, w: (u32, u64))
    ensures
        lane_withdraws(lane, first).contains(w) == (w.0 == lane.lane_index && first <= w.1
            < lane.next_withdraw_nonce),
    decreases lane.next_withdraw_nonce - first,
{
    if first < lane.next_withdraw_nonce {
        let all = lane_withdraws(lane, first);
        let rest = lane_withdraws(lane, (first + 1) as u64);
        lemma_lane_withdraws(lane, (first + 1) as u64, w);
        assert(all[0] == (lane.lane_index, first));
        if rest.contains(w) {
            let i = rest.index_of(w);
            assert(all[i + 1] == rest[i]);
        }
        if all.contains(w) {
            let i = all.index_of(w);
            if i > 0 {
                assert(rest[i - 1] == all[i]);
            }
        }
    }
}

/// Catching up looks at every withdraw of every lane, from the first to the last
/// that the lane has given out, and at nothing else.
pub proof fn law_catch_up_covers_every_lane(lanes: Seq<InboundTokenLane>, from: nat, w: (u32, u64))
    ensures
        all_withdraws(lanes, from).contains(w) == (exists|l: int|
            from <= l < lanes.len() && (#[trigger] lanes[l]).lane_index == w.0 && 1 <= w.1
                < lanes[l].next_withdraw_nonce),
    decreases lanes.len() - from,
{
    if from < lanes.len() {
        let here = lane_withdraws(lanes[from as int], 1);
        let rest = all_withdraws(lanes, from + 1);
        let all = all_withdraws(lanes, from);
        lemma_lane_withdraws(lanes[from as int], 1, w);
        law_catch_up_covers_every_lane(lanes, from + 1, w);
        if here.contains(w) {
            let i = here.index_of(w);
            assert(all[i] == here[i]);
        }
        if rest.contains(w) {
            let i = rest.index_of(w);
            assert(all[here.len() + i] == rest[i]);
        }
        if all.contains(w) {
            let i = all.index_of(w);
            if i < here.len() {
                assert(here[i] == all[i]);
            } else {
                assert(rest[i - here.len()] == all[i]);
            }
        }
    }
}

/// A payout is due, at the outbound bridge of the route, while it is open and
/// this validator leads; not for another validator, nor on a route to an EVM
/// chain, nor once it is closed.
pub proof fn law_open_payouts_are_due(s: StateView, route: RouteView, nonce: u64, bridge: Seq<u8>)
    requires
        route.foreign is Lightpool,
        contract_bytes(route.foreign->outbound_bridge_contract) == Ok::<Seq<u8>, BridgeError>(
            bridge,
        ),
    ensures
        s.lp.contains_key(nonce) && !s.lp[nonce].submitted && !s.lp[nonce].failed ==> lp_due(
            s,
            route,
            nonce,
            true,
        ) == Ok::<Option<Seq<u8>>, BridgeError>(Some(bridge)),
        !s.lp.contains_key(nonce) || s.lp[nonce].submitted || s.lp[nonce].failed ==> lp_due(
            s,
            route,
            nonce,
            true,
        ) == Ok::<Option<Seq<u8>>, BridgeError>(None),
        lp_due(s, route, nonce, false) == Ok::<Option<Seq<u8>>, BridgeError>(None),
        forall|evm: RouteView|
            evm.foreign is Evm ==> #[trigger] lp_due(s, evm, nonce, true) == Ok::<
                Option<Seq<u8>>,
                BridgeError,
            >(None),
{
}

/// An answer settles a payout by what it says: executed or known to the chain it
/// is submitted, rejected for good it has failed, and else it stays open. What
/// is paid out and the votes for it never change.
pub proof fn law_answers_settle_a_payout(item: PendingLpDeposit, reply: LpReply)
    ensures
        ({
            let now = settled(item, reply);
            &&& now.message == item.message
            &&& now.votes == item.votes
            &&& reply is Executed ==> now.submitted && now.failed == item.failed
            &&& reply matches LpReply::Rejected(d) ==> {
                &&& processed_text(d@) ==> now.submitted && now.failed == item.failed
                &&& !processed_text(d@) && refused_for_good(d@) ==> now.failed && now.submitted
                    == item.submitted
                &&& !processed_text(d@) && !refused_for_good(d@) ==> now == item
            }
            &&& reply matches LpReply::Failed(d) ==> {
                &&& processed_text(d@) ==> now.submitted && now.failed == item.failed
                &&& !processed_text(d@) ==> now == item
            }
        }),
{
}

/// An answer for one payout leaves every other and all else of the state.
pub proof fn law_answer_reaches_its_payout(s: StateView, nonce: u64, reply: LpReply, other: u64)
    ensures
        ({
            let now = after_reply(s, nonce, reply);
            &&& now == (StateView { lp: now.lp, ..s })
            &&& other != nonce ==> now.lp.contains_key(other) == s.lp.contains_key(other)
                && now.lp[other] == s.lp[other]
            &&& s.lp.contains_key(nonce) ==> now.lp.contains_key(nonce) && now.lp[nonce] == settled(
                s.lp[nonce],
                reply,
            )
            &&& !s.lp.contains_key(nonce) ==> now == s
            &&& lp_open(s, nonce) && reply is Executed ==> !lp_open(now, nonce)
        }),
{
}

/// A payout is refused for good wherever the words of such a refusal stand, as
/// they are written.
pub proof fn law_final_refusals_are_known_by_their_words(
    a: Seq<char>,
    m: Seq<char>,
    b: Seq<char>,
    detail: Seq<char>,
)
    requires
        m == "not in authorities"@ || m == "Unauthorized"@ || m == "epoch mismatch"@,
    ensures
        refused_for_good(a + m + b),
        !occurs_in(detail, "not in authorities"@) && !occurs_in(detail, "Unauthorized"@)
            && !occurs_in(detail, "epoch mismatch"@) ==> !refused_for_good(detail),
{
    assert((a + m + b).subrange(a.len() as int, (a.len() + m.len()) as int) =~= m);
    assert(occurs_at(a + m + b, m, a.len() as int));
}

/// An answer is reported for the payout that it is about: success with its
/// amount, a failure with what the chain said. A transaction that did not get
/// through because the chain has the payout already is not reported.
pub proof fn law_answers_are_reported(
    s: StateView,
    route: RouteView,
    nonce: u64,
    amount: u64,
    reply: LpReply,
)
    ensures
        ({
            let said = match reply {
                LpReply::Executed => Seq::empty(),
                LpReply::Rejected(d) => d@,
                LpReply::Failed(d) => d@,
            };
            let known = !(reply is Executed) && processed_text(said);
            &&& (reply_event(s, route, nonce, amount, reply) is None) == (reply is Failed && known)
            &&& reply_event(s, route, nonce, amount, reply) matches Some(e) ==> {
                &&& e.route_id == s.route_id
                &&& e.message_id == Some(nonce)
                &&& e.token == event_token(e.kind, route, state_lanes(s))
                &&& reply is Executed || known ==> e.kind == BridgeEventKind::DepositOk && e.level
                    == BridgeEventLevel::Info && e.amount == Some(amount)
                &&& !(reply is Executed) && !known ==> e.kind == BridgeEventKind::DepositFailed
                    && e.level == BridgeEventLevel::Error && e.amount is None && e.detail == said
                &&& reply is Executed ==> e.detail == "foreign withdraw confirmed"@
                &&& known ==> e.detail == "foreign withdraw already processed"@
            }
        }),
{
}

/// What is reported of a payout names its route and its number.
pub proof fn law_payout_reports_name_the_payout(
    s: StateView,
    route: RouteView,
    nonce: u64,
    kind: BridgeEventKind,
    level: BridgeEventLevel,
    amount: Option<u64>,
    detail: Seq<char>,
)
    ensures
        ({
            let e = lp_event(s, route, nonce, kind, level, amount, detail);
            &&& e.route_id == s.route_id
            &&& e.token == event_token(kind, route, state_lanes(s))
            &&& e.kind == kind
            &&& e.level == level
            &&& e.message_id == Some(nonce)
            &&& e.amount == amount
            &&& e.detail == detail
        }),
{
}

} // verus!
