//! The stream of deposit logs of an EVM chain.
use std::collections::{HashMap, VecDeque};
use vstd::prelude::*;
use vstd::string::*;
use crate::evm::{saturated, text_of};
use crate::route_state::{EvmLog, LogView};
use crate::text::{
    after_prefix, cat, digits_of, first_replaced, has_prefix, hex_body, hex_number, hex_text_of,
    parse_hex_number, replace_first, same_text, strip_0x, trimmed,
};
use crate::util::BridgeError;

verus! {

broadcast use vstd::std_specs::hash::group_hash_axioms;

/// The WebSocket address for the RPC address of an EVM node.
pub open spec fn ws_url_text(http_rpc: Seq<char>) -> Seq<char> {
    let t = trimmed(http_rpc);
    if has_prefix(t, "ws://"@) || has_prefix(t, "wss://"@) {
        t
    } else if has_prefix(t, "https://"@) {
        "wss://"@ + first_replaced(t.skip("https://"@.len() as int), ":8545"@, ":8546"@)
    } else if has_prefix(t, "http://"@) {
        "ws://"@ + first_replaced(t.skip("http://"@.len() as int), ":8545"@, ":8546"@)
    } else {
        "ws://"@ + t
    }
}

/// The WebSocket address for the RPC address of an EVM node: the scheme is
/// exchanged, and the usual port is moved up by one.
pub fn evm_ws_url(http_rpc: &str) -> (r: String)
    ensures
        r@ == ws_url_text(http_rpc@),
{
    proof {
        reveal_strlit(":8545");
    }
    let trimmed = http_rpc.trim();
    if after_prefix(trimmed, "ws://").is_some() || after_prefix(trimmed, "wss://").is_some() {
        return trimmed.to_owned();
    }
    if let Some(rest) = after_prefix(trimmed, "https://") {
        let ws_host = replace_first(rest, ":8545", ":8546");
        return cat("wss://", ws_host.as_str());
    }
    if let Some(rest) = after_prefix(trimmed, "http://") {
        let ws_host = replace_first(rest, ":8545", ":8546");
        return cat("ws://", ws_host.as_str());
    }
    cat("ws://", trimmed)
}

/// A WebSocket address is left as it is, white space apart.
pub proof fn law_ws_url_is_kept(url: Seq<char>)
    requires
        has_prefix(trimmed(url), "ws://"@) || has_prefix(trimmed(url), "wss://"@),
    ensures
        ws_url_text(url) == trimmed(url),
{
}

/// Reads a number in hexadecimal.
pub fn parse_hex_u64(hex: &str) -> (r: Result<u64, BridgeError>)
    ensures
        r == (match hex_number(hex_body(hex@)) {
            Some(n) => Ok::<u64, BridgeError>(n),
            None => Err::<u64, BridgeError>(BridgeError::Number),
        }),
{
    match parse_hex_number(strip_0x(hex)) {
        Some(n) => Ok(n),
        None => Err(BridgeError::Number),
    }
}

/// The number of the block of a log.
pub open spec fn log_block(log: LogView) -> Option<u64> {
    match log.block_number {
        Some(hex) => hex_number(hex_body(hex)),
        None => None,
    }
}

/// The number of the block of a log.
pub fn log_block_number(log: &EvmLog) -> (r: Option<u64>)
    ensures
        r == log_block(log@),
{
    match &log.block_number {
        Some(hex) => match parse_hex_u64(hex.as_str()) {
            Ok(n) => Some(n),
            Err(_) => None,
        },
        None => None,
    }
}

/// The number of a block as an argument of a call.
pub fn block_param(block: u64) -> (r: String)
    ensures
        r@ == "0x"@ + digits_of(block as nat, 16),
{
    cat("0x", hex_text_of(block).as_str())
}

/// The latest block, as `eth_blockNumber` gave it; the first one where it gave
/// no text.
pub fn latest_block(result: Option<&str>) -> (r: Result<u64, BridgeError>)
    ensures
        result matches Some(hex) ==> r == (match hex_number(hex_body(hex@)) {
            Some(n) => Ok::<u64, BridgeError>(n),
            None => Err::<u64, BridgeError>(BridgeError::Number),
        }),
        result is None ==> r == Ok::<u64, BridgeError>(0),
{
    match result {
        Some(hex) => parse_hex_u64(hex),
        None => Ok(0),
    }
}

/// Whether a block is among some blocks, given by the first and the last.
pub open spec fn in_blocks(blocks: Option<(u64, u64)>, block: u64) -> bool {
    blocks matches Some((first, last)) && first <= block <= last
}

/// The blocks to be read before the stream begins, first and last: from the one
/// after the last that was read, or from the first of the route, up to the last
/// one with enough confirmations.
pub fn catch_up_range(last_scanned: u64, start_block: u64, latest: u64, confirmations: u64) -> (r:
    Option<(u64, u64)>)
    ensures
        ({
            let from = if last_scanned == 0 {
                start_block as int
            } else {
                saturated(last_scanned + 1)
            };
            let safe = if latest >= confirmations {
                latest - confirmations
            } else {
                0
            };
            match r {
                Some((a, b)) => a == from && b == safe && from <= safe,
                None => from > safe,
            }
        }),
        latest >= confirmations && last_scanned < u64::MAX ==> forall|block: u64| #[trigger]
            in_blocks(r, block) == ((if last_scanned == 0 {
                block >= start_block
            } else {
                block > last_scanned
            }) && block + confirmations <= latest),
{
    let safe: u64 = latest.saturating_sub(confirmations);
    let from: u64 = if last_scanned == 0 {
        start_block
    } else {
        last_scanned.saturating_add(1)
    };
    if from <= safe {
        Some((from, safe))
    } else {
        None
    }
}

/// A log that waits for its confirmations.
#[derive(Clone, Debug)]
pub struct QueuedLog {
    pub log: EvmLog,
    pub block: u64,
}

/// The two subscriptions of a route, and the logs that wait.
#[derive(Debug)]
pub struct DepositFeed {
    pub confirmations: u64,
    pub heads_sub: String,
    pub logs_sub: String,
    pub latest_head: u64,
    pub queued: VecDeque<QueuedLog>,
}

/// A [`DepositFeed`] in mathematical terms.
#[verifier::ext_equal]
pub struct FeedView {
    pub confirmations: u64,
    pub heads_sub: Seq<char>,
    pub logs_sub: Seq<char>,
    pub latest_head: u64,
    pub queued: Seq<QueuedLog>,
}

impl View for DepositFeed {
    type V = FeedView;

    open spec fn view(&self) -> FeedView {
        FeedView {
            confirmations: self.confirmations,
            heads_sub: self.heads_sub@,
            logs_sub: self.logs_sub@,
            latest_head: self.latest_head,
            queued: self.queued@,
        }
    }
}

/// What a subscription delivers: read as a block header, and as a log.
#[derive(Clone, Debug)]
pub struct FeedResult {
    pub number: Option<String>,
    pub log: EvmLog,
}

/// A message of the node.
#[derive(Clone, Debug)]
pub struct FeedMessage {
    pub method: Option<String>,
    pub subscription: Option<String>,
    pub result: Option<FeedResult>,
}

/// The subscription that a message belongs to; none where it delivers nothing.
pub open spec fn message_sub(msg: FeedMessage) -> Option<Seq<char>> {
    if text_of(msg.method) != Some("eth_subscription"@) || msg.result is None {
        None
    } else {
        match msg.subscription {
            Some(s) => Some(s@),
            None => Some(Seq::empty()),
        }
    }
}

/// The feed after a message, or the error of a header whose number cannot be
/// read.
pub open spec fn after_message(feed: FeedView, msg: FeedMessage) -> Result<FeedView, BridgeError> {
    match message_sub(msg) {
        None => Ok(feed),
        Some(sub) => if sub == feed.heads_sub {
            match (msg.result->0).number {
                None => Ok(feed),
                Some(hex) => match hex_number(hex_body(hex@)) {
                    Some(n) => Ok(FeedView { latest_head: n, ..feed }),
                    None => Err(BridgeError::Number),
                },
            }
        } else if sub == feed.logs_sub {
            let log = (msg.result->0).log;
            let block = match log_block(log@) {
                Some(b) => b,
                None => feed.latest_head,
            };
            Ok(FeedView { queued: feed.queued.push(QueuedLog { log, block }), ..feed })
        } else {
            Ok(feed)
        },
    }
}

/// Whether the log that came first has its confirmations.
pub open spec fn front_ready(feed: FeedView) -> bool {
    feed.queued.len() > 0 && feed.latest_head >= saturated(
        feed.queued[0].block + feed.confirmations,
    )
}

impl DepositFeed {
    /// The feed of two subscriptions, when the latest block is `latest`.
    pub fn new(confirmations: u64, heads_sub: String, logs_sub: String, latest: u64) -> (r: Self)
        ensures
            r@ == (FeedView {
                confirmations,
                heads_sub: heads_sub@,
                logs_sub: logs_sub@,
                latest_head: latest,
                queued: Seq::empty(),
            }),
    {
        DepositFeed {
            confirmations,
            heads_sub,
            logs_sub,
            latest_head: latest,
            queued: VecDeque::new(),
        }
    }

    /// Takes in a message of the node.
    pub fn on_message(&mut self, msg: FeedMessage) -> (r: Result<(), BridgeError>)
        ensures
            match after_message(old(self)@, msg) {
                Ok(feed) => r is Ok && final(self)@ == feed,
                Err(e) => r == Err::<(), BridgeError>(e) && final(self)@ == old(self)@,
            },
    {
        match &msg.method {
            Some(m) => {
                if !same_text(m.as_str(), "eth_subscription") {
                    return Ok(());
                }
            },
            None => {
                return Ok(());
            },
        }
        let result = match msg.result {
            Some(result) => result,
            None => {
                return Ok(());
            },
        };
        let sub = match msg.subscription {
            Some(s) => s,
            None => String::new(),
        };
        if same_text(sub.as_str(), self.heads_sub.as_str()) {
            if let Some(number) = &result.number {
                match parse_hex_u64(number.as_str()) {
                    Ok(n) => {
                        self.latest_head = n;
                    },
                    Err(e) => {
                        return Err(e);
                    },
                }
            }
        } else if same_text(sub.as_str(), self.logs_sub.as_str()) {
            let block: u64 = match log_block_number(&result.log) {
                Some(b) => b,
                None => self.latest_head,
            };
            self.queued.push_back(QueuedLog { log: result.log, block });
        }
        Ok(())
    }

    /// The next log that has its confirmations, in the order of arrival.
    pub fn next_ready(&mut self) -> (r: Option<QueuedLog>)
        ensures
            match r {
                Some(q) => front_ready(old(self)@) && q == old(self)@.queued[0] && final(self)@ == (
                FeedView { queued: old(self)@.queued.skip(1), ..old(self)@ }),
                None => !front_ready(old(self)@) && final(self)@ == old(self)@,
            },
    {
        if self.queued.len() == 0 {
            return None;
        }
        let block: u64 = self.queued[0].block;
        if self.latest_head < block.saturating_add(self.confirmations) {
            return None;
        }
        let r = self.queued.pop_front();
        assert(self.queued@ =~= old(self).queued@.skip(1));
        r
    }
}

/// A log is handed on only when as many blocks as the route asks for have come
/// after its own.
pub proof fn law_logs_wait_for_confirmations(feed: FeedView)
    requires
        front_ready(feed),
        feed.queued[0].block + feed.confirmations <= u64::MAX,
    ensures
        feed.latest_head - feed.queued[0].block >= feed.confirmations,
{
}

/// No message takes a log out of the queue or changes the order of those in it.
pub proof fn law_messages_keep_the_queue(feed: FeedView, msg: FeedMessage)
    requires
        after_message(feed, msg) is Ok,
    ensures
        feed.queued.len() <= after_message(feed, msg)->Ok_0.queued.len(),
        after_message(feed, msg)->Ok_0.queued.take(feed.queued.len() as int) == feed.queued,
{
    assert(after_message(feed, msg)->Ok_0.queued.take(feed.queued.len() as int) =~= feed.queued);
}

/// The calls that were made over one connection and are not answered.
#[derive(Debug)]
pub struct RpcSession {
    pub next_id: u64,
    pub pending: HashMap<u64, String>,
}

/// A message of the node while an answer is waited for.
#[derive(Clone, Copy, Debug, PartialEq, Eq)]
pub struct RpcMessage {
    pub id: Option<u64>,
    pub error: bool,
    pub result: bool,
}

/// What a message means for the call that is waited for.
#[derive(Clone, Copy, Debug, PartialEq, Eq, Structural)]
pub enum RpcStep {
    /// It is no answer.
    Skip,
    /// It reports an error.
    Error,
    /// It has no result.
    MissingResult,
    /// It has the result.
    Result,
}

impl RpcSession {
    /// A connection without calls. The first one gets the number one.
    pub fn new() -> (r: Self)
        ensures
            r.next_id == 1,
            r.pending@ == Map::<u64, String>::empty(),
    {
        RpcSession { next_id: 1, pending: HashMap::new() }
    }

    /// Numbers a call.
    pub fn ws_call(&mut self, method: &str) -> (id: u64)
        requires
            old(self).next_id < u64::MAX,
        ensures
            id == old(self).next_id,
            final(self).next_id == id + 1,
            final(self).pending@.contains_key(id),
            final(self).pending@[id]@ == method@,
            final(self).pending@ == old(self).pending@.insert(id, final(self).pending@[id]),
    {
        let id: u64 = self.next_id;
        self.next_id = id + 1;
        self.pending.insert(id, method.to_owned());
        id
    }

    /// Reads a message while an answer is waited for: the first one with a
    /// number is the answer.
    pub fn wait_for_result(&mut self, msg: RpcMessage) -> (r: RpcStep)
        ensures
            final(self).next_id == old(self).next_id,
            msg.id is None ==> r == RpcStep::Skip && final(self).pending@ == old(self).pending@,
            msg.id matches Some(id) ==> {
                &&& final(self).pending@ == old(self).pending@.remove(id)
                &&& r == (if msg.error {
                    RpcStep::Error
                } else if msg.result {
                    RpcStep::Result
                } else {
                    RpcStep::MissingResult
                })
            },
    {
        match msg.id {
            None => RpcStep::Skip,
            Some(id) => {
                self.pending.remove(&id);
                if msg.error {
                    RpcStep::Error
                } else if msg.result {
                    RpcStep::Result
                } else {
                    RpcStep::MissingResult
                }
            },
        }
    }
}

} // verus!
