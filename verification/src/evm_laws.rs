//! What holds of what is sent to the EVM bridge and read from it, byte by byte
//! and character by character.
use vstd::prelude::*;
use vstd::utf8::encode_utf8;
use crate::bytes::{be_value, bytes_le, lemma_be_value_of_bytes, lemma_pow_256};
use crate::chain::{Authority, BridgeWithdrawRecord};
use crate::codec::{
    abi_encoded, abi_head, abi_heads, abi_tail, abi_tails, address_words, be_bytes, hex_encoded,
    keccak, lemma_be_bytes_len, recoverable_signature, uint_words, zeros, AbiView, EthSignError,
};
use crate::deposit_laws::{lemma_low_bytes, lemma_number_topic, lemma_topic_tail};
use crate::evm::{
    address_texts, block_delay, block_number_of, call_number, cast_outcome, committee_text,
    committee_update_hash, committee_update_tokens, finalize_committee_update_args,
    finalize_withdraw_args, in_dispute_text, is_eth_signature, permanent_text, processed_text,
    request_committee_update_args, request_hash, request_text, request_tokens,
    request_withdraw_args, signature_text, signature_texts, stake_texts, stakes_at, stakes_of,
    text_of, withdraw_hash, withdraw_tokens, CastOutput, EthSignature, EvmCommittee,
    EvmDisputeParams, RpcReply,
};
use crate::evm_ws::log_block;
use crate::route_state::{LogView, PendingEvmWithdraw};
use crate::text::{
    all_hex, ascii_lowered, decimal, digits_of, has_prefix, hex_body, hex_digit, hex_number,
    hex_value, joined, occurs_at, occurs_in, trimmed, without_prefixes,
};
use crate::util::{address_text, lemma_address_digits, BridgeError};
use crate::withdraws::{bound_to, is_fresh_withdraw, not_signable};

verus! {

/// One argument more has its head behind the heads and its tail behind the
/// tails of those before it.
proof fn lemma_one_more(ts: Seq<AbiView>, t: AbiView, n: nat)
    ensures
        abi_heads(ts.push(t), n) == abi_heads(ts, n) + abi_head(t, 32 * n + abi_tails(ts).len()),
        abi_tails(ts.push(t)) == abi_tails(ts) + abi_tail(t),
{
    assert(ts.push(t).drop_last() =~= ts);
}

/// A withdraw is named by the hash of five words: its nonce, its sender, its
/// recipient, its amount and the epoch, in this order, numbers and accounts
/// filled up with zeros in front.
pub proof fn law_withdraw_id_is_a_hash_of_words(
    nonce: u64,
    user: Seq<u8>,
    destination: Seq<u8>,
    amount: u64,
    epoch: u64,
)
    ensures
        withdraw_hash(nonce, user, destination, amount, epoch) == keccak(
            be_bytes(nonce as nat, 32) + (zeros(12) + user) + (zeros(12) + destination) + be_bytes(
                amount as nat,
                32,
            ) + be_bytes(epoch as nat, 32),
        ),
{
    let t0 = Seq::<AbiView>::empty();
    let t1 = t0.push(AbiView::Uint(nonce));
    let t2 = t1.push(AbiView::Address(user));
    let t3 = t2.push(AbiView::Address(destination));
    let t4 = t3.push(AbiView::Uint(amount));
    let t5 = t4.push(AbiView::Uint(epoch));
    lemma_one_more(t0, AbiView::Uint(nonce), 5);
    lemma_one_more(t1, AbiView::Address(user), 5);
    lemma_one_more(t2, AbiView::Address(destination), 5);
    lemma_one_more(t3, AbiView::Uint(amount), 5);
    lemma_one_more(t4, AbiView::Uint(epoch), 5);
    assert(t5 =~= withdraw_tokens(nonce, user, destination, amount, epoch));
    assert(abi_encoded(t5) =~= be_bytes(nonce as nat, 32) + (zeros(12) + user) + (zeros(12)
        + destination) + be_bytes(amount as nat, 32) + be_bytes(epoch as nat, 32));
}

/// What is signed to request a withdraw is the hash of ten words: where the
/// name of the request begins, the id, the sender, the recipient, the token, the
/// amount, the nonce, the epoch, and the name with its length in front.
pub proof fn law_request_digest_is_a_hash_of_words(
    id: Seq<u8>,
    user: Seq<u8>,
    destination: Seq<u8>,
    token: Seq<u8>,
    amount: u64,
    nonce: u64,
    epoch: u64,
)
    ensures
        request_hash(id, user, destination, token, amount, nonce, epoch) == keccak(
            be_bytes(256, 32) + id + (zeros(12) + user) + (zeros(12) + destination) + (zeros(12)
                + token) + be_bytes(amount as nat, 32) + be_bytes(nonce as nat, 32) + be_bytes(
                epoch as nat,
                32,
            ) + be_bytes(15, 32) + encode_utf8("requestWithdraw"@) + zeros(17),
        ),
{
    reveal_strlit("requestWithdraw");
    let name = "requestWithdraw"@;
    vstd::utf8::is_ascii_chars_encode_utf8(name);
    let t0 = Seq::<AbiView>::empty();
    let t1 = t0.push(AbiView::Text(name));
    let t2 = t1.push(AbiView::Word(id));
    let t3 = t2.push(AbiView::Address(user));
    let t4 = t3.push(AbiView::Address(destination));
    let t5 = t4.push(AbiView::Address(token));
    let t6 = t5.push(AbiView::Uint(amount));
    let t7 = t6.push(AbiView::Uint(nonce));
    let t8 = t7.push(AbiView::Uint(epoch));
    lemma_one_more(t0, AbiView::Text(name), 8);
    lemma_one_more(t1, AbiView::Word(id), 8);
    lemma_one_more(t2, AbiView::Address(user), 8);
    lemma_one_more(t3, AbiView::Address(destination), 8);
    lemma_one_more(t4, AbiView::Address(token), 8);
    lemma_one_more(t5, AbiView::Uint(amount), 8);
    lemma_one_more(t6, AbiView::Uint(nonce), 8);
    lemma_one_more(t7, AbiView::Uint(epoch), 8);
    assert(t8 =~= request_tokens(id, user, destination, token, amount, nonce, epoch));
    let tail = be_bytes(15, 32) + encode_utf8(name) + zeros(17);
    assert(abi_tail(AbiView::Text(name)) == tail);
    assert(abi_tails(t8) =~= tail);
    assert(abi_encoded(t8) =~= be_bytes(256, 32) + id + (zeros(12) + user) + (zeros(12)
        + destination) + (zeros(12) + token) + be_bytes(amount as nat, 32) + be_bytes(
        nonce as nat,
        32,
    ) + be_bytes(epoch as nat, 32) + be_bytes(15, 32) + encode_utf8(name) + zeros(17));
}

/// What is signed to change the committee is the hash of the epoch, the
/// validators and the stakes of the next one, with the name of the request and
/// the places where the name and the two lists begin.
pub proof fn law_committee_digest_is_a_hash_of_words(next: EvmCommittee)
    ensures
        committee_update_hash(next) == keccak(
            be_bytes(128, 32) + be_bytes(next.epoch as nat, 32) + be_bytes(192, 32) + be_bytes(
                224 + 32 * next.validators@.len(),
                32,
            ) + (be_bytes(22, 32) + encode_utf8("requestCommitteeUpdate"@) + zeros(10)) + (be_bytes(
                next.validators@.len(),
                32,
            ) + address_words(next.validators@)) + (be_bytes(next.stakes@.len(), 32) + uint_words(
                next.stakes@,
            )),
        ),
{
    reveal_strlit("requestCommitteeUpdate");
    let name = "requestCommitteeUpdate"@;
    vstd::utf8::is_ascii_chars_encode_utf8(name);
    let t0 = Seq::<AbiView>::empty();
    let t1 = t0.push(AbiView::Text(name));
    let t2 = t1.push(AbiView::Uint(next.epoch));
    let t3 = t2.push(AbiView::Addresses(next.validators@));
    let t4 = t3.push(AbiView::Uints(next.stakes@));
    lemma_one_more(t0, AbiView::Text(name), 4);
    lemma_one_more(t1, AbiView::Uint(next.epoch), 4);
    lemma_one_more(t2, AbiView::Addresses(next.validators@), 4);
    lemma_one_more(t3, AbiView::Uints(next.stakes@), 4);
    assert(t4 =~= committee_update_tokens(next));
    let named = be_bytes(22, 32) + encode_utf8(name) + zeros(10);
    let listed = be_bytes(next.validators@.len(), 32) + address_words(next.validators@);
    lemma_be_bytes_len(22, 32);
    lemma_be_bytes_len(next.validators@.len(), 32);
    lemma_address_words(next.validators@);
    assert(abi_tail(AbiView::Text(name)) == named);
    assert(abi_tails(t2) =~= named);
    assert(abi_tails(t2).len() == 64);
    assert(abi_tails(t3) =~= named + listed);
    assert(abi_tails(t3).len() == 96 + 32 * next.validators@.len());
    assert(abi_encoded(t4) =~= be_bytes(128, 32) + be_bytes(next.epoch as nat, 32) + be_bytes(
        192,
        32,
    ) + be_bytes(224 + 32 * next.validators@.len(), 32) + named + listed + (be_bytes(
        next.stakes@.len(),
        32,
    ) + uint_words(next.stakes@)));
}

/// A list of addresses has one word for each.
proof fn lemma_address_words(v: Seq<[u8; 20]>)
    ensures
        address_words(v).len() == 32 * v.len(),
    decreases v.len(),
{
    if v.len() > 0 {
        lemma_address_words(v.drop_last());
    }
}

/// A signature of a digest is the one that the key gives for the hash of the
/// digest behind the mark of Ethereum messages: its two halves and, raised by
/// 27, its recovery number. Where the key gives none, there is none.
pub proof fn law_signature_is_of_the_marked_digest(
    r: Result<EthSignature, EthSignError>,
    digest: Seq<u8>,
    secret: Seq<u8>,
)
    requires
        is_eth_signature(r, digest, secret),
        recoverable_signature(
            secret,
            keccak(encode_utf8("\x19Ethereum Signed Message:\n32"@) + digest),
        ) matches Ok((sig, _)) ==> sig.len() == 64,
    ensures
        match r {
            Ok(s) => s.v >= 27 && recoverable_signature(
                secret,
                keccak(encode_utf8("\x19Ethereum Signed Message:\n32"@) + digest),
            ) == Ok::<(Seq<u8>, u8), EthSignError>((s.r@ + s.s@, (s.v - 27) as u8)),
            Err(e) => recoverable_signature(
                secret,
                keccak(encode_utf8("\x19Ethereum Signed Message:\n32"@) + digest),
            ) == Err::<(Seq<u8>, u8), EthSignError>(e),
        },
{
    if let Ok((sig, id)) = recoverable_signature(
        secret,
        keccak(encode_utf8("\x19Ethereum Signed Message:\n32"@) + digest),
    ) {
        assert(sig =~= sig.take(32) + sig.skip(32));
    }
}

/// A withdraw that is named and signed for an epoch carries the hash of its own
/// nonce, sender, recipient and amount and of the epoch, and a signature of that
/// hash with the same values, the token of the lane and the epoch.
pub proof fn law_bound_withdraw_is_signed_as_recorded(
    item: PendingEvmWithdraw,
    foreign_token: Seq<u8>,
    epoch: u64,
    secret: Seq<u8>,
)
    requires
        bound_to(item, foreign_token, epoch, secret),
    ensures
        item.id@ == keccak(
            be_bytes(item.record.nonce as nat, 32) + (zeros(12) + item.record.sender@) + (zeros(12)
                + item.record.foreign_recipient@) + be_bytes(item.record.amount as nat, 32)
                + be_bytes(epoch as nat, 32),
        ),
        is_eth_signature(
            Ok(item.signature),
            keccak(
                be_bytes(256, 32) + item.id@ + (zeros(12) + item.record.sender@) + (zeros(12)
                    + item.record.foreign_recipient@) + (zeros(12) + foreign_token) + be_bytes(
                    item.record.amount as nat,
                    32,
                ) + be_bytes(item.record.nonce as nat, 32) + be_bytes(epoch as nat, 32) + be_bytes(
                    15,
                    32,
                ) + encode_utf8("requestWithdraw"@) + zeros(17),
            ),
            secret,
        ),
{
    let r = item.record;
    law_withdraw_id_is_a_hash_of_words(
        r.nonce,
        r.sender@,
        r.foreign_recipient@,
        r.amount,
        epoch,
    );
    law_request_digest_is_a_hash_of_words(
        item.id@,
        r.sender@,
        r.foreign_recipient@,
        foreign_token,
        r.amount,
        r.nonce,
        epoch,
    );
}

/// The stakes that a list has at an address are in the list.
proof fn lemma_stakes_at(v: Seq<[u8; 20]>, s: Seq<u64>, addr: Seq<u8>, stake: u64)
    requires
        v.len() == s.len(),
    ensures
        stakes_at(v, s, addr).contains(stake) == (exists|i: int|
            0 <= i < v.len() && #[trigger] v[i]@ == addr && s[i] == stake),
    decreases v.len(),
{
    if v.len() > 0 {
        let front = v.drop_last();
        let back = s.drop_last();
        lemma_stakes_at(front, back, addr, stake);
        let rest = stakes_at(front, back, addr);
        let all = stakes_at(v, s, addr);
        if all.contains(stake) {
            let k = all.index_of(stake);
            if k < rest.len() {
                assert(rest[k] == stake);
                let i = choose|i: int|
                    0 <= i < front.len() && #[trigger] front[i]@ == addr && back[i] == stake;
                assert(v[i]@ == addr && s[i] == stake);
            } else {
                assert(v[v.len() - 1]@ == addr && s[v.len() - 1] == stake);
            }
        }
        if exists|i: int| 0 <= i < v.len() && #[trigger] v[i]@ == addr && s[i] == stake {
            let i = choose|i: int| 0 <= i < v.len() && #[trigger] v[i]@ == addr && s[i] == stake;
            if i < front.len() {
                assert(front[i]@ == addr && back[i] == stake);
                let k = rest.index_of(stake);
                assert(all[k] == stake);
            } else {
                assert(all[all.len() - 1] == stake);
            }
        }
    }
}

/// The stakes that validators have at an address are theirs.
proof fn lemma_stakes_of(members: Seq<Authority>, staked: bool, addr: Seq<u8>, stake: u64)
    ensures
        stakes_of(members, staked, addr).contains(stake) == (exists|i: int|
            0 <= i < members.len() && (#[trigger] members[i]).eth_address@ == addr
                && members[i].stake == stake && (staked ==> stake > 0)),
    decreases members.len(),
{
    if members.len() > 0 {
        let front = members.drop_last();
        lemma_stakes_of(front, staked, addr, stake);
        let rest = stakes_of(front, staked, addr);
        let all = stakes_of(members, staked, addr);
        if all.contains(stake) {
            let k = all.index_of(stake);
            if k < rest.len() {
                assert(rest[k] == stake);
                let i = choose|i: int|
                    0 <= i < front.len() && (#[trigger] front[i]).eth_address@ == addr
                        && front[i].stake == stake && (staked ==> stake > 0);
                assert(members[i] == front[i]);
            } else {
                assert(members[members.len() - 1] == members.last());
            }
        }
        if exists|i: int|
            0 <= i < members.len() && (#[trigger] members[i]).eth_address@ == addr
                && members[i].stake == stake && (staked ==> stake > 0) {
            let i = choose|i: int|
                0 <= i < members.len() && (#[trigger] members[i]).eth_address@ == addr
                    && members[i].stake == stake && (staked ==> stake > 0);
            if i < front.len() {
                assert(front[i] == members[i]);
                let k = rest.index_of(stake);
                assert(all[k] == stake);
            } else {
                assert(all[all.len() - 1] == stake);
            }
        }
    }
}

/// The committee that the EVM bridge is told of lists every validator with its
/// stake under its address, those without stake aside where only voters count,
/// and lists nobody else.
pub proof fn law_committee_lists_the_validators(
    committee: EvmCommittee,
    members: Seq<Authority>,
    staked: bool,
    addr: [u8; 20],
    stake: u64,
)
    requires
        committee.holds(members, staked),
    ensures
        (exists|i: int|
            0 <= i < committee.validators@.len() && #[trigger] committee.validators@[i]@ == addr@
                && committee.stakes@[i] == stake) == (exists|k: int|
            0 <= k < members.len() && (#[trigger] members[k]).eth_address@ == addr@
                && members[k].stake == stake && (staked ==> stake > 0)),
        committee.validators@.len() == committee.stakes@.len(),
{
    lemma_stakes_at(committee.validators@, committee.stakes@, addr@, stake);
    lemma_stakes_of(members, staked, addr@, stake);
    assert(stakes_at(committee.validators@, committee.stakes@, addr@) == stakes_of(
        members,
        staked,
        addr@,
    ));
}

/// Addresses are ordered by the first byte in which they differ.
pub proof fn law_first_difference_decides(a: Seq<u8>, b: Seq<u8>, i: int)
    requires
        0 <= i < a.len(),
        i < b.len(),
        a.take(i) == b.take(i),
        a[i] < b[i],
    ensures
        bytes_le(a, b),
        !bytes_le(b, a),
    decreases i,
{
    if i > 0 {
        assert(a.take(i)[0] == a[0]);
        assert(b.take(i)[0] == b[0]);
        assert(a.drop_first().take(i - 1) =~= a.take(i).drop_first());
        assert(b.drop_first().take(i - 1) =~= b.take(i).drop_first());
        law_first_difference_decides(a.drop_first(), b.drop_first(), i - 1);
    }
}

/// The arguments of a request name the id, the sender, the recipient, the
/// foreign token, the amount, the nonce and the epoch, in this order.
pub proof fn law_request_text_names_the_withdraw(
    id: Seq<u8>,
    record: BridgeWithdrawRecord,
    foreign_token: Seq<u8>,
    epoch: u64,
)
    ensures
        request_text(id, record, foreign_token, epoch) == "("@ + ("0x"@ + hex_encoded(id)) + ","@
            + ("0x"@ + hex_encoded(record.sender@)) + ","@ + ("0x"@ + hex_encoded(
            record.foreign_recipient@,
        )) + ","@ + ("0x"@ + hex_encoded(foreign_token)) + ","@ + decimal(record.amount as nat)
            + ","@ + decimal(record.nonce as nat) + ","@ + decimal(epoch as nat) + ")"@,
{
    let p1 = seq![address_text(id)];
    let p2 = p1.push(address_text(record.sender@));
    let p3 = p2.push(address_text(record.foreign_recipient@));
    let p4 = p3.push(address_text(foreign_token));
    let p5 = p4.push(decimal(record.amount as nat));
    let p6 = p5.push(decimal(record.nonce as nat));
    let p7 = p6.push(decimal(epoch as nat));
    lemma_joined_push(p1, p2.last());
    lemma_joined_push(p2, p3.last());
    lemma_joined_push(p3, p4.last());
    lemma_joined_push(p4, p5.last());
    lemma_joined_push(p5, p6.last());
    lemma_joined_push(p6, p7.last());
    assert(p7 =~= seq![
        address_text(id),
        address_text(record.sender@),
        address_text(record.foreign_recipient@),
        address_text(foreign_token),
        decimal(record.amount as nat),
        decimal(record.nonce as nat),
        decimal(epoch as nat),
    ]);
    assert(request_text(id, record, foreign_token, epoch) =~= "("@ + ("0x"@ + hex_encoded(id))
        + ","@ + ("0x"@ + hex_encoded(record.sender@)) + ","@ + ("0x"@ + hex_encoded(
        record.foreign_recipient@,
    )) + ","@ + ("0x"@ + hex_encoded(foreign_token)) + ","@ + decimal(record.amount as nat) + ","@
        + decimal(record.nonce as nat) + ","@ + decimal(epoch as nat) + ")"@);
}

/// One text more stands behind a comma.
proof fn lemma_joined_push(parts: Seq<Seq<char>>, part: Seq<char>)
    requires
        parts.len() > 0,
    ensures
        joined(parts.push(part), ","@) == joined(parts, ","@) + ","@ + part,
{
    assert(parts.push(part).drop_last() =~= parts);
}

/// A signature is written as its recovery number and its two halves.
pub proof fn law_signature_text_names_its_parts(s: EthSignature)
    ensures
        signature_text(s) == "("@ + decimal(s.v as nat) + ","@ + ("0x"@ + hex_encoded(s.r@)) + ","@
            + ("0x"@ + hex_encoded(s.s@)) + ")"@,
{
    let p1 = seq![decimal(s.v as nat)];
    let p2 = p1.push(address_text(s.r@));
    let p3 = p2.push(address_text(s.s@));
    lemma_joined_push(p1, p2.last());
    lemma_joined_push(p2, p3.last());
    assert(p3 =~= seq![
        decimal(s.v as nat),
        address_text(s.r@),
        address_text(s.s@),
    ]);
    assert(signature_text(s) =~= "("@ + decimal(s.v as nat) + ","@ + ("0x"@ + hex_encoded(s.r@))
        + ","@ + ("0x"@ + hex_encoded(s.s@)) + ")"@);
}

/// A committee is written as its epoch, the list of its addresses and the list
/// of its stakes.
pub proof fn law_committee_text_lists_its_members(c: EvmCommittee)
    ensures
        committee_text(c) == "("@ + decimal(c.epoch as nat) + ",["@ + joined(
            Seq::new(c.validators@.len(), |i: int| "0x"@ + hex_encoded(c.validators@[i]@)),
            ","@,
        ) + "],["@ + joined(
            Seq::new(c.stakes@.len(), |i: int| decimal(c.stakes@[i] as nat)),
            ","@,
        ) + "])"@,
{
    let addresses = Seq::new(
        c.validators@.len(),
        |i: int| "0x"@ + hex_encoded(c.validators@[i]@),
    );
    let stakes = Seq::new(c.stakes@.len(), |i: int| decimal(c.stakes@[i] as nat));
    assert(address_texts(c.validators@) =~= addresses);
    assert(stake_texts(c.stakes@) =~= stakes);
    let v = joined(addresses, ","@);
    let s = joined(stakes, ","@);
    let p1 = seq![decimal(c.epoch as nat)];
    let p2 = p1.push("["@ + v + "]"@);
    let p3 = p2.push("["@ + s + "]"@);
    lemma_joined_push(p1, p2.last());
    lemma_joined_push(p2, p3.last());
    assert(p3 =~= seq![decimal(c.epoch as nat), "["@ + v + "]"@, "["@ + s + "]"@]);
    reveal_strlit("(");
    reveal_strlit(")");
    reveal_strlit("[");
    reveal_strlit("]");
    reveal_strlit(",");
    reveal_strlit(",[");
    reveal_strlit("],[");
    reveal_strlit("])");
    assert(committee_text(c) =~= "("@ + decimal(c.epoch as nat) + ",["@ + v + "],["@ + s + "])"@);
}

/// Whether a call goes to a bridge over an RPC address, signed with a key.
pub open spec fn goes_to(
    args: Seq<Seq<char>>,
    rpc: Seq<char>,
    key: Seq<char>,
    bridge: Seq<char>,
) -> bool {
    let n = args.len() as int;
    &&& n >= 8
    &&& args[0] == "send"@
    &&& args[1] == bridge
    &&& args[n - 5] == "--rpc-url"@
    &&& args[n - 4] == rpc
    &&& args[n - 3] == "--private-key"@
    &&& args[n - 2] == key
    &&& args[n - 1] == "--json"@
}

/// A call of the bridge goes to its address over the RPC address of the route,
/// signed with the validator's key: each stands behind the option that names it.
pub proof fn law_calls_go_to_the_bridge(
    rpc: Seq<char>,
    key: Seq<char>,
    bridge: Seq<char>,
    request: Seq<char>,
    committee: EvmCommittee,
    next: EvmCommittee,
    signatures: Seq<EthSignature>,
    id: Seq<u8>,
)
    ensures
        ({
            let asked = request_withdraw_args(rpc, key, bridge, request, committee, signatures);
            let settled = finalize_withdraw_args(rpc, key, bridge, id);
            let changing = request_committee_update_args(
                rpc,
                key,
                bridge,
                next,
                committee,
                signatures,
            );
            let changed = finalize_committee_update_args(rpc, key, bridge);
            &&& goes_to(asked, rpc, key, bridge)
            &&& goes_to(settled, rpc, key, bridge)
            &&& goes_to(changing, rpc, key, bridge)
            &&& goes_to(changed, rpc, key, bridge)
            &&& asked[3] == request
            &&& asked[4] == committee_text(committee)
            &&& asked[5] == "["@ + joined(
                Seq::new(signatures.len(), |i: int| signature_text(signatures[i])),
                ","@,
            ) + "]"@
            &&& changing[5] == asked[5]
            &&& changing[3] == committee_text(next)
            &&& changing[4] == committee_text(committee)
            &&& settled[3] == "0x"@ + hex_encoded(id)
            &&& asked[2]
                == "requestWithdraw((bytes32,address,address,address,uint64,uint64,uint64),(uint64,address[],uint64[]),(uint8,bytes32,bytes32)[])"@
            &&& settled[2] == "finalizeWithdraw(bytes32)"@
            &&& changing[2]
                == "requestCommitteeUpdate((uint64,address[],uint64[]),(uint64,address[],uint64[]),(uint8,bytes32,bytes32)[])"@
            &&& changed[2] == "finalizeCommitteeUpdate()"@
        }),
{
    assert(signature_texts(signatures) =~= Seq::new(
        signatures.len(),
        |i: int| signature_text(signatures[i]),
    ));
}

/// The hexadecimal digits of a number write the number.
proof fn lemma_hex_digits(n: nat)
    ensures
        hex_value(digits_of(n, 16)) == n,
        all_hex(digits_of(n, 16)),
        digits_of(n, 16).len() > 0,
    decreases n,
{
    let t = digits_of(n, 16);
    if n < 16 {
        assert(t.drop_last() =~= Seq::<char>::empty());
        assert(hex_value(t.drop_last()) == 0);
        assert(hex_digit(t.last()) == Some(n));
    } else {
        lemma_hex_digits(n / 16);
        assert(t.drop_last() =~= digits_of(n / 16, 16));
        assert(hex_digit(t.last()) == Some(n % 16));
        assert forall|i: int| 0 <= i < t.len() implies hex_digit(#[trigger] t[i]) is Some by {
            if i < t.len() - 1 {
                assert(t[i] == digits_of(n / 16, 16)[i]);
            }
        }
    }
}

/// The digits behind the mark of a number are those of the number.
proof fn lemma_number_body(n: u64)
    ensures
        hex_body("0x"@ + digits_of(n as nat, 16)) == digits_of(n as nat, 16),
        hex_number(digits_of(n as nat, 16)) == Some(n),
{
    reveal_strlit("0x");
    let d = digits_of(n as nat, 16);
    let t = "0x"@ + d;
    lemma_hex_digits(n as nat);
    assert(hex_digit(d[0]) is Some);
    assert(t.take(2) =~= "0x"@);
    assert(t.skip(2) =~= d);
    assert(!has_prefix(d, "0x"@)) by {
        if has_prefix(d, "0x"@) {
            assert(d[1] == d.take(2)[1]);
            assert(hex_digit(d[1]) is Some);
        }
    }
    assert(without_prefixes(d, "0x"@) == d);
    assert(without_prefixes(t, "0x"@) == without_prefixes(t.skip(2), "0x"@));
}

/// The number of a block is read back from the text that names it: as the reply
/// to a call, in a log, and as the number of a header.
pub proof fn law_block_numbers_are_read_back(n: u64)
    ensures
        block_number_of(Some("0x"@ + digits_of(n as nat, 16))) == Ok::<u64, BridgeError>(n),
        hex_number(hex_body("0x"@ + digits_of(n as nat, 16))) == Some(n),
        forall|log: LogView|
            log.block_number == Some("0x"@ + digits_of(n as nat, 16))
                ==> #[trigger] log_block(log) == Some(n),
{
    lemma_number_body(n);
}

/// A number that the bridge returns in a word is read from the last eight bytes
/// of the word; a number of 64 bits is read back whole.
pub proof fn law_call_results_are_read_back(reply: RpcReply, word: Seq<u8>, n: u64)
    requires
        !reply.error,
        word.len() == 32,
        text_of(reply.result) == Some("0x"@ + hex_encoded(word)),
    ensures
        call_number(reply) == Ok::<u64, BridgeError>(be_value(word.skip(24)) as u64),
        word == be_bytes(n as nat, 32) ==> call_number(reply) == Ok::<u64, BridgeError>(n),
{
    lemma_number_topic(word);
    lemma_address_digits(word);
    lemma_topic_tail(word, 24);
    lemma_low_bytes(n as nat, 24, 8);
    lemma_pow_256();
    lemma_be_value_of_bytes(n as nat, 8);
}

/// A reply that reports an error gives no number, nor does one without a result.
pub proof fn law_failed_calls_give_no_number(reply: RpcReply)
    ensures
        reply.error ==> call_number(reply) == Err::<u64, BridgeError>(BridgeError::Rpc),
        !reply.error && reply.result is None ==> call_number(reply) == Err::<u64, BridgeError>(
            BridgeError::MissingResult,
        ),
        block_number_of(None) == Err::<u64, BridgeError>(BridgeError::MissingResult),
{
}

/// The delay of a finalization is the least that covers the confirmations, at
/// least one block and, on a chain whose blocks take no time, a block for each
/// second of the dispute period and one more.
pub proof fn law_delay_without_block_time(period_seconds: u64, confirmations: u64)
    requires
        period_seconds < u64::MAX,
    ensures
        ({
            let params = EvmDisputeParams { period_seconds, block_duration_millis: 0 };
            let delay = block_delay(params, confirmations);
            &&& delay > period_seconds
            &&& delay >= confirmations
            &&& delay >= 1
            &&& delay == confirmations || delay == period_seconds + 1
        }),
{
}

/// A mark is found in a text in which it stands, in letters of either case.
proof fn lemma_mark_occurs(a: Seq<char>, m: Seq<char>, b: Seq<char>)
    ensures
        occurs_in(ascii_lowered(a + m + b), ascii_lowered(m)),
{
    let t = ascii_lowered(a + m + b);
    assert(t.subrange(a.len() as int, (a.len() + m.len()) as int) =~= ascii_lowered(m));
    assert(occurs_at(t, ascii_lowered(m), a.len() as int));
}

/// An error is taken for what it says wherever in it the words stand, and in
/// whatever case they are written.
pub proof fn law_errors_are_known_by_their_words(a: Seq<char>, m: Seq<char>, b: Seq<char>)
    ensures
        ascii_lowered(m) == "already processed"@ ==> processed_text(a + m + b),
        ascii_lowered(m) == "alreadyprocessed"@ ==> processed_text(a + m + b),
        ascii_lowered(m) == "0x57eee766"@ ==> processed_text(a + m + b),
        ascii_lowered(m) == "stillindispute"@ ==> in_dispute_text(a + m + b),
        ascii_lowered(m) == "0x2d3666c9"@ ==> in_dispute_text(a + m + b),
        ascii_lowered(m) == "not in authorities"@ ==> permanent_text(a + m + b),
        ascii_lowered(m) == "unauthorized"@ ==> permanent_text(a + m + b),
{
    lemma_mark_occurs(a, m, b);
}

/// An error in which none of the words stands is not taken for what they say.
pub proof fn law_other_errors_are_not_known(detail: Seq<char>)
    ensures
        !occurs_in(ascii_lowered(detail), "already processed"@) && !occurs_in(
            ascii_lowered(detail),
            "alreadyprocessed"@,
        ) && !occurs_in(ascii_lowered(detail), "0x57eee766"@) ==> !processed_text(detail),
        !occurs_in(ascii_lowered(detail), "stillindispute"@) && !occurs_in(
            ascii_lowered(detail),
            "0x2d3666c9"@,
        ) ==> !in_dispute_text(detail),
        !occurs_in(ascii_lowered(detail), "not in authorities"@) && !occurs_in(
            ascii_lowered(detail),
            "unauthorized"@,
        ) ==> !permanent_text(detail),
{
}

/// A withdraw that has just been queued is as recorded, named and signed for the
/// epoch, and nothing has been done for it.
pub proof fn law_queued_withdraw_is_fresh(
    item: PendingEvmWithdraw,
    record: BridgeWithdrawRecord,
    foreign_token: Seq<u8>,
    epoch: u64,
    secret: Seq<u8>,
)
    requires
        is_fresh_withdraw(item, record, foreign_token, epoch, secret),
    ensures
        item.record == record,
        bound_to(item, foreign_token, epoch, secret),
        !item.requested,
        !item.finalized,
        !item.failed,
        item.requested_block is None,
        item.requested_at_ms is None,
{
}

/// A withdraw cannot be signed only where the key gives no signature for what
/// would be signed.
pub proof fn law_unsignable_withdraw_has_no_signature(
    r: BridgeWithdrawRecord,
    foreign_token: Seq<u8>,
    epoch: u64,
    secret: Seq<u8>,
    e: EthSignError,
)
    requires
        not_signable(r, foreign_token, epoch, secret, e),
    ensures
        ({
            let id = keccak(
                be_bytes(r.nonce as nat, 32) + (zeros(12) + r.sender@) + (zeros(12)
                    + r.foreign_recipient@) + be_bytes(r.amount as nat, 32) + be_bytes(
                    epoch as nat,
                    32,
                ),
            );
            let digest = keccak(
                be_bytes(256, 32) + id + (zeros(12) + r.sender@) + (zeros(12)
                    + r.foreign_recipient@) + (zeros(12) + foreign_token) + be_bytes(
                    r.amount as nat,
                    32,
                ) + be_bytes(r.nonce as nat, 32) + be_bytes(epoch as nat, 32) + be_bytes(15, 32)
                    + encode_utf8("requestWithdraw"@) + zeros(17),
            );
            recoverable_signature(
                secret,
                keccak(encode_utf8("\x19Ethereum Signed Message:\n32"@) + digest),
            ) == Err::<(Seq<u8>, u8), EthSignError>(e)
        }),
{
    law_withdraw_id_is_a_hash_of_words(
        r.nonce,
        r.sender@,
        r.foreign_recipient@,
        r.amount,
        epoch,
    );
    law_request_digest_is_a_hash_of_words(
        withdraw_hash(r.nonce, r.sender@, r.foreign_recipient@, r.amount, epoch),
        r.sender@,
        r.foreign_recipient@,
        foreign_token,
        r.amount,
        r.nonce,
        epoch,
    );
}

/// A call that succeeded gives what it printed, white space around it aside; one
/// that failed or did not start gives an error that names the function, with
/// what it printed of it.
pub proof fn law_calls_give_what_they_print(function: Seq<char>, output: CastOutput)
    ensures
        cast_outcome(function, output) is Ok == (output is Succeeded),
        output matches CastOutput::Succeeded(text) ==> cast_outcome(function, output) == Ok::<
            Seq<char>,
            Seq<char>,
        >(trimmed(text@)),
        output matches CastOutput::Failed(text) ==> cast_outcome(function, output) == Err::<
            Seq<char>,
            Seq<char>,
        >("cast "@ + function + " failed: "@ + text@),
        output is NotStarted ==> cast_outcome(function, output) == Err::<Seq<char>, Seq<char>>(
            "failed to spawn cast for "@ + function,
        ),
{
}

} // verus!
