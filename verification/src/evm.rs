//! The EVM side of the bridge: committees, digests, signatures and the calls
//! that are made with `cast`.
use vstd::prelude::*;
use vstd::slice::slice_subrange;
use vstd::string::*;
use vstd::utf8::encode_utf8;
use crate::bytes::{address_le, array_32, bytes_le, push_all};
use crate::chain::{Authority, BridgeWithdrawRecord, Committee};
use crate::codec::{
    abi_encode, abi_encoded, abi_heads, abi_tails, abi_views, address_words, base64_decode,
    be_bytes, hex_encode, keccak, keccak256, lemma_be_bytes_len, recoverable_signature,
    sign_prehash, uint_words, zeros, AbiToken, AbiView, EthSignError, ABI_LIMIT,
};
use crate::config::SecretKey;
use crate::text::{
    cat, cat3, contains_text, decimal, decimal_text, hex_body, hex_number, join, joined,
    occurs_in, parse_hex_number, strip_0x, texts, trimmed,
};
use crate::util::{address_text, tail_bytes, tail_is_text, text_tail, BridgeError};

verus! {

/// An Ethereum signature.
#[derive(Clone, Copy, Debug, PartialEq, Eq)]
pub struct EthSignature {
    pub v: u8,
    pub r: [u8; 32],
    pub s: [u8; 32],
}

/// A committee as the EVM bridge knows it: the addresses in ascending order,
/// each with the stake at the same place.
#[derive(Clone, Debug, PartialEq, Eq)]
pub struct EvmCommittee {
    pub epoch: u64,
    pub validators: Vec<[u8; 20]>,
    pub stakes: Vec<u64>,
}

/// The stakes of an address in a committee, in order.
pub open spec fn stakes_at(validators: Seq<[u8; 20]>, stakes: Seq<u64>, addr: Seq<u8>) -> Seq<u64>
    decreases validators.len(),
{
    if validators.len() == 0 || stakes.len() == 0 {
        Seq::empty()
    } else {
        let rest = stakes_at(validators.drop_last(), stakes.drop_last(), addr);
        if validators.last()@ == addr {
            rest.push(stakes.last())
        } else {
            rest
        }
    }
}

/// The stakes of an address among some validators, in order, those without
/// stake left out if `staked` is set.
pub open spec fn stakes_of(members: Seq<Authority>, staked: bool, addr: Seq<u8>) -> Seq<u64>
    decreases members.len(),
{
    if members.len() == 0 {
        Seq::empty()
    } else {
        let rest = stakes_of(members.drop_last(), staked, addr);
        let m = members.last();
        if m.eth_address@ == addr && (staked ==> m.stake > 0) {
            rest.push(m.stake)
        } else {
            rest
        }
    }
}

/// Whether the addresses are in ascending order.
pub open spec fn ascending(validators: Seq<[u8; 20]>) -> bool {
    forall|i: int, j: int|
        0 <= i <= j < validators.len() ==> bytes_le(
            #[trigger] validators[i]@,
            #[trigger] validators[j]@,
        )
}

impl EvmCommittee {
    /// Whether addresses and stakes are paired and in ascending order.
    pub open spec fn wf(self) -> bool {
        self.validators@.len() == self.stakes@.len() && ascending(self.validators@)
    }

    /// Whether this is what the validators `members` come to.
    pub open spec fn holds(self, members: Seq<Authority>, staked: bool) -> bool {
        &&& self.wf()
        &&& forall|addr: Seq<u8>| #[trigger]
            stakes_at(self.validators@, self.stakes@, addr) == stakes_of(members, staked, addr)
    }

    /// The committee without members.
    pub fn empty(epoch: u64) -> (r: Self)
        ensures
            r.epoch == epoch,
            r.validators@.len() == 0,
            r.stakes@.len() == 0,
            r.wf(),
    {
        EvmCommittee { epoch, validators: Vec::new(), stakes: Vec::new() }
    }

    /// The same members in another epoch.
    pub fn with_epoch(&self, epoch: u64) -> (r: Self)
        ensures
            r.epoch == epoch,
            r.validators@ == self.validators@,
            r.stakes@ == self.stakes@,
    {
        let mut validators: Vec<[u8; 20]> = Vec::new();
        let mut i: usize = 0;
        while i < self.validators.len()
            invariant
                i <= self.validators.len(),
                validators@ == self.validators@.take(i as int),
            decreases self.validators.len() - i,
        {
            validators.push(self.validators[i]);
            i += 1;
            assert(self.validators@.take(i as int) =~= self.validators@.take(i - 1).push(
                self.validators@[i - 1],
            ));
        }
        assert(self.validators@.take(i as int) =~= self.validators@);
        EvmCommittee { epoch, validators, stakes: self.stakes.clone() }
    }

    /// Puts a validator behind all those whose address does not come after its
    /// own.
    fn add_member(&mut self, addr: [u8; 20], stake: u64)
        requires
            old(self).wf(),
        ensures
            final(self).wf(),
            final(self).epoch == old(self).epoch,
            forall|a: Seq<u8>| #[trigger]
                stakes_at(final(self).validators@, final(self).stakes@, a) == (if a == addr@ {
                    stakes_at(old(self).validators@, old(self).stakes@, a).push(stake)
                } else {
                    stakes_at(old(self).validators@, old(self).stakes@, a)
                }),
    {
        let ghost v = self.validators@;
        let ghost s = self.stakes@;
        let mut at: usize = self.validators.len();
        while at > 0 && !address_le(&self.validators[at - 1], &addr)
            invariant
                at <= self.validators@.len(),
                self.validators@ == v,
                forall|j: int| at <= j < v.len() ==> !bytes_le(#[trigger] v[j]@, addr@),
            decreases at,
        {
            at -= 1;
        }
        self.validators.insert(at, addr);
        self.stakes.insert(at, stake);
        proof {
            assert forall|i: int| 0 <= i < at implies bytes_le(#[trigger] v[i]@, addr@) by {
                assert(bytes_le(v[i]@, v[at - 1]@));
                lemma_bytes_le_transitive(v[i]@, v[at - 1]@, addr@);
            }
            assert forall|j: int| at <= j < v.len() implies bytes_le(addr@, #[trigger] v[j]@) by {
                lemma_bytes_le_total(v[j]@, addr@);
            }
            lemma_bytes_le_total(addr@, addr@);
            assert forall|i: int, j: int| 0 <= i <= j < self.validators@.len() implies bytes_le(
                #[trigger] self.validators@[i]@,
                #[trigger] self.validators@[j]@,
            ) by {
                let w = self.validators@;
                assert(i < at ==> w[i] == v[i]);
                assert(i > at ==> w[i] == v[i - 1]);
                assert(j < at ==> w[j] == v[j]);
                assert(j > at ==> w[j] == v[j - 1]);
            }
            assert forall|a: Seq<u8>| #[trigger]
                stakes_at(self.validators@, self.stakes@, a) == (if a == addr@ {
                    stakes_at(v, s, a).push(stake)
                } else {
                    stakes_at(v, s, a)
                }) by {
                lemma_stakes_at_insert(v, s, at as int, addr, stake, a);
            }
        }
    }

    /// The committee of some validators, with or without those of no stake.
    fn of_members(epoch: u64, members: &Vec<Authority>, staked: bool) -> (r: Self)
        ensures
            r.epoch == epoch,
            r.holds(members@, staked),
    {
        let mut out = EvmCommittee::empty(epoch);
        let mut i: usize = 0;
        assert(members@.take(0) =~= Seq::<Authority>::empty());
        while i < members.len()
            invariant
                i <= members.len(),
                out.epoch == epoch,
                out.holds(members@.take(i as int), staked),
            decreases members.len() - i,
        {
            let ghost before = members@.take(i as int);
            let ghost was = out;
            if !staked || members[i].stake > 0 {
                out.add_member(members[i].eth_address, members[i].stake);
            }
            i += 1;
            proof {
                let now = members@.take(i as int);
                assert(now.drop_last() =~= before);
                assert(now.last() == members@[i - 1]);
                assert forall|a: Seq<u8>| #[trigger]
                    stakes_at(out.validators@, out.stakes@, a) == stakes_of(now, staked, a) by {
                    assert(stakes_at(was.validators@, was.stakes@, a) == stakes_of(
                        before,
                        staked,
                        a,
                    ));
                }
            }
        }
        assert(members@.take(i as int) =~= members@);
        out
    }

    /// The committee of all validators in a list.
    pub fn from_authorities(epoch: u64, authorities: &Vec<Authority>) -> (r: Self)
        ensures
            r.epoch == epoch,
            r.holds(authorities@, false),
    {
        EvmCommittee::of_members(epoch, authorities, false)
    }

    /// The committee of the validators with stake. The epoch keeps its low 64
    /// bits.
    pub fn from_validator_committee(committee: &Committee) -> (r: Self)
        ensures
            r.epoch == committee.epoch as u64,
            r.holds(committee.members@, true),
    {
        #[verifier::truncate]
        let epoch: u64 = committee.epoch as u64;
        EvmCommittee::of_members(epoch, &committee.members, true)
    }
}

/// What comes before the middle one comes before the last.
proof fn lemma_bytes_le_transitive(a: Seq<u8>, b: Seq<u8>, c: Seq<u8>)
    requires
        bytes_le(a, b),
        bytes_le(b, c),
    ensures
        bytes_le(a, c),
    decreases a.len(),
{
    if a.len() > 0 && a[0] == b[0] && b[0] == c[0] {
        lemma_bytes_le_transitive(a.drop_first(), b.drop_first(), c.drop_first());
    }
}

/// Of two byte strings one comes before or at the other.
proof fn lemma_bytes_le_total(a: Seq<u8>, b: Seq<u8>)
    ensures
        bytes_le(a, b) || bytes_le(b, a),
    decreases a.len(),
{
    if a.len() > 0 && b.len() > 0 {
        lemma_bytes_le_total(a.drop_first(), b.drop_first());
    }
}

/// Byte strings of which each comes before or at the other are the same.
proof fn lemma_bytes_le_antisymmetric(a: Seq<u8>, b: Seq<u8>)
    requires
        bytes_le(a, b),
        bytes_le(b, a),
    ensures
        a == b,
    decreases a.len(),
{
    if a.len() > 0 {
        lemma_bytes_le_antisymmetric(a.drop_first(), b.drop_first());
        assert(a =~= seq![a[0]] + a.drop_first());
        assert(b =~= seq![b[0]] + b.drop_first());
    } else {
        assert(a =~= b);
    }
}

/// A stake that goes in behind its likes comes last among them.
proof fn lemma_stakes_at_insert(
    v: Seq<[u8; 20]>,
    s: Seq<u64>,
    at: int,
    addr: [u8; 20],
    stake: u64,
    a: Seq<u8>,
)
    requires
        v.len() == s.len(),
        0 <= at <= v.len(),
        forall|j: int| at <= j < v.len() ==> !bytes_le(#[trigger] v[j]@, addr@),
    ensures
        stakes_at(v.insert(at, addr), s.insert(at, stake), a) == (if a == addr@ {
            stakes_at(v, s, a).push(stake)
        } else {
            stakes_at(v, s, a)
        }),
    decreases v.len(),
{
    let w = v.insert(at, addr);
    let t = s.insert(at, stake);
    if at == v.len() {
        assert(w.drop_last() =~= v);
        assert(t.drop_last() =~= s);
    } else {
        lemma_bytes_le_total(addr@, addr@);
        assert(v.last()@ != addr@);
        assert(w.drop_last() =~= v.drop_last().insert(at, addr));
        assert(t.drop_last() =~= s.drop_last().insert(at, stake));
        assert(w.last() == v.last() && t.last() == s.last());
        lemma_stakes_at_insert(v.drop_last(), s.drop_last(), at, addr, stake, a);
    }
}

/// An address has stakes in a committee only if it stands in it.
proof fn lemma_stakes_at_member(v: Seq<[u8; 20]>, s: Seq<u64>, addr: Seq<u8>) -> (at: int)
    requires
        v.len() == s.len(),
        stakes_at(v, s, addr).len() > 0,
    ensures
        0 <= at < v.len(),
        v[at]@ == addr,
    decreases v.len(),
{
    if v.last()@ == addr {
        v.len() - 1
    } else {
        lemma_stakes_at_member(v.drop_last(), s.drop_last(), addr)
    }
}

/// Two committees in which every address has the same stakes are the same: the
/// order in which the validators were listed leaves no trace.
pub proof fn law_committee_is_canonical(
    v1: Seq<[u8; 20]>,
    s1: Seq<u64>,
    v2: Seq<[u8; 20]>,
    s2: Seq<u64>,
)
    requires
        v1.len() == s1.len(),
        v2.len() == s2.len(),
        ascending(v1),
        ascending(v2),
        forall|a: Seq<u8>| #[trigger] stakes_at(v1, s1, a) == stakes_at(v2, s2, a),
    ensures
        v1 == v2,
        s1 == s2,
    decreases v1.len(),
{
    if v1.len() == 0 || v2.len() == 0 {
        if v1.len() > 0 {
            assert(stakes_at(v1, s1, v1.last()@) == stakes_at(v2, s2, v1.last()@));
        }
        if v2.len() > 0 {
            assert(stakes_at(v1, s1, v2.last()@) == stakes_at(v2, s2, v2.last()@));
        }
        assert(v1 =~= v2);
        assert(s1 =~= s2);
    } else {
        let x = v1.last()@;
        let y = v2.last()@;
        assert(stakes_at(v1, s1, x) == stakes_at(v2, s2, x));
        assert(stakes_at(v1, s1, y) == stakes_at(v2, s2, y));
        let i = lemma_stakes_at_member(v2, s2, x);
        let j = lemma_stakes_at_member(v1, s1, y);
        assert(bytes_le(v2[i]@, v2[v2.len() - 1]@));
        assert(bytes_le(v1[j]@, v1[v1.len() - 1]@));
        lemma_bytes_le_antisymmetric(x, y);
        assert(v1.last() =~= v2.last());
        assert(stakes_at(v1, s1, x).last() == s1.last());
        assert(stakes_at(v2, s2, x).last() == s2.last());
        assert forall|a: Seq<u8>| #[trigger]
            stakes_at(v1.drop_last(), s1.drop_last(), a) == stakes_at(
                v2.drop_last(),
                s2.drop_last(),
                a,
            ) by {
            assert(stakes_at(v1, s1, a) == stakes_at(v2, s2, a));
            if a == x {
                assert(stakes_at(v1, s1, a).drop_last() =~= stakes_at(
                    v1.drop_last(),
                    s1.drop_last(),
                    a,
                ));
                assert(stakes_at(v2, s2, a).drop_last() =~= stakes_at(
                    v2.drop_last(),
                    s2.drop_last(),
                    a,
                ));
            }
        }
        law_committee_is_canonical(
            v1.drop_last(),
            s1.drop_last(),
            v2.drop_last(),
            s2.drop_last(),
        );
        assert(v1 =~= v1.drop_last().push(v1.last()));
        assert(v2 =~= v2.drop_last().push(v2.last()));
        assert(s1 =~= s1.drop_last().push(s1.last()));
        assert(s2 =~= s2.drop_last().push(s2.last()));
    }
}

/// The arguments that name a withdraw.
pub open spec fn withdraw_tokens(
    nonce: u64,
    user: Seq<u8>,
    destination: Seq<u8>,
    amount: u64,
    epoch: u64,
) -> Seq<AbiView> {
    seq![
        AbiView::Uint(nonce),
        AbiView::Address(user),
        AbiView::Address(destination),
        AbiView::Uint(amount),
        AbiView::Uint(epoch),
    ]
}

/// The number of a withdraw on the EVM bridge.
pub open spec fn withdraw_hash(
    nonce: u64,
    user: Seq<u8>,
    destination: Seq<u8>,
    amount: u64,
    epoch: u64,
) -> Seq<u8> {
    keccak(abi_encoded(withdraw_tokens(nonce, user, destination, amount, epoch)))
}

/// Whether the heads of these arguments are one word each.
pub open spec fn whole_words(ts: Seq<AbiView>) -> bool {
    forall|i: int|
        0 <= i < ts.len() ==> match #[trigger] ts[i] {
            AbiView::Address(a) => a.len() == 20,
            AbiView::Word(w) => w.len() == 32,
            _ => true,
        }
}

/// The heads of arguments fill one word each.
proof fn lemma_heads_len(ts: Seq<AbiView>, n: nat)
    requires
        whole_words(ts),
    ensures
        abi_heads(ts, n).len() == 32 * ts.len(),
    decreases ts.len(),
{
    if ts.len() > 0 {
        let front = ts.drop_last();
        assert forall|i: int| 0 <= i < front.len() implies match #[trigger] front[i] {
            AbiView::Address(a) => a.len() == 20,
            AbiView::Word(w) => w.len() == 32,
            _ => true,
        } by {
            assert(front[i] == ts[i]);
        }
        lemma_heads_len(front, n);
        assert(ts[ts.len() - 1] == ts.last());
        match ts.last() {
            AbiView::Uint(x) => lemma_be_bytes_len(x as nat, 32),
            AbiView::Address(_) => {},
            AbiView::Word(_) => {},
            _ => lemma_be_bytes_len(32 * n + abi_tails(front).len(), 32),
        }
    }
}

/// Arguments of fixed size have no tails.
proof fn lemma_no_tails(ts: Seq<AbiView>)
    requires
        forall|i: int| 0 <= i < ts.len() ==> (#[trigger] ts[i]).is_static(),
    ensures
        abi_tails(ts) == Seq::<u8>::empty(),
    decreases ts.len(),
{
    if ts.len() > 0 {
        let front = ts.drop_last();
        assert forall|i: int| 0 <= i < front.len() implies (#[trigger] front[i]).is_static() by {
            assert(front[i] == ts[i]);
        }
        lemma_no_tails(front);
        assert(ts[ts.len() - 1].is_static());
        assert(abi_tails(ts) =~= Seq::<u8>::empty());
    }
}

/// The number of a withdraw: the hash of who gets what under which nonce, in
/// which epoch.
pub fn withdraw_id(
    nonce: u64,
    user: [u8; 20],
    destination: [u8; 20],
    amount: u64,
    epoch: u64,
) -> (r: [u8; 32])
    ensures
        r@ == withdraw_hash(nonce, user@, destination@, amount, epoch),
{
    let mut tokens: Vec<AbiToken> = Vec::new();
    tokens.push(AbiToken::Uint(nonce));
    tokens.push(AbiToken::Address(user));
    tokens.push(AbiToken::Address(destination));
    tokens.push(AbiToken::Uint(amount));
    tokens.push(AbiToken::Uint(epoch));
    proof {
        let ts = withdraw_tokens(nonce, user@, destination@, amount, epoch);
        assert(abi_views(tokens@) =~= ts);
        lemma_heads_len(ts, 5);
        lemma_no_tails(ts);
    }
    keccak256(abi_encode(&tokens).as_slice())
}

/// What a validator signs to request a withdraw.
pub open spec fn request_tokens(
    id: Seq<u8>,
    user: Seq<u8>,
    destination: Seq<u8>,
    token: Seq<u8>,
    amount: u64,
    nonce: u64,
    epoch: u64,
) -> Seq<AbiView> {
    seq![
        AbiView::Text("requestWithdraw"@),
        AbiView::Word(id),
        AbiView::Address(user),
        AbiView::Address(destination),
        AbiView::Address(token),
        AbiView::Uint(amount),
        AbiView::Uint(nonce),
        AbiView::Uint(epoch),
    ]
}

/// The digest that a validator signs to request a withdraw.
pub open spec fn request_hash(
    id: Seq<u8>,
    user: Seq<u8>,
    destination: Seq<u8>,
    token: Seq<u8>,
    amount: u64,
    nonce: u64,
    epoch: u64,
) -> Seq<u8> {
    keccak(abi_encoded(request_tokens(id, user, destination, token, amount, nonce, epoch)))
}

/// The tail of a request: its one text, in two words.
proof fn lemma_request_tails(ts: Seq<AbiView>)
    requires
        ts.len() > 0,
        ts[0] == AbiView::Text("requestWithdraw"@),
        forall|i: int| 1 <= i < ts.len() ==> (#[trigger] ts[i]).is_static(),
    ensures
        abi_tails(ts).len() == 64,
    decreases ts.len(),
{
    let front = ts.drop_last();
    if ts.len() == 1 {
        reveal_strlit("requestWithdraw");
        let name = "requestWithdraw"@;
        vstd::utf8::is_ascii_chars_encode_utf8(name);
        lemma_be_bytes_len(15, 32);
        assert(abi_tails(front) =~= Seq::<u8>::empty());
        assert(ts.last() == ts[0]);
    } else {
        assert forall|i: int| 1 <= i < front.len() implies (#[trigger] front[i]).is_static() by {
            assert(front[i] == ts[i]);
        }
        lemma_request_tails(front);
        assert(ts[ts.len() - 1].is_static());
    }
}

/// The digest that a validator signs to request a withdraw.
pub fn request_withdraw_digest(
    id: [u8; 32],
    user: [u8; 20],
    destination: [u8; 20],
    token: [u8; 20],
    amount: u64,
    nonce: u64,
    epoch: u64,
) -> (r: [u8; 32])
    ensures
        r@ == request_hash(id@, user@, destination@, token@, amount, nonce, epoch),
{
    let mut tokens: Vec<AbiToken> = Vec::new();
    tokens.push(AbiToken::Text("requestWithdraw".to_owned()));
    tokens.push(AbiToken::Word(id));
    tokens.push(AbiToken::Address(user));
    tokens.push(AbiToken::Address(destination));
    tokens.push(AbiToken::Address(token));
    tokens.push(AbiToken::Uint(amount));
    tokens.push(AbiToken::Uint(nonce));
    tokens.push(AbiToken::Uint(epoch));
    proof {
        let ts = request_tokens(id@, user@, destination@, token@, amount, nonce, epoch);
        assert(abi_views(tokens@) =~= ts);
        lemma_heads_len(ts, 8);
        lemma_request_tails(ts);
    }
    keccak256(abi_encode(&tokens).as_slice())
}

/// What a validator signs to change the committee of the EVM bridge.
pub open spec fn committee_update_tokens(next: EvmCommittee) -> Seq<AbiView> {
    seq![
        AbiView::Text("requestCommitteeUpdate"@),
        AbiView::Uint(next.epoch),
        AbiView::Addresses(next.validators@),
        AbiView::Uints(next.stakes@),
    ]
}

/// The digest that a validator signs to change the committee.
pub open spec fn committee_update_hash(next: EvmCommittee) -> Seq<u8> {
    keccak(abi_encoded(committee_update_tokens(next)))
}

/// The number of bytes that are signed to change the committee.
pub open spec fn committee_update_len(next: EvmCommittee) -> nat {
    256 + 32 * (next.validators@.len() + next.stakes@.len())
}

/// A list of numbers has one word for each.
proof fn lemma_uint_words_len(v: Seq<u64>)
    ensures
        uint_words(v).len() == 32 * v.len(),
    decreases v.len(),
{
    if v.len() > 0 {
        lemma_uint_words_len(v.drop_last());
        lemma_be_bytes_len(v.last() as nat, 32);
    }
}

/// A list of addresses has one word for each.
proof fn lemma_address_words_len(v: Seq<[u8; 20]>)
    ensures
        address_words(v).len() == 32 * v.len(),
    decreases v.len(),
{
    if v.len() > 0 {
        lemma_address_words_len(v.drop_last());
    }
}

/// The number of bytes that are signed to change the committee.
proof fn lemma_committee_update_len(next: EvmCommittee)
    ensures
        abi_encoded(committee_update_tokens(next)).len() == committee_update_len(next),
{
    let ts = committee_update_tokens(next);
    lemma_heads_len(ts, 4);
    let t3 = ts.drop_last();
    let t2 = t3.drop_last();
    let t1 = t2.drop_last();
    assert(t1.drop_last() =~= Seq::<AbiView>::empty());
    reveal_strlit("requestCommitteeUpdate");
    let name = "requestCommitteeUpdate"@;
    vstd::utf8::is_ascii_chars_encode_utf8(name);
    lemma_be_bytes_len(22, 32);
    assert(t1.last() == AbiView::Text(name));
    assert(abi_tails(t1.drop_last()) =~= Seq::<u8>::empty());
    assert(encode_utf8(name).len() == 22);
    assert(abi_tails(t1) == abi_tails(t1.drop_last()) + crate::codec::abi_tail(t1.last()));
    assert(abi_tails(t1).len() == 64);
    assert(t2.last() == AbiView::Uint(next.epoch));
    assert(abi_tails(t2).len() == 64);
    lemma_be_bytes_len(next.validators@.len(), 32);
    lemma_address_words_len(next.validators@);
    assert(t3.last() == AbiView::Addresses(next.validators@));
    assert(abi_tails(t3).len() == 96 + 32 * next.validators@.len());
    lemma_be_bytes_len(next.stakes@.len(), 32);
    lemma_uint_words_len(next.stakes@);
    assert(ts.last() == AbiView::Uints(next.stakes@));
}

/// Tells whether the committee is small enough for its change to be written
/// down.
pub fn committee_fits(next: &EvmCommittee) -> (r: bool)
    ensures
        r == (committee_update_len(*next) <= ABI_LIMIT),
{
    let words: usize = (ABI_LIMIT - 256) / 32;
    next.validators.len() <= words && next.stakes.len() <= words - next.validators.len()
}

/// The digest that a validator signs to change the committee.
pub fn request_committee_update_digest(next: &EvmCommittee) -> (r: [u8; 32])
    requires
        committee_update_len(*next) <= ABI_LIMIT,
    ensures
        r@ == committee_update_hash(*next),
{
    let mut tokens: Vec<AbiToken> = Vec::new();
    tokens.push(AbiToken::Text("requestCommitteeUpdate".to_owned()));
    tokens.push(AbiToken::Uint(next.epoch));
    let members = next.with_epoch(next.epoch);
    tokens.push(AbiToken::Addresses(members.validators));
    tokens.push(AbiToken::Uints(members.stakes));
    proof {
        assert(abi_views(tokens@) =~= committee_update_tokens(*next));
        lemma_committee_update_len(*next);
    }
    keccak256(abi_encode(&tokens).as_slice())
}

/// The hash that stands for a digest in an Ethereum signature.
pub open spec fn prefixed_hash(digest: Seq<u8>) -> Seq<u8> {
    keccak(encode_utf8("\x19Ethereum Signed Message:\n32"@) + digest)
}

/// The signature in the 64 bytes `sig` with the recovery number `id`.
pub open spec fn is_split_signature(s: EthSignature, sig: Seq<u8>, id: u8) -> bool {
    s.v == id + 27 && s.r@ == sig.take(32) && s.s@ == sig.skip(32)
}

/// Takes the 64 bytes of a signature apart.
pub fn split_signature(sig: &[u8; 64], id: u8) -> (r: EthSignature)
    requires
        id <= 228,
    ensures
        is_split_signature(r, sig@, id),
{
    let r = array_32(slice_subrange(sig.as_slice(), 0, 32));
    let s = array_32(slice_subrange(sig.as_slice(), 32, 64));
    assert(sig@.subrange(0, 32) =~= sig@.take(32));
    assert(sig@.subrange(32, 64) =~= sig@.skip(32));
    EthSignature { v: id + 27, r, s }
}

/// Whether `r` is the Ethereum signature of a digest, or why there is none.
pub open spec fn is_eth_signature(
    r: Result<EthSignature, EthSignError>,
    digest: Seq<u8>,
    secret: Seq<u8>,
) -> bool {
    match recoverable_signature(secret, prefixed_hash(digest)) {
        Ok((sig, id)) => r matches Ok(s) && is_split_signature(s, sig, id),
        Err(e) => r == Err::<EthSignature, EthSignError>(e),
    }
}

/// Signs a digest as an Ethereum message.
pub fn eth_sign_digest(digest: [u8; 32], secret: &SecretKey) -> (r: Result<
    EthSignature,
    EthSignError,
>)
    ensures
        is_eth_signature(r, digest@, secret.bytes@),
{
    let mut prefixed: Vec<u8> = Vec::new();
    push_all(&mut prefixed, "\x19Ethereum Signed Message:\n32".as_bytes());
    push_all(&mut prefixed, digest.as_slice());
    assert(prefixed@ =~= encode_utf8("\x19Ethereum Signed Message:\n32"@) + digest@);
    let eth_signed = keccak256(prefixed.as_slice());
    match sign_prehash(&secret.bytes, &eth_signed) {
        Ok((sig, id)) => Ok(split_signature(&sig, id)),
        Err(e) => Err(e),
    }
}

/// The text of a secret that was read: `0x` and its digits.
pub fn key_text(raw: &Vec<u8>) -> (r: Result<String, BridgeError>)
    ensures
        raw@.len() == 32 ==> (r matches Ok(s) && s@ == address_text(raw@)),
        raw@.len() != 32 ==> r == Err::<String, BridgeError>(BridgeError::SecretKey),
{
    if raw.len() != 32 {
        return Err(BridgeError::SecretKey);
    }
    Ok(cat("0x", hex_encode(raw.as_slice()).as_str()))
}

/// The secret as `cast` takes it: `0x` and its digits.
pub fn secret_key_hex(secret: &SecretKey) -> (r: Result<String, BridgeError>)
    ensures
        r matches Ok(s) && s@ == address_text(secret.bytes@),
{
    match base64_decode(secret.encode_base64().as_str()) {
        Some(raw) => key_text(&raw),
        None => Err(BridgeError::SecretKey),
    }
}

/// What a JSON-RPC call came to.
#[derive(Clone, Debug)]
pub struct RpcReply {
    /// Whether the reply reports an error.
    pub error: bool,
    /// The result, where it is a text.
    pub result: Option<String>,
}

/// The number that `eth_blockNumber` gave.
pub open spec fn block_number_of(result: Option<Seq<char>>) -> Result<u64, BridgeError> {
    match result {
        None => Err(BridgeError::MissingResult),
        Some(hex) => match hex_number(hex_body(hex)) {
            Some(n) => Ok(n),
            None => Err(BridgeError::Number),
        },
    }
}

/// The view of an optional text.
pub open spec fn text_of(s: Option<String>) -> Option<Seq<char>> {
    match s {
        Some(t) => Some(t@),
        None => None,
    }
}

/// Reads the reply to `eth_blockNumber`.
pub fn eth_block_number(reply: &RpcReply) -> (r: Result<u64, BridgeError>)
    ensures
        r == block_number_of(text_of(reply.result)),
{
    match &reply.result {
        None => Err(BridgeError::MissingResult),
        Some(hex) => match parse_hex_number(strip_0x(hex.as_str())) {
            Some(n) => Ok(n),
            None => Err(BridgeError::Number),
        },
    }
}

/// The number that `eth_call` gave: the last 16 digits of its result.
pub open spec fn call_number(reply: RpcReply) -> Result<u64, BridgeError> {
    if reply.error {
        Err(BridgeError::Rpc)
    } else {
        match reply.result {
            None => Err(BridgeError::MissingResult),
            Some(hex) => {
                let digits = hex_body(hex@);
                if digits.len() == 0 {
                    Err(BridgeError::EmptyResult)
                } else {
                    let last = if encode_utf8(digits).len() <= 16 {
                        digits
                    } else {
                        vstd::utf8::decode_utf8(tail_bytes(hex@, 16))
                    };
                    match hex_number(last) {
                        Some(n) => Ok(n),
                        None => Err(BridgeError::Number),
                    }
                }
            },
        }
    }
}

/// Reads the reply to `eth_call` of a function that gives a number.
pub fn eth_call_u64(reply: &RpcReply) -> (r: Result<u64, BridgeError>)
    requires
        !reply.error ==> (reply.result matches Some(hex) ==> tail_is_text(hex@, 16)),
    ensures
        r == call_number(*reply),
{
    if reply.error {
        return Err(BridgeError::Rpc);
    }
    match &reply.result {
        None => Err(BridgeError::MissingResult),
        Some(hex) => {
            let digits = strip_0x(hex.as_str());
            if digits.is_empty() {
                return Err(BridgeError::EmptyResult);
            }
            let last = if digits.as_bytes().len() <= 16 {
                digits
            } else {
                text_tail(digits, 16)
            };
            match parse_hex_number(last) {
                Some(n) => Ok(n),
                None => Err(BridgeError::Number),
            }
        },
    }
}

/// How long the EVM bridge keeps a request open to dispute.
#[derive(Clone, Copy, Debug, PartialEq, Eq)]
pub struct EvmDisputeParams {
    pub period_seconds: u64,
    pub block_duration_millis: u64,
}

impl Default for EvmDisputeParams {
    fn default() -> (r: Self)
        ensures
            r.period_seconds == 5,
            r.block_duration_millis == 1000,
    {
        EvmDisputeParams { period_seconds: 5, block_duration_millis: 1000 }
    }
}

/// The call that asks the bridge for its dispute period.
pub fn dispute_period_call() -> (r: &'static str)
    ensures
        r@ == "0x0756183b"@,
{
    "0x0756183b"
}

/// The call that asks the bridge for the time between its blocks.
pub fn block_duration_call() -> (r: &'static str)
    ensures
        r@ == "0x9d5bc9e1"@,
{
    "0x9d5bc9e1"
}

/// The dispute parameters from the replies to the two calls; where the first
/// one failed, the second one has not been made.
pub fn fetch_dispute_params(
    period: Result<u64, BridgeError>,
    duration: Result<u64, BridgeError>,
) -> (r: Result<EvmDisputeParams, BridgeError>)
    ensures
        match (period, duration) {
            (Ok(p), Ok(d)) => r == Ok::<EvmDisputeParams, BridgeError>(
                EvmDisputeParams { period_seconds: p, block_duration_millis: d },
            ),
            (Err(e), _) => r == Err::<EvmDisputeParams, BridgeError>(e),
            (Ok(_), Err(e)) => r == Err::<EvmDisputeParams, BridgeError>(e),
        },
{
    match (period, duration) {
        (Ok(period_seconds), Ok(block_duration_millis)) => Ok(
            EvmDisputeParams { period_seconds, block_duration_millis },
        ),
        (Err(e), _) => Err(e),
        (Ok(_), Err(e)) => Err(e),
    }
}

/// The larger of two numbers.
pub open spec fn max_of(a: int, b: int) -> int {
    if a >= b {
        a
    } else {
        b
    }
}

/// `n`, or the largest 64-bit number where it is larger.
pub open spec fn saturated(n: int) -> int {
    if n > u64::MAX {
        u64::MAX as int
    } else {
        n
    }
}

/// The number of blocks between a request and its finalization, as far as it
/// is a 64-bit number. Where the blocks take time these are the fewest blocks
/// that take longer than the dispute period, but no fewer than are waited for
/// anyway.
pub open spec fn block_delay(params: EvmDisputeParams, confirmations: u64) -> int {
    let from_dispute = if params.block_duration_millis == 0 {
        params.period_seconds + 1
    } else {
        (1000 * params.period_seconds) / (params.block_duration_millis as int) + 1
    };
    max_of(saturated(from_dispute), max_of(confirmations as int, 1))
}

/// Blocks that must elapse after request before Bridge.finalizeWithdraw can succeed.
/// Mirrors Bridge._inDispute: need elapsedBlocks * blockDurationMillis > 1000 * disputePeriodSeconds.
pub fn dispute_block_delay(params: EvmDisputeParams, confirmations: u64) -> (r: u64)
    ensures
        r == block_delay(params, confirmations),
{
    let from_dispute: u64 = if params.block_duration_millis == 0 {
        params.period_seconds.saturating_add(1)
    } else {
        let millis: u128 = 1000 * (params.period_seconds as u128);
        let duration: u128 = params.block_duration_millis as u128;
        assert(0 <= millis / duration <= millis) by (nonlinear_arith)
            requires
                duration >= 1,
        ;
        let blocks: u128 = millis / duration + 1;
        if blocks > u64::MAX as u128 {
            u64::MAX
        } else {
            blocks as u64
        }
    };
    let at_least: u64 = if confirmations > 1 {
        confirmations
    } else {
        1
    };
    if from_dispute >= at_least {
        from_dispute
    } else {
        at_least
    }
}

/// After the delay the bridge no longer holds a request for disputed, and no
/// shorter delay that covers the confirmations would do. Left out is a period
/// that takes more blocks than a 64-bit number can count, and a chain whose
/// blocks take no time, on which the dispute never ends.
pub proof fn law_delay_outlasts_dispute(params: EvmDisputeParams, confirmations: u64)
    requires
        params.block_duration_millis > 0,
        1000 * params.period_seconds < u64::MAX * params.block_duration_millis,
    ensures
        block_delay(params, confirmations) * params.block_duration_millis > 1000
            * params.period_seconds,
        block_delay(params, confirmations) >= confirmations,
        block_delay(params, confirmations) > max_of(confirmations as int, 1) ==> (block_delay(
            params,
            confirmations,
        ) - 1) * params.block_duration_millis <= 1000 * params.period_seconds,
{
    let d = params.block_duration_millis as int;
    let t = 1000 * params.period_seconds;
    let q = t / d;
    let delay = block_delay(params, confirmations);
    assert(q * d <= t < (q + 1) * d) by (nonlinear_arith)
        requires
            d > 0,
            q == t / d,
    ;
    let top = u64::MAX as int;
    assert(q < top) by (nonlinear_arith)
        requires
            q * d <= t,
            t < top * d,
            d > 0,
    ;
    assert(delay >= q + 1);
    assert(delay * d >= (q + 1) * d) by (nonlinear_arith)
        requires
            delay >= q + 1,
            d > 0,
    ;
}

/// Whether an error says that a request is still open to dispute.
pub open spec fn in_dispute_text(detail: Seq<char>) -> bool {
    let lower = crate::text::ascii_lowered(detail);
    occurs_in(lower, "0x2d3666c9"@) || occurs_in(lower, "stillindispute"@)
}

/// Tells whether an error says that a request is still open to dispute.
pub fn still_in_dispute_error(detail: &str) -> (r: bool)
    ensures
        r == in_dispute_text(detail@),
{
    let lower = detail.to_ascii_lowercase();
    contains_text(lower.as_str(), "0x2d3666c9") || contains_text(lower.as_str(), "stillindispute")
}

/// Whether an error says that the other chain has done the thing already.
pub open spec fn processed_text(detail: Seq<char>) -> bool {
    let lower = crate::text::ascii_lowered(detail);
    ||| occurs_in(lower, "already processed"@)
    ||| occurs_in(lower, "alreadyprocessed"@)
    ||| occurs_in(lower, "0x57eee766"@)
}

/// Tells whether an error says that the other chain has done the thing already.
pub fn already_processed_detail(detail: &str) -> (r: bool)
    ensures
        r == processed_text(detail@),
{
    let lower = detail.to_ascii_lowercase();
    contains_text(lower.as_str(), "already processed") || contains_text(
        lower.as_str(),
        "alreadyprocessed",
    ) || contains_text(lower.as_str(), "0x57eee766")
}

/// Whether an error means that a withdraw will never be accepted.
pub open spec fn permanent_text(detail: Seq<char>) -> bool {
    let lower = crate::text::ascii_lowered(detail);
    occurs_in(lower, "not in authorities"@) || occurs_in(lower, "unauthorized"@)
}

/// Tells whether an error means that a withdraw will never be accepted. A
/// committee that the bridge does not know is no such error: it is brought up
/// to date and the request repeated.
pub fn evm_withdraw_permanent_failure(detail: &str) -> (r: bool)
    ensures
        r == permanent_text(detail@),
{
    let lower = detail.to_ascii_lowercase();
    contains_text(lower.as_str(), "not in authorities") || contains_text(
        lower.as_str(),
        "unauthorized",
    )
}

/// The texts `parts` between two brackets, with commas.
pub open spec fn bracketed(open: Seq<char>, parts: Seq<Seq<char>>, close: Seq<char>) -> Seq<char> {
    open + joined(parts, ","@) + close
}

/// The texts `parts` between two brackets, with commas.
fn bracket(open: &str, parts: &Vec<String>, close: &str) -> (r: String)
    ensures
        r@ == bracketed(open@, texts(parts@), close@),
{
    cat3(open, join(parts, ",").as_str(), close)
}

/// The text of an address: `0x` and its digits.
pub fn addr_hex(a: &[u8; 20]) -> (r: String)
    ensures
        r@ == address_text(a@),
{
    cat("0x", hex_encode(a.as_slice()).as_str())
}

/// The text of a 32-byte word: `0x` and its digits.
pub fn bytes32_hex(b: &[u8; 32]) -> (r: String)
    ensures
        r@ == address_text(b@),
{
    cat("0x", hex_encode(b.as_slice()).as_str())
}

/// The addresses of a committee as texts.
pub open spec fn address_texts(validators: Seq<[u8; 20]>) -> Seq<Seq<char>> {
    Seq::new(validators.len(), |i: int| address_text(validators[i]@))
}

/// The stakes of a committee as texts.
pub open spec fn stake_texts(stakes: Seq<u64>) -> Seq<Seq<char>> {
    Seq::new(stakes.len(), |i: int| decimal(stakes[i] as nat))
}

/// A committee as an argument of a call.
pub open spec fn committee_text(c: EvmCommittee) -> Seq<char> {
    bracketed(
        "("@,
        seq![
            decimal(c.epoch as nat),
            bracketed("["@, address_texts(c.validators@), "]"@),
            bracketed("["@, stake_texts(c.stakes@), "]"@),
        ],
        ")"@,
    )
}

/// A committee as an argument of a call.
pub fn committee_arg(c: &EvmCommittee) -> (r: String)
    ensures
        r@ == committee_text(*c),
{
    let mut addresses: Vec<String> = Vec::new();
    let mut i: usize = 0;
    while i < c.validators.len()
        invariant
            i <= c.validators.len(),
            texts(addresses@) == address_texts(c.validators@).take(i as int),
        decreases c.validators.len() - i,
    {
        let text = addr_hex(&c.validators[i]);
        let ghost before = addresses@;
        addresses.push(text);
        i += 1;
        assert(texts(addresses@) =~= texts(before).push(text@));
        assert(address_texts(c.validators@).take(i as int) =~= address_texts(c.validators@).take(
            i - 1,
        ).push(text@));
    }
    assert(address_texts(c.validators@).take(i as int) =~= address_texts(c.validators@));
    let mut stakes: Vec<String> = Vec::new();
    let mut j: usize = 0;
    while j < c.stakes.len()
        invariant
            j <= c.stakes.len(),
            texts(stakes@) == stake_texts(c.stakes@).take(j as int),
        decreases c.stakes.len() - j,
    {
        let text = decimal_text(c.stakes[j]);
        let ghost before = stakes@;
        stakes.push(text);
        j += 1;
        assert(texts(stakes@) =~= texts(before).push(text@));
        assert(stake_texts(c.stakes@).take(j as int) =~= stake_texts(c.stakes@).take(j - 1).push(
            text@,
        ));
    }
    assert(stake_texts(c.stakes@).take(j as int) =~= stake_texts(c.stakes@));
    let mut parts: Vec<String> = Vec::new();
    parts.push(decimal_text(c.epoch));
    parts.push(bracket("[", &addresses, "]"));
    parts.push(bracket("[", &stakes, "]"));
    assert(texts(parts@) =~= seq![
        decimal(c.epoch as nat),
        bracketed("["@, address_texts(c.validators@), "]"@),
        bracketed("["@, stake_texts(c.stakes@), "]"@),
    ]);
    bracket("(", &parts, ")")
}

/// A signature as an argument of a call.
pub open spec fn signature_text(s: EthSignature) -> Seq<char> {
    bracketed(
        "("@,
        seq![decimal(s.v as nat), address_text(s.r@), address_text(s.s@)],
        ")"@,
    )
}

/// Signatures as arguments of a call.
pub open spec fn signature_texts(signatures: Seq<EthSignature>) -> Seq<Seq<char>> {
    Seq::new(signatures.len(), |i: int| signature_text(signatures[i]))
}

/// Signatures as one argument of a call.
pub fn signatures_arg(signatures: &Vec<EthSignature>) -> (r: String)
    ensures
        r@ == bracketed("["@, signature_texts(signatures@), "]"@),
{
    let mut out: Vec<String> = Vec::new();
    let mut i: usize = 0;
    while i < signatures.len()
        invariant
            i <= signatures.len(),
            texts(out@) == signature_texts(signatures@).take(i as int),
        decreases signatures.len() - i,
    {
        let s = signatures[i];
        let mut parts: Vec<String> = Vec::new();
        parts.push(decimal_text(s.v as u64));
        parts.push(bytes32_hex(&s.r));
        parts.push(bytes32_hex(&s.s));
        assert(texts(parts@) =~= seq![
            decimal(s.v as nat),
            address_text(s.r@),
            address_text(s.s@),
        ]);
        let text = bracket("(", &parts, ")");
        let ghost before = out@;
        out.push(text);
        i += 1;
        assert(texts(out@) =~= texts(before).push(text@));
        assert(signature_texts(signatures@).take(i as int) =~= signature_texts(signatures@).take(
            i - 1,
        ).push(text@));
    }
    assert(signature_texts(signatures@).take(i as int) =~= signature_texts(signatures@));
    bracket("[", &out, "]")
}

/// A withdraw as an argument of a call.
pub open spec fn request_text(
    id: Seq<u8>,
    record: BridgeWithdrawRecord,
    foreign_token: Seq<u8>,
    epoch: u64,
) -> Seq<char> {
    bracketed(
        "("@,
        seq![
            address_text(id),
            address_text(record.sender@),
            address_text(record.foreign_recipient@),
            address_text(foreign_token),
            decimal(record.amount as nat),
            decimal(record.nonce as nat),
            decimal(epoch as nat),
        ],
        ")"@,
    )
}

/// The arguments of `cast` that request a withdraw.
pub open spec fn request_withdraw_args(
    rpc: Seq<char>,
    private_key_hex: Seq<char>,
    bridge: Seq<char>,
    request: Seq<char>,
    committee: EvmCommittee,
    signatures: Seq<EthSignature>,
) -> Seq<Seq<char>> {
    seq![
        "send"@,
        bridge,
        "requestWithdraw((bytes32,address,address,address,uint64,uint64,uint64),(uint64,address[],uint64[]),(uint8,bytes32,bytes32)[])"@,
        request,
        committee_text(committee),
        bracketed("["@, signature_texts(signatures), "]"@),
        "--rpc-url"@,
        rpc,
        "--private-key"@,
        private_key_hex,
        "--json"@,
    ]
}

/// The arguments of `cast` that request a withdraw on the EVM bridge.
pub fn cast_request_withdraw(
    rpc: &str,
    private_key_hex: &str,
    bridge: &str,
    id: [u8; 32],
    record: &BridgeWithdrawRecord,
    foreign_token: [u8; 20],
    epoch: u64,
    committee: &EvmCommittee,
    signatures: &Vec<EthSignature>,
) -> (r: Vec<String>)
    ensures
        texts(r@) == request_withdraw_args(
            rpc@,
            private_key_hex@,
            bridge@,
            request_text(id@, *record, foreign_token@, epoch),
            *committee,
            signatures@,
        ),
{
    let mut parts: Vec<String> = Vec::new();
    parts.push(bytes32_hex(&id));
    parts.push(addr_hex(&record.sender));
    parts.push(addr_hex(&record.foreign_recipient));
    parts.push(addr_hex(&foreign_token));
    parts.push(decimal_text(record.amount));
    parts.push(decimal_text(record.nonce));
    parts.push(decimal_text(epoch));
    assert(texts(parts@) =~= seq![
        address_text(id@),
        address_text(record.sender@),
        address_text(record.foreign_recipient@),
        address_text(foreign_token@),
        decimal(record.amount as nat),
        decimal(record.nonce as nat),
        decimal(epoch as nat),
    ]);
    let mut args: Vec<String> = Vec::new();
    args.push("send".to_owned());
    args.push(bridge.to_owned());
    args.push(
        "requestWithdraw((bytes32,address,address,address,uint64,uint64,uint64),(uint64,address[],uint64[]),(uint8,bytes32,bytes32)[])".to_owned(),
    );
    args.push(bracket("(", &parts, ")"));
    args.push(committee_arg(committee));
    args.push(signatures_arg(signatures));
    args.push("--rpc-url".to_owned());
    args.push(rpc.to_owned());
    args.push("--private-key".to_owned());
    args.push(private_key_hex.to_owned());
    args.push("--json".to_owned());
    assert(texts(args@) =~= request_withdraw_args(
        rpc@,
        private_key_hex@,
        bridge@,
        request_text(id@, *record, foreign_token@, epoch),
        *committee,
        signatures@,
    ));
    args
}

/// The arguments of `cast` that finalize a withdraw.
pub open spec fn finalize_withdraw_args(
    rpc: Seq<char>,
    private_key_hex: Seq<char>,
    bridge: Seq<char>,
    id: Seq<u8>,
) -> Seq<Seq<char>> {
    seq![
        "send"@,
        bridge,
        "finalizeWithdraw(bytes32)"@,
        address_text(id),
        "--rpc-url"@,
        rpc,
        "--private-key"@,
        private_key_hex,
        "--json"@,
    ]
}

/// The arguments of `cast` that finalize a withdraw on the EVM bridge.
pub fn cast_finalize_withdraw(rpc: &str, private_key_hex: &str, bridge: &str, id: [u8; 32]) -> (r:
    Vec<String>)
    ensures
        texts(r@) == finalize_withdraw_args(rpc@, private_key_hex@, bridge@, id@),
{
    let mut args: Vec<String> = Vec::new();
    args.push("send".to_owned());
    args.push(bridge.to_owned());
    args.push("finalizeWithdraw(bytes32)".to_owned());
    args.push(bytes32_hex(&id));
    args.push("--rpc-url".to_owned());
    args.push(rpc.to_owned());
    args.push("--private-key".to_owned());
    args.push(private_key_hex.to_owned());
    args.push("--json".to_owned());
    assert(texts(args@) =~= finalize_withdraw_args(rpc@, private_key_hex@, bridge@, id@));
    args
}

/// The arguments of `cast` that request a change of the committee.
pub open spec fn request_committee_update_args(
    rpc: Seq<char>,
    private_key_hex: Seq<char>,
    bridge: Seq<char>,
    next: EvmCommittee,
    active: EvmCommittee,
    signatures: Seq<EthSignature>,
) -> Seq<Seq<char>> {
    seq![
        "send"@,
        bridge,
        "requestCommitteeUpdate((uint64,address[],uint64[]),(uint64,address[],uint64[]),(uint8,bytes32,bytes32)[])"@,
        committee_text(next),
        committee_text(active),
        bracketed("["@, signature_texts(signatures), "]"@),
        "--rpc-url"@,
        rpc,
        "--private-key"@,
        private_key_hex,
        "--json"@,
    ]
}

/// The arguments of `cast` that request a change from the committee `active` to
/// `next` on the EVM bridge.
pub fn cast_request_committee_update(
    rpc: &str,
    private_key_hex: &str,
    bridge: &str,
    next: &EvmCommittee,
    active: &EvmCommittee,
    signatures: &Vec<EthSignature>,
) -> (r: Vec<String>)
    ensures
        texts(r@) == request_committee_update_args(
            rpc@,
            private_key_hex@,
            bridge@,
            *next,
            *active,
            signatures@,
        ),
{
    let mut args: Vec<String> = Vec::new();
    args.push("send".to_owned());
    args.push(bridge.to_owned());
    args.push(
        "requestCommitteeUpdate((uint64,address[],uint64[]),(uint64,address[],uint64[]),(uint8,bytes32,bytes32)[])".to_owned(),
    );
    args.push(committee_arg(next));
    args.push(committee_arg(active));
    args.push(signatures_arg(signatures));
    args.push("--rpc-url".to_owned());
    args.push(rpc.to_owned());
    args.push("--private-key".to_owned());
    args.push(private_key_hex.to_owned());
    args.push("--json".to_owned());
    assert(texts(args@) =~= request_committee_update_args(
        rpc@,
        private_key_hex@,
        bridge@,
        *next,
        *active,
        signatures@,
    ));
    args
}

/// The arguments of `cast` that finalize a change of the committee.
pub open spec fn finalize_committee_update_args(
    rpc: Seq<char>,
    private_key_hex: Seq<char>,
    bridge: Seq<char>,
) -> Seq<Seq<char>> {
    seq![
        "send"@,
        bridge,
        "finalizeCommitteeUpdate()"@,
        "--rpc-url"@,
        rpc,
        "--private-key"@,
        private_key_hex,
        "--json"@,
    ]
}

/// The arguments of `cast` that finalize a change of the committee on the EVM
/// bridge.
pub fn cast_finalize_committee_update(rpc: &str, private_key_hex: &str, bridge: &str) -> (r: Vec<
    String,
>)
    ensures
        texts(r@) == finalize_committee_update_args(rpc@, private_key_hex@, bridge@),
{
    let mut args: Vec<String> = Vec::new();
    args.push("send".to_owned());
    args.push(bridge.to_owned());
    args.push("finalizeCommitteeUpdate()".to_owned());
    args.push("--rpc-url".to_owned());
    args.push(rpc.to_owned());
    args.push("--private-key".to_owned());
    args.push(private_key_hex.to_owned());
    args.push("--json".to_owned());
    assert(texts(args@) =~= finalize_committee_update_args(rpc@, private_key_hex@, bridge@));
    args
}

/// The call that asks the bridge for the epoch of its committee.
pub fn epoch_call() -> (r: &'static str)
    ensures
        r@ == "0x900cf0cf"@,
{
    "0x900cf0cf"
}

/// How a run of `cast` ended.
#[derive(Clone, Debug)]
pub enum CastOutput {
    /// The process did not start.
    NotStarted,
    /// It reported failure, with this on its error output.
    Failed(String),
    /// It reported success, with this on its output.
    Succeeded(String),
}

/// What a run of `cast` for a function of the bridge comes to: its output, or
/// what went wrong.
pub open spec fn cast_outcome(function: Seq<char>, output: CastOutput) -> Result<
    Seq<char>,
    Seq<char>,
> {
    match output {
        CastOutput::NotStarted => Err("failed to spawn cast for "@ + function),
        CastOutput::Failed(stderr) => Err("cast "@ + function + " failed: "@ + stderr@),
        CastOutput::Succeeded(stdout) => Ok(trimmed(stdout@)),
    }
}

/// Reads the result of a run of `cast` for a function of the bridge.
pub fn cast_result(function: &str, output: &CastOutput) -> (r: Result<String, String>)
    ensures
        match r {
            Ok(s) => cast_outcome(function@, *output) == Ok::<Seq<char>, Seq<char>>(s@),
            Err(s) => cast_outcome(function@, *output) == Err::<Seq<char>, Seq<char>>(s@),
        },
{
    match output {
        CastOutput::NotStarted => Err(cat("failed to spawn cast for ", function)),
        CastOutput::Failed(stderr) => {
            let head = cat3("cast ", function, " failed: ");
            Err(cat(head.as_str(), stderr.as_str()))
        },
        CastOutput::Succeeded(stdout) => Ok(stdout.as_str().trim().to_owned()),
    }
}

/// The word of an argument of fixed size stands at its place in the encoding.
proof fn lemma_head_at(ts: Seq<AbiView>, n: nat, i: int)
    requires
        whole_words(ts),
        0 <= i < ts.len(),
        ts[i].is_static(),
    ensures
        abi_heads(ts, n).len() == 32 * ts.len(),
        abi_heads(ts, n).subrange(32 * i, 32 * i + 32) == crate::codec::abi_head(ts[i], 0),
    decreases ts.len(),
{
    lemma_heads_len(ts, n);
    let front = ts.drop_last();
    let heads = abi_heads(ts, n);
    assert forall|k: int| 0 <= k < front.len() implies match #[trigger] front[k] {
        AbiView::Address(a) => a.len() == 20,
        AbiView::Word(w) => w.len() == 32,
        _ => true,
    } by {
        assert(front[k] == ts[k]);
    }
    lemma_heads_len(front, n);
    if i == ts.len() - 1 {
        assert(ts.last() == ts[i]);
        assert(heads.subrange(32 * i, 32 * i + 32) =~= crate::codec::abi_head(ts[i], 0));
    } else {
        assert(front[i] == ts[i]);
        lemma_head_at(front, n, i);
        assert(heads.subrange(32 * i, 32 * i + 32) =~= abi_heads(front, n).subrange(
            32 * i,
            32 * i + 32,
        ));
    }
}

/// Equal encodings have equal words at the places of arguments of fixed size.
proof fn lemma_same_head(ts: Seq<AbiView>, us: Seq<AbiView>, i: int)
    requires
        whole_words(ts),
        whole_words(us),
        ts.len() == us.len(),
        0 <= i < ts.len(),
        ts[i].is_static(),
        us[i].is_static(),
        abi_encoded(ts) == abi_encoded(us),
    ensures
        crate::codec::abi_head(ts[i], 0) == crate::codec::abi_head(us[i], 0),
{
    lemma_head_at(ts, ts.len(), i);
    lemma_head_at(us, us.len(), i);
    let e = abi_encoded(ts);
    let f = abi_encoded(us);
    assert(e.subrange(32 * i, 32 * i + 32) =~= abi_heads(ts, ts.len()).subrange(
        32 * i,
        32 * i + 32,
    ));
    assert(f.subrange(32 * i, 32 * i + 32) =~= abi_heads(us, us.len()).subrange(
        32 * i,
        32 * i + 32,
    ));
}

/// Two numbers with the same word are the same.
proof fn lemma_same_number(a: u64, b: u64)
    requires
        be_bytes(a as nat, 32) == be_bytes(b as nat, 32),
    ensures
        a == b,
{
    crate::bytes::lemma_pow_256();
    vstd::arithmetic::power::lemma_pow_increases(256, 8, 32);
    crate::codec::lemma_be_bytes_injective(a as nat, b as nat, 32);
}

/// Two addresses with the same word are the same.
proof fn lemma_same_address(a: Seq<u8>, b: Seq<u8>)
    requires
        zeros(12) + a == zeros(12) + b,
    ensures
        a == b,
{
    assert((zeros(12) + a).skip(12) =~= a);
    assert((zeros(12) + b).skip(12) =~= b);
}

/// Two withdraws are hashed from the same bytes only if they agree in nonce,
/// users, amount and epoch.
pub proof fn law_withdraw_preimage_is_injective(
    nonce_1: u64,
    user_1: Seq<u8>,
    destination_1: Seq<u8>,
    amount_1: u64,
    epoch_1: u64,
    nonce_2: u64,
    user_2: Seq<u8>,
    destination_2: Seq<u8>,
    amount_2: u64,
    epoch_2: u64,
)
    requires
        user_1.len() == 20,
        user_2.len() == 20,
        destination_1.len() == 20,
        destination_2.len() == 20,
        abi_encoded(withdraw_tokens(nonce_1, user_1, destination_1, amount_1, epoch_1))
            == abi_encoded(withdraw_tokens(nonce_2, user_2, destination_2, amount_2, epoch_2)),
    ensures
        nonce_1 == nonce_2,
        user_1 == user_2,
        destination_1 == destination_2,
        amount_1 == amount_2,
        epoch_1 == epoch_2,
{
    let ts = withdraw_tokens(nonce_1, user_1, destination_1, amount_1, epoch_1);
    let us = withdraw_tokens(nonce_2, user_2, destination_2, amount_2, epoch_2);
    lemma_same_head(ts, us, 0);
    lemma_same_head(ts, us, 1);
    lemma_same_head(ts, us, 2);
    lemma_same_head(ts, us, 3);
    lemma_same_head(ts, us, 4);
    lemma_same_number(nonce_1, nonce_2);
    lemma_same_address(user_1, user_2);
    lemma_same_address(destination_1, destination_2);
    lemma_same_number(amount_1, amount_2);
    lemma_same_number(epoch_1, epoch_2);
}

/// Two requests are signed over the same bytes only if they agree in every
/// field.
pub proof fn law_request_preimage_is_injective(
    id_1: Seq<u8>,
    user_1: Seq<u8>,
    destination_1: Seq<u8>,
    token_1: Seq<u8>,
    amount_1: u64,
    nonce_1: u64,
    epoch_1: u64,
    id_2: Seq<u8>,
    user_2: Seq<u8>,
    destination_2: Seq<u8>,
    token_2: Seq<u8>,
    amount_2: u64,
    nonce_2: u64,
    epoch_2: u64,
)
    requires
        id_1.len() == 32,
        id_2.len() == 32,
        user_1.len() == 20,
        user_2.len() == 20,
        destination_1.len() == 20,
        destination_2.len() == 20,
        token_1.len() == 20,
        token_2.len() == 20,
        abi_encoded(
            request_tokens(id_1, user_1, destination_1, token_1, amount_1, nonce_1, epoch_1),
        ) == abi_encoded(
            request_tokens(id_2, user_2, destination_2, token_2, amount_2, nonce_2, epoch_2),
        ),
    ensures
        id_1 == id_2,
        user_1 == user_2,
        destination_1 == destination_2,
        token_1 == token_2,
        amount_1 == amount_2,
        nonce_1 == nonce_2,
        epoch_1 == epoch_2,
{
    let ts = request_tokens(id_1, user_1, destination_1, token_1, amount_1, nonce_1, epoch_1);
    let us = request_tokens(id_2, user_2, destination_2, token_2, amount_2, nonce_2, epoch_2);
    lemma_same_head(ts, us, 1);
    lemma_same_head(ts, us, 2);
    lemma_same_head(ts, us, 3);
    lemma_same_head(ts, us, 4);
    lemma_same_head(ts, us, 5);
    lemma_same_head(ts, us, 6);
    lemma_same_head(ts, us, 7);
    lemma_same_address(user_1, user_2);
    lemma_same_address(destination_1, destination_2);
    lemma_same_address(token_1, token_2);
    lemma_same_number(amount_1, amount_2);
    lemma_same_number(nonce_1, nonce_2);
    lemma_same_number(epoch_1, epoch_2);
}

} // verus!
