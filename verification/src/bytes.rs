//! Byte strings of fixed length and big-endian numbers.
use vstd::arithmetic::power::pow;
use vstd::prelude::*;
use crate::codec::{be_bytes, lemma_be_bytes_len, zeros};

verus! {

/// The number that some bytes write, the most significant first.
pub open spec fn be_value(b: Seq<u8>) -> nat
    decreases b.len(),
{
    if b.len() == 0 {
        0
    } else {
        be_value(b.drop_last()) * 256 + b.last() as nat
    }
}

/// `b` brought to 20 bytes by zeros in front.
pub open spec fn padded_20(b: Seq<u8>) -> Seq<u8> {
    zeros((20 - b.len()) as nat) + b
}

/// The order of byte strings: by the first byte that differs.
pub open spec fn bytes_le(a: Seq<u8>, b: Seq<u8>) -> bool
    decreases a.len(),
{
    ||| a.len() == 0
    ||| b.len() > 0 && (a[0] < b[0] || a[0] == b[0] && bytes_le(a.drop_first(), b.drop_first()))
}

/// Whether two byte strings are the same.
pub fn same_bytes(a: &[u8], b: &[u8]) -> (r: bool)
    ensures
        r == (a@ == b@),
{
    if a.len() != b.len() {
        return false;
    }
    let mut i: usize = 0;
    while i < a.len()
        invariant
            i <= a.len(),
            a.len() == b.len(),
            forall|j: int| 0 <= j < i ==> a@[j] == b@[j],
        decreases a.len() - i,
    {
        if a[i] != b[i] {
            return false;
        }
        i += 1;
    }
    assert(a@ =~= b@);
    true
}

/// Whether two 20-byte addresses are the same.
pub fn same_20(a: &[u8; 20], b: &[u8; 20]) -> (r: bool)
    ensures
        r == (*a == *b),
        r == (a@ == b@),
{
    let r = same_bytes(a.as_slice(), b.as_slice());
    if r {
        assert(*a =~= *b);
    }
    r
}

/// Whether two 8-byte addresses are the same.
pub fn same_8(a: &[u8; 8], b: &[u8; 8]) -> (r: bool)
    ensures
        r == (*a == *b),
        r == (a@ == b@),
{
    let r = same_bytes(a.as_slice(), b.as_slice());
    if r {
        assert(*a =~= *b);
    }
    r
}

/// Whether the address `a` comes before or at `b`.
pub fn address_le(a: &[u8; 20], b: &[u8; 20]) -> (r: bool)
    ensures
        r == bytes_le(a@, b@),
{
    let mut i: usize = 0;
    assert(a@.skip(0) =~= a@ && b@.skip(0) =~= b@);
    while i < 20
        invariant
            i <= 20,
            a@.len() == 20,
            b@.len() == 20,
            bytes_le(a@, b@) == bytes_le(a@.skip(i as int), b@.skip(i as int)),
        decreases 20 - i,
    {
        assert(a@.skip(i as int).drop_first() =~= a@.skip(i + 1));
        assert(b@.skip(i as int).drop_first() =~= b@.skip(i + 1));
        if a[i] != b[i] {
            return a[i] < b[i];
        }
        i += 1;
    }
    true
}

/// The 8 bytes of a slice of that length.
pub fn array_8(b: &[u8]) -> (r: [u8; 8])
    requires
        b@.len() == 8,
    ensures
        r@ == b@,
{
    let mut out: [u8; 8] = [0u8; 8];
    let mut i: usize = 0;
    while i < 8
        invariant
            i <= 8,
            b@.len() == 8,
            out@.len() == 8,
            forall|j: int| 0 <= j < i ==> out@[j] == b@[j],
        decreases 8 - i,
    {
        out[i] = b[i];
        i += 1;
    }
    assert(out@ =~= b@);
    out
}

/// The 20 bytes of a slice of that length.
pub fn array_20(b: &[u8]) -> (r: [u8; 20])
    requires
        b@.len() == 20,
    ensures
        r@ == b@,
{
    let mut out: [u8; 20] = [0u8; 20];
    let mut i: usize = 0;
    while i < 20
        invariant
            i <= 20,
            b@.len() == 20,
            out@.len() == 20,
            forall|j: int| 0 <= j < i ==> out@[j] == b@[j],
        decreases 20 - i,
    {
        out[i] = b[i];
        i += 1;
    }
    assert(out@ =~= b@);
    out
}

/// The 32 bytes of a slice of that length.
pub fn array_32(b: &[u8]) -> (r: [u8; 32])
    requires
        b@.len() == 32,
    ensures
        r@ == b@,
{
    let mut out: [u8; 32] = [0u8; 32];
    let mut i: usize = 0;
    while i < 32
        invariant
            i <= 32,
            b@.len() == 32,
            out@.len() == 32,
            forall|j: int| 0 <= j < i ==> out@[j] == b@[j],
        decreases 32 - i,
    {
        out[i] = b[i];
        i += 1;
    }
    assert(out@ =~= b@);
    out
}

/// An 8-byte address with 12 zero bytes in front.
pub fn pad_20(b: &[u8; 8]) -> (r: [u8; 20])
    ensures
        r@ == padded_20(b@),
{
    let mut out: [u8; 20] = [0u8; 20];
    let mut i: usize = 0;
    while i < 8
        invariant
            i <= 8,
            b@.len() == 8,
            out@.len() == 20,
            forall|j: int| 0 <= j < 12 ==> out@[j] == 0,
            forall|j: int| 12 <= j < 12 + i ==> out@[j] == b@[j - 12],
        decreases 8 - i,
    {
        out[12 + i] = b[i];
        i += 1;
    }
    assert(out@ =~= padded_20(b@));
    out
}

/// A number of `k` bytes is below the `k`-th power of 256.
pub proof fn lemma_be_value_bound(b: Seq<u8>)
    ensures
        be_value(b) < pow(256, b.len()),
    decreases b.len(),
{
    reveal(pow);
    if b.len() > 0 {
        lemma_be_value_bound(b.drop_last());
        let top = pow(256, (b.len() - 1) as nat);
        assert(pow(256, b.len()) == 256 * top);
    }
}

/// Reading the bytes of a number gives the number back.
pub proof fn lemma_be_value_of_bytes(n: nat, len: nat)
    requires
        n < pow(256, len),
    ensures
        be_value(be_bytes(n, len)) == n,
    decreases len,
{
    reveal(pow);
    if len > 0 {
        let shorter = (len - 1) as nat;
        let top = pow(256, shorter);
        assert(pow(256, len) == 256 * top);
        assert(n / 256 < top) by (nonlinear_arith)
            requires
                n < 256 * top,
        ;
        lemma_be_value_of_bytes(n / 256, shorter);
        lemma_be_bytes_len(n / 256, shorter);
        assert(be_bytes(n, len).drop_last() =~= be_bytes(n / 256, shorter));
    } else {
        assert(pow(256, 0) == 1);
    }
}

/// Eight bytes hold every 64-bit number and no larger one.
pub proof fn lemma_pow_256()
    ensures
        pow(256, 7) == 0x100_0000_0000_0000,
        pow(256, 8) == 0x1_0000_0000_0000_0000,
{
    reveal(pow);
    reveal_with_fuel(pow, 9);
    assert(pow(256, 7) == 256 * pow(256, 6));
    assert(pow(256, 8) == 256 * pow(256, 7));
}

/// The number that eight bytes write.
pub fn u64_of_bytes(b: &[u8]) -> (r: u64)
    requires
        b@.len() == 8,
    ensures
        r == be_value(b@),
{
    let mut acc: u64 = 0;
    let mut i: usize = 0;
    while i < 8
        invariant
            i <= 8,
            b@.len() == 8,
            acc == be_value(b@.take(i as int)),
        decreases 8 - i,
    {
        proof {
            lemma_be_value_bound(b@.take(i as int));
            vstd::arithmetic::power::lemma_pow_increases(256, i as nat, 7);
            lemma_pow_256();
            assert(b@.take(i + 1).drop_last() =~= b@.take(i as int));
        }
        acc = acc * 256 + b[i] as u64;
        i += 1;
    }
    assert(b@.take(8) =~= b@);
    acc
}

/// Appends the eight bytes of a number.
pub fn push_u64(out: &mut Vec<u8>, n: u64)
    ensures
        final(out)@ == old(out)@ + be_bytes(n as nat, 8),
{
    let mut word: [u8; 8] = [0u8; 8];
    let mut rest: u64 = n;
    let mut i: usize = 8;
    assert(word@.skip(8) =~= Seq::<u8>::empty());
    while i > 0
        invariant
            i <= 8,
            word@.len() == 8,
            be_bytes(n as nat, 8) == be_bytes(rest as nat, i as nat) + word@.skip(i as int),
        decreases i,
    {
        let ghost before = word@;
        proof {
            lemma_be_bytes_len(rest as nat / 256, (i - 1) as nat);
        }
        word[i - 1] = (rest % 256) as u8;
        assert(word@.skip(i - 1) =~= seq![(rest % 256) as u8] + before.skip(i as int));
        assert(be_bytes(rest as nat, i as nat) + before.skip(i as int) =~= be_bytes(
            (rest / 256) as nat,
            (i - 1) as nat,
        ) + word@.skip(i - 1));
        rest = rest / 256;
        i -= 1;
    }
    assert(be_bytes(n as nat, 8) =~= word@);
    push_all(out, word.as_slice());
}

/// Appends some bytes.
pub fn push_all(out: &mut Vec<u8>, b: &[u8])
    ensures
        final(out)@ == old(out)@ + b@,
{
    let ghost start = out@;
    let mut i: usize = 0;
    while i < b.len()
        invariant
            i <= b.len(),
            out@ == start + b@.take(i as int),
        decreases b.len() - i,
    {
        out.push(b[i]);
        i += 1;
        assert(start + b@.take(i as int) =~= (start + b@.take(i - 1)).push(b@[i - 1]));
    }
    assert(b@.take(i as int) =~= b@);
}

} // verus!
