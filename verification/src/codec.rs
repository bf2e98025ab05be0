//! Encodings, hashes, signatures and URLs: what the bridge takes from other
//! crates, each behind one small function.
use ethabi::Token;
use ethereum_types::{Address as EthAddress, U256};
use k256::ecdsa::SigningKey;
use sha3::Digest;
use url::Url;
use vstd::prelude::*;
use vstd::utf8::encode_utf8;
use crate::text::{cat, cat3, decimal, decimal_text, digit_char, hex_digit};

verus! {

/// Why a text is not hexadecimal.
#[derive(Clone, Copy, Debug, PartialEq, Eq, Structural)]
pub enum HexError {
    /// A byte that is no digit, and where it stands.
    InvalidHexCharacter { c: char, index: usize },
    /// The number of digits is odd.
    OddLength,
    /// The text does not fill a container of fixed size.
    InvalidStringLength,
}

/// The position of the first byte, from `from` on, that is no digit.
pub open spec fn first_non_hex(b: Seq<u8>, from: nat) -> nat
    decreases b.len() - from,
{
    if from >= b.len() || hex_digit(b[from as int] as char) is None {
        from
    } else {
        first_non_hex(b, from + 1)
    }
}

/// The byte that two digits write.
pub open spec fn hex_pair(hi: u8, lo: u8) -> u8 {
    (hex_digit(hi as char).unwrap_or(0) * 16 + hex_digit(lo as char).unwrap_or(0)) as u8
}

/// What the hexadecimal text with the bytes `b` stands for.
pub open spec fn hex_decoded(b: Seq<u8>) -> Result<Seq<u8>, HexError> {
    let bad = first_non_hex(b, 0);
    if b.len() % 2 != 0 {
        Err(HexError::OddLength)
    } else if bad < b.len() {
        Err(HexError::InvalidHexCharacter { c: b[bad as int] as char, index: bad as usize })
    } else {
        Ok(Seq::new(b.len() / 2, |i: int| hex_pair(b[2 * i], b[2 * i + 1])))
    }
}

/// The two lower case digits of each byte.
pub open spec fn hex_encoded(b: Seq<u8>) -> Seq<char> {
    Seq::new(
        2 * b.len(),
        |i: int| digit_char((if i % 2 == 0 { b[i / 2] / 16 } else { b[i / 2] % 16 }) as nat),
    )
}

/// `hex::decode`: pairs of digits of either case, read from the front; an odd
/// number of bytes is reported first, then the first byte that is no digit.
#[verifier::external_body]
pub(crate) fn hex_decode(text: &[u8]) -> (r: Result<Vec<u8>, HexError>)
    ensures
        match r {
            Ok(bytes) => hex_decoded(text@) == Ok::<Seq<u8>, HexError>(bytes@),
            Err(e) => hex_decoded(text@) == Err::<Seq<u8>, HexError>(e),
        },
{
    hex::decode(text).map_err(
        |e|
            match e {
                hex::FromHexError::InvalidHexCharacter { c, index } => {
                    HexError::InvalidHexCharacter { c, index }
                },
                hex::FromHexError::OddLength => HexError::OddLength,
                hex::FromHexError::InvalidStringLength => HexError::InvalidStringLength,
            },
    )
}

/// `hex::encode`: two lower case digits for each byte.
#[verifier::external_body]
pub(crate) fn hex_encode(bytes: &[u8]) -> (r: String)
    ensures
        r@ == hex_encoded(bytes@),
{
    hex::encode(bytes)
}

/// How the standard library writes a character in its `{:?}` format.
pub uninterp spec fn debug_char(c: char) -> Seq<char>;

/// The `{:?}` format of a `char`.
#[verifier::external_body]
fn debug_text(c: char) -> (r: String)
    ensures
        r@ == debug_char(c),
{
    format!("{:?}", c)
}

impl HexError {
    /// The text of the error.
    pub open spec fn text(self) -> Seq<char> {
        match self {
            HexError::InvalidHexCharacter { c, index } => "Invalid character "@ + debug_char(c)
                + " at position "@ + decimal(index as nat),
            HexError::OddLength => "Odd number of digits"@,
            HexError::InvalidStringLength => "Invalid string length"@,
        }
    }

    /// The text of the error.
    pub fn message(&self) -> (r: String)
        ensures
            r@ == self.text(),
    {
        match *self {
            HexError::InvalidHexCharacter { c, index } => {
                let head = cat3("Invalid character ", debug_text(c).as_str(), " at position ");
                cat(head.as_str(), decimal_text(index as u64).as_str())
            },
            HexError::OddLength => "Odd number of digits".to_owned(),
            HexError::InvalidStringLength => "Invalid string length".to_owned(),
        }
    }
}

/// The standard padded base64 text of some bytes.
pub uninterp spec fn base64_text(bytes: Seq<u8>) -> Seq<char>;

/// The bytes of a standard padded base64 text, if it is one.
pub uninterp spec fn base64_bytes(text: Seq<char>) -> Option<Seq<u8>>;

/// `base64::encode`. Decoding the text gives the bytes back.
#[verifier::external_body]
pub(crate) fn base64_encode(bytes: &[u8]) -> (r: String)
    ensures
        r@ == base64_text(bytes@),
        base64_bytes(r@) == Some(bytes@),
{
    base64::encode(bytes)
}

/// `base64::decode`; `None` where it reports an error.
#[verifier::external_body]
pub(crate) fn base64_decode(text: &str) -> (r: Option<Vec<u8>>)
    ensures
        match r {
            Some(bytes) => base64_bytes(text@) == Some(bytes@),
            None => base64_bytes(text@) is None,
        },
{
    base64::decode(text).ok()
}

/// The Keccak-256 hash of some bytes.
pub uninterp spec fn keccak(bytes: Seq<u8>) -> Seq<u8>;

/// `sha3::Keccak256::digest`.
#[verifier::external_body]
pub(crate) fn keccak256(bytes: &[u8]) -> (r: [u8; 32])
    ensures
        r@ == keccak(bytes@),
{
    sha3::Keccak256::digest(bytes).into()
}

/// `n` in `len` bytes, the most significant first.
pub open spec fn be_bytes(n: nat, len: nat) -> Seq<u8>
    decreases len,
{
    if len == 0 {
        Seq::empty()
    } else {
        be_bytes(n / 256, (len - 1) as nat).push((n % 256) as u8)
    }
}

/// `n` zero bytes.
pub open spec fn zeros(n: nat) -> Seq<u8> {
    Seq::new(n, |i: int| 0u8)
}

/// An argument of a contract call.
#[derive(Clone, Debug)]
pub enum AbiToken {
    Uint(u64),
    Address([u8; 20]),
    Word([u8; 32]),
    Text(String),
    Uints(Vec<u64>),
    Addresses(Vec<[u8; 20]>),
}

/// An [`AbiToken`] as sequences.
#[verifier::ext_equal]
pub enum AbiView {
    Uint(u64),
    Address(Seq<u8>),
    Word(Seq<u8>),
    Text(Seq<char>),
    Uints(Seq<u64>),
    Addresses(Seq<[u8; 20]>),
}

impl View for AbiToken {
    type V = AbiView;

    open spec fn view(&self) -> AbiView {
        match *self {
            AbiToken::Uint(n) => AbiView::Uint(n),
            AbiToken::Address(a) => AbiView::Address(a@),
            AbiToken::Word(w) => AbiView::Word(w@),
            AbiToken::Text(s) => AbiView::Text(s@),
            AbiToken::Uints(v) => AbiView::Uints(v@),
            AbiToken::Addresses(v) => AbiView::Addresses(v@),
        }
    }
}

impl AbiView {
    /// Whether the argument has a fixed size, and so no tail.
    pub open spec fn is_static(self) -> bool {
        self is Uint || self is Address || self is Word
    }
}

/// The words of a list of numbers.
pub open spec fn uint_words(v: Seq<u64>) -> Seq<u8>
    decreases v.len(),
{
    if v.len() == 0 {
        Seq::empty()
    } else {
        uint_words(v.drop_last()) + be_bytes(v.last() as nat, 32)
    }
}

/// The words of a list of addresses.
pub open spec fn address_words(v: Seq<[u8; 20]>) -> Seq<u8>
    decreases v.len(),
{
    if v.len() == 0 {
        Seq::empty()
    } else {
        address_words(v.drop_last()) + zeros(12) + v.last()@
    }
}

/// The views of a list of arguments.
pub open spec fn abi_views(ts: Seq<AbiToken>) -> Seq<AbiView> {
    Seq::new(ts.len(), |i: int| ts[i]@)
}

/// What stands for a token among the heads: a static one itself, in one word;
/// of a text or a list the offset of its tail.
pub open spec fn abi_head(t: AbiView, offset: nat) -> Seq<u8> {
    match t {
        AbiView::Uint(n) => be_bytes(n as nat, 32),
        AbiView::Address(a) => zeros(12) + a,
        AbiView::Word(w) => w,
        AbiView::Text(_) | AbiView::Uints(_) | AbiView::Addresses(_) => be_bytes(offset, 32),
    }
}

/// The tail of a token: of a text its length and its bytes, filled up with
/// zeros to whole words; of a list its length and its members, one word each.
pub open spec fn abi_tail(t: AbiView) -> Seq<u8> {
    match t {
        AbiView::Text(s) => {
            let b = encode_utf8(s);
            be_bytes(b.len(), 32) + b + zeros(((32 - b.len() % 32) % 32) as nat)
        },
        AbiView::Uints(v) => be_bytes(v.len(), 32) + uint_words(v),
        AbiView::Addresses(v) => be_bytes(v.len(), 32) + address_words(v),
        _ => Seq::empty(),
    }
}

/// The tails of all tokens.
pub open spec fn abi_tails(ts: Seq<AbiView>) -> Seq<u8>
    decreases ts.len(),
{
    if ts.len() == 0 {
        Seq::empty()
    } else {
        abi_tails(ts.drop_last()) + abi_tail(ts.last())
    }
}

/// The heads of all tokens, where `n` heads come before the first tail.
pub open spec fn abi_heads(ts: Seq<AbiView>, n: nat) -> Seq<u8>
    decreases ts.len(),
{
    if ts.len() == 0 {
        Seq::empty()
    } else {
        abi_heads(ts.drop_last(), n) + abi_head(
            ts.last(),
            32 * n + abi_tails(ts.drop_last()).len(),
        )
    }
}

/// The contract ABI's encoding of a list of arguments.
pub open spec fn abi_encoded(ts: Seq<AbiView>) -> Seq<u8> {
    abi_heads(ts, ts.len()) + abi_tails(ts)
}

/// The largest encoding that can be written.
pub const ABI_LIMIT: usize = 0x3ff_ffff;

/// `ethabi::encode` for numbers, addresses, 32-byte words, texts, and lists of
/// numbers or addresses: the heads, one word each, then the tails of the texts
/// and lists. It sets aside one word for each byte of the encoding, which has to
/// be possible on any machine.
#[verifier::external_body]
pub(crate) fn abi_encode(tokens: &Vec<AbiToken>) -> (r: Vec<u8>)
    requires
        abi_encoded(abi_views(tokens@)).len() <= ABI_LIMIT,
    ensures
        r@ == abi_encoded(abi_views(tokens@)),
{
    let address = |a: &[u8; 20]| Token::Address(EthAddress::from(*a));
    let uint = |n: &u64| Token::Uint(U256::from(*n));
    let tokens: Vec<Token> = tokens.iter().map(
        |t|
            match t {
                AbiToken::Uint(n) => uint(n),
                AbiToken::Address(a) => address(a),
                AbiToken::Word(w) => Token::FixedBytes(w.to_vec()),
                AbiToken::Text(s) => Token::String(s.clone()),
                AbiToken::Uints(v) => Token::Array(v.iter().map(uint).collect()),
                AbiToken::Addresses(v) => Token::Array(v.iter().map(address).collect()),
            },
    ).collect();
    ethabi::encode(&tokens)
}

/// Why nothing was signed.
#[derive(Clone, Copy, Debug, PartialEq, Eq, Structural)]
pub enum EthSignError {
    /// The secret is no key of the curve.
    InvalidKey,
    /// No signature came about.
    SignFailed,
}

impl EthSignError {
    /// The text of the error.
    pub open spec fn text(self) -> Seq<char> {
        match self {
            EthSignError::InvalidKey => "invalid secret key"@,
            EthSignError::SignFailed => "eth sign failed"@,
        }
    }

    /// The text of the error.
    pub fn message(&self) -> (r: String)
        ensures
            r@ == self.text(),
    {
        match *self {
            EthSignError::InvalidKey => "invalid secret key".to_owned(),
            EthSignError::SignFailed => "eth sign failed".to_owned(),
        }
    }
}

/// The secp256k1 signature of a hash under a secret, as its 64 bytes and its
/// recovery number, or why there is none.
pub uninterp spec fn recoverable_signature(secret: Seq<u8>, prehash: Seq<u8>) -> Result<
    (Seq<u8>, u8),
    EthSignError,
>;

/// `k256::ecdsa::SigningKey::from_slice`, then `sign_prehash_recoverable` with
/// that key. The nonce is derived from the key and the hash, so the signature
/// depends on nothing else. The recovery number is at most 3.
#[verifier::external_body]
pub(crate) fn sign_prehash(secret: &[u8; 32], prehash: &[u8; 32]) -> (r: Result<
    ([u8; 64], u8),
    EthSignError,
>)
    ensures
        match r {
            Ok((sig, id)) => id <= 3 && recoverable_signature(secret@, prehash@) == Ok::<
                (Seq<u8>, u8),
                EthSignError,
            >((sig@, id)),
            Err(e) => recoverable_signature(secret@, prehash@) == Err::<
                (Seq<u8>, u8),
                EthSignError,
            >(e),
        },
{
    let key = SigningKey::from_slice(secret).map_err(|_| EthSignError::InvalidKey)?;
    let (sig, id) = key.sign_prehash_recoverable(prehash).map_err(|_| EthSignError::SignFailed)?;
    Ok((sig.to_bytes().into(), id.to_byte()))
}

/// The normal form of a URL, if the text is one.
pub uninterp spec fn url_normal(text: Seq<char>) -> Option<Seq<char>>;

/// The URL with another scheme, unless the change is refused.
pub uninterp spec fn url_with_scheme(url: Seq<char>, scheme: Seq<char>) -> Option<Seq<char>>;

/// The port that the URL names, unless it is the default of its scheme.
pub uninterp spec fn url_port(url: Seq<char>) -> Option<u16>;

/// The URL with another port, unless the change is refused.
pub uninterp spec fn url_with_port(url: Seq<char>, port: u16) -> Option<Seq<char>>;

/// `url::Url::parse`, with the URL given as its serialization.
#[verifier::external_body]
pub(crate) fn parse_url(text: &str) -> (r: Option<String>)
    ensures
        match r {
            Some(url) => url_normal(text@) == Some(url@),
            None => url_normal(text@) is None,
        },
{
    Url::parse(text).ok().map(String::from)
}

/// `url::Url::set_scheme` on the URL with this serialization; `None` where the
/// text is no URL or the scheme is refused.
#[verifier::external_body]
pub(crate) fn set_url_scheme(url: &str, scheme: &str) -> (r: Option<String>)
    ensures
        match r {
            Some(u) => url_with_scheme(url@, scheme@) == Some(u@),
            None => url_with_scheme(url@, scheme@) is None,
        },
{
    let mut url = Url::parse(url).ok()?;
    url.set_scheme(scheme).ok()?;
    Some(String::from(url))
}

/// `url::Url::port` on the URL with this serialization; `None` also where the
/// text is no URL.
#[verifier::external_body]
pub(crate) fn port_of_url(url: &str) -> (r: Option<u16>)
    ensures
        r == url_port(url@),
{
    Url::parse(url).ok()?.port()
}

/// `url::Url::set_port` on the URL with this serialization; `None` where the
/// text is no URL or the port is refused.
#[verifier::external_body]
pub(crate) fn set_url_port(url: &str, port: u16) -> (r: Option<String>)
    ensures
        match r {
            Some(u) => url_with_port(url@, port) == Some(u@),
            None => url_with_port(url@, port) is None,
        },
{
    let mut url = Url::parse(url).ok()?;
    url.set_port(Some(port)).ok()?;
    Some(String::from(url))
}

/// Numbers that fit in `len` bytes and have the same bytes are the same.
pub proof fn lemma_be_bytes_injective(a: nat, b: nat, len: nat)
    requires
        a < vstd::arithmetic::power::pow(256, len),
        b < vstd::arithmetic::power::pow(256, len),
        be_bytes(a, len) == be_bytes(b, len),
    ensures
        a == b,
    decreases len,
{
    reveal(vstd::arithmetic::power::pow);
    if len > 0 {
        let shorter = (len - 1) as nat;
        let x = be_bytes(a, len);
        let y = be_bytes(b, len);
        assert(x.drop_last() =~= be_bytes(a / 256, shorter));
        assert(y.drop_last() =~= be_bytes(b / 256, shorter));
        assert(x.last() == y.last());
        assert(a % 256 == b % 256);
        let top = vstd::arithmetic::power::pow(256, shorter);
        assert(vstd::arithmetic::power::pow(256, len) == 256 * top);
        assert(a / 256 < top) by (nonlinear_arith)
            requires
                a < 256 * top,
        ;
        assert(b / 256 < top) by (nonlinear_arith)
            requires
                b < 256 * top,
        ;
        lemma_be_bytes_injective(a / 256, b / 256, shorter);
    }
}

/// The bytes of a number have the length that was asked for.
pub proof fn lemma_be_bytes_len(n: nat, len: nat)
    ensures
        be_bytes(n, len).len() == len,
    decreases len,
{
    if len > 0 {
        lemma_be_bytes_len(n / 256, (len - 1) as nat);
    }
}

} // verus!
