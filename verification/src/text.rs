//! Text: what the string operations of the bridge mean on sequences of
//! characters, and the operations themselves.
use vstd::prelude::*;
use vstd::string::*;

verus! {

/// The Unicode `White_Space` property.
pub open spec fn is_white_space(c: char) -> bool {
    let v = c as u32;
    ||| 0x9 <= v <= 0xD
    ||| v == 0x20
    ||| v == 0x85
    ||| v == 0xA0
    ||| v == 0x1680
    ||| 0x2000 <= v <= 0x200A
    ||| v == 0x2028
    ||| v == 0x2029
    ||| v == 0x202F
    ||| v == 0x205F
    ||| v == 0x3000
}

/// `s` without its leading white space.
pub open spec fn trimmed_start(s: Seq<char>) -> Seq<char>
    decreases s.len(),
{
    if s.len() > 0 && is_white_space(s[0]) {
        trimmed_start(s.drop_first())
    } else {
        s
    }
}

/// `s` without its trailing white space.
pub open spec fn trimmed_end(s: Seq<char>) -> Seq<char>
    decreases s.len(),
{
    if s.len() > 0 && is_white_space(s.last()) {
        trimmed_end(s.drop_last())
    } else {
        s
    }
}

/// `s` without white space at either end.
pub open spec fn trimmed(s: Seq<char>) -> Seq<char> {
    trimmed_end(trimmed_start(s))
}

/// Whether nothing but white space stands in `s`.
pub open spec fn is_blank(s: Seq<char>) -> bool {
    trimmed(s).len() == 0
}

/// Whether `s` begins with `prefix`.
pub open spec fn has_prefix(s: Seq<char>, prefix: Seq<char>) -> bool {
    prefix.len() <= s.len() && s.take(prefix.len() as int) == prefix
}

/// `s` with `prefix` taken off its front as often as it stands there.
pub open spec fn without_prefixes(s: Seq<char>, prefix: Seq<char>) -> Seq<char>
    decreases s.len(),
{
    if prefix.len() > 0 && has_prefix(s, prefix) {
        without_prefixes(s.skip(prefix.len() as int), prefix)
    } else {
        s
    }
}

/// The digits of a number written in hexadecimal, after any `0x` marks.
pub open spec fn hex_body(s: Seq<char>) -> Seq<char> {
    without_prefixes(s, "0x"@)
}

/// Whether `part` stands in `s` at position `i`.
pub open spec fn occurs_at(s: Seq<char>, part: Seq<char>, i: int) -> bool {
    0 <= i && i + part.len() <= s.len() && s.subrange(i, i + part.len()) == part
}

/// Whether `part` stands anywhere in `s`.
pub open spec fn occurs_in(s: Seq<char>, part: Seq<char>) -> bool {
    exists|i: int| #[trigger] occurs_at(s, part, i)
}

/// `s` with its leftmost occurrence of `from`, if any, turned into `to`.
pub open spec fn first_replaced(s: Seq<char>, from: Seq<char>, to: Seq<char>) -> Seq<char>
    decreases s.len(),
{
    if has_prefix(s, from) {
        to + s.skip(from.len() as int)
    } else if s.len() == 0 {
        s
    } else {
        seq![s[0]] + first_replaced(s.drop_first(), from, to)
    }
}

/// The lower case form of an ASCII letter; any other character itself.
pub open spec fn ascii_lower(c: char) -> char {
    if 'A' <= c <= 'Z' {
        (c as u32 + 32) as char
    } else {
        c
    }
}

/// `s` with its ASCII letters in lower case.
pub open spec fn ascii_lowered(s: Seq<char>) -> Seq<char> {
    Seq::new(s.len(), |i: int| ascii_lower(s[i]))
}

/// The value of a hexadecimal digit, of either case.
pub open spec fn hex_digit(c: char) -> Option<nat> {
    if '0' <= c <= '9' {
        Some((c as u32 - '0' as u32) as nat)
    } else if 'a' <= c <= 'f' {
        Some((c as u32 - 'a' as u32 + 10) as nat)
    } else if 'A' <= c <= 'F' {
        Some((c as u32 - 'A' as u32 + 10) as nat)
    } else {
        None
    }
}

/// Whether every character of `s` is a hexadecimal digit.
pub open spec fn all_hex(s: Seq<char>) -> bool {
    forall|i: int| 0 <= i < s.len() ==> hex_digit(#[trigger] s[i]) is Some
}

/// The number that the digits `s` write in base sixteen.
pub open spec fn hex_value(s: Seq<char>) -> nat
    decreases s.len(),
{
    if s.len() == 0 {
        0
    } else {
        hex_value(s.drop_last()) * 16 + hex_digit(s.last()).unwrap_or(0)
    }
}

/// The number in a text of one or more hexadecimal digits, with a plus sign
/// in front at most; none for another text or a number over 64 bits.
pub open spec fn hex_number(s: Seq<char>) -> Option<u64> {
    let digits = if s.len() > 0 && s[0] == '+' {
        s.drop_first()
    } else {
        s
    };
    if digits.len() > 0 && all_hex(digits) && hex_value(digits) <= u64::MAX {
        Some(hex_value(digits) as u64)
    } else {
        None
    }
}

/// The character for a digit below sixteen.
pub open spec fn digit_char(d: nat) -> char {
    if d < 10 {
        ('0' as u32 + d) as char
    } else {
        ('a' as u32 + (d - 10)) as char
    }
}

/// `n` in base `base`, without leading zeros.
pub open spec fn digits_of(n: nat, base: nat) -> Seq<char>
    decreases n,
{
    if base < 2 || n < base {
        seq![digit_char(n)]
    } else {
        proof {
            assert(n / base < n) by (nonlinear_arith)
                requires
                    base >= 2,
                    n >= base,
            ;
        }
        digits_of(n / base, base).push(digit_char(n % base))
    }
}

/// `n` in decimal.
pub open spec fn decimal(n: nat) -> Seq<char> {
    digits_of(n, 10)
}

/// The texts, with `sep` between each two.
pub open spec fn joined(parts: Seq<Seq<char>>, sep: Seq<char>) -> Seq<char>
    decreases parts.len(),
{
    if parts.len() == 0 {
        Seq::empty()
    } else if parts.len() == 1 {
        parts[0]
    } else {
        joined(parts.drop_last(), sep) + sep + parts.last()
    }
}

/// The views of a list of strings.
pub open spec fn texts(v: Seq<String>) -> Seq<Seq<char>> {
    Seq::new(v.len(), |i: int| v[i]@)
}

/// `str::trim`: the text without leading and trailing Unicode white space.
pub assume_specification[ str::trim ](s: &str) -> (r: &str)
    ensures
        r@ == trimmed(s@),
;

/// `str::to_ascii_lowercase`: a copy with `A` to `Z` turned into `a` to `z`.
pub assume_specification[ str::to_ascii_lowercase ](s: &str) -> (r: String)
    ensures
        r@ == ascii_lowered(s@),
;

/// `str::trim_start_matches` for a text pattern: the prefix is removed
/// repeatedly. An empty pattern is left out.
#[verifier::external_body]
fn strip_repeated<'a>(s: &'a str, prefix: &str) -> (r: &'a str)
    requires
        prefix@.len() > 0,
    ensures
        r@ == without_prefixes(s@, prefix@),
{
    s.trim_start_matches(prefix)
}

/// The digits of a number written in hexadecimal, after any `0x` marks.
pub fn strip_0x<'a>(s: &'a str) -> (r: &'a str)
    ensures
        r@ == hex_body(s@),
{
    proof {
        reveal_strlit("0x");
    }
    strip_repeated(s, "0x")
}

/// `str::strip_prefix` for a text pattern: what follows the prefix, or `None`
/// where the text does not begin with it.
#[verifier::external_body]
pub(crate) fn after_prefix<'a>(s: &'a str, prefix: &str) -> (r: Option<&'a str>)
    ensures
        r is Some <==> has_prefix(s@, prefix@),
        r matches Some(rest) ==> rest@ == s@.skip(prefix@.len() as int),
{
    s.strip_prefix(prefix)
}

/// `str::contains` for a text pattern.
#[verifier::external_body]
pub(crate) fn contains_text(s: &str, part: &str) -> (r: bool)
    ensures
        r == occurs_in(s@, part@),
{
    s.contains(part)
}

/// `str::replacen` with a count of one: the first match of a non-empty pattern
/// is replaced, the rest of the text is kept.
#[verifier::external_body]
pub(crate) fn replace_first(s: &str, from: &str, to: &str) -> (r: String)
    requires
        from@.len() > 0,
    ensures
        r@ == first_replaced(s@, from@, to@),
{
    s.replacen(from, to, 1)
}

/// `u64::from_str_radix` in base sixteen: an optional plus sign, then digits;
/// an error for any other text and for a value that does not fit.
#[verifier::external_body]
pub(crate) fn parse_hex_number(s: &str) -> (r: Option<u64>)
    ensures
        r == hex_number(s@),
{
    u64::from_str_radix(s, 16).ok()
}

/// `u64::to_string`: the decimal digits.
#[verifier::external_body]
pub(crate) fn decimal_text(n: u64) -> (r: String)
    ensures
        r@ == decimal(n as nat),
{
    n.to_string()
}

/// The `{:x}` format of a `u64`: lower case hexadecimal digits, no prefix.
#[verifier::external_body]
pub(crate) fn hex_text_of(n: u64) -> (r: String)
    ensures
        r@ == digits_of(n as nat, 16),
{
    format!("{:x}", n)
}

/// Whether two texts are the same.
pub fn same_text(a: &str, b: &str) -> (r: bool)
    ensures
        r == (a@ == b@),
{
    a.to_owned() == b.to_owned()
}

/// Whether a text holds nothing but white space.
pub fn blank(s: &str) -> (r: bool)
    ensures
        r == is_blank(s@),
{
    s.trim().is_empty()
}

/// `a` followed by `b`.
pub fn cat(a: &str, b: &str) -> (r: String)
    ensures
        r@ == a@ + b@,
{
    let mut s = a.to_owned();
    s.append(b);
    s
}

/// `a`, `b` and `c` in a row.
pub fn cat3(a: &str, b: &str, c: &str) -> (r: String)
    ensures
        r@ == a@ + b@ + c@,
{
    let mut s = a.to_owned();
    s.append(b);
    s.append(c);
    s
}

/// The texts of `parts`, with `sep` between each two.
pub fn join(parts: &Vec<String>, sep: &str) -> (r: String)
    ensures
        r@ == joined(texts(parts@), sep@),
{
    let mut out = String::new();
    let mut i: usize = 0;
    assert(texts(parts@).take(0) =~= Seq::empty());
    while i < parts.len()
        invariant
            i <= parts.len(),
            out@ == joined(texts(parts@).take(i as int), sep@),
        decreases parts.len() - i,
    {
        let ghost before = texts(parts@).take(i as int);
        if i > 0 {
            out.append(sep);
        }
        out.append(parts[i].as_str());
        i += 1;
        proof {
            let now = texts(parts@).take(i as int);
            assert(now.drop_last() =~= before);
            assert(now.last() == parts@[i - 1]@);
            if i == 1 {
                assert(before =~= Seq::empty());
                assert(out@ =~= now[0]);
            }
        }
    }
    assert(texts(parts@).take(i as int) =~= texts(parts@));
    out
}

/// Whether one of the texts in `v` is `s`.
pub fn has_text(v: &Vec<String>, s: &str) -> (r: bool)
    ensures
        r == texts(v@).contains(s@),
{
    let mut i: usize = 0;
    while i < v.len()
        invariant
            i <= v.len(),
            forall|j: int| 0 <= j < i ==> v@[j]@ != s@,
        decreases v.len() - i,
    {
        if same_text(v[i].as_str(), s) {
            assert(texts(v@)[i as int] == s@);
            return true;
        }
        i += 1;
    }
    assert(forall|j: int| 0 <= j < v@.len() ==> texts(v@)[j] == v@[j]@);
    false
}

/// Trimming text that has no white space at either end changes nothing.
pub proof fn lemma_trim_of_trimmed(s: Seq<char>)
    requires
        s.len() > 0,
        !is_white_space(s[0]),
        !is_white_space(s.last()),
    ensures
        trimmed(s) == s,
{
}

/// Taking white space off the front of a text leaves nothing only if there was
/// nothing else.
proof fn lemma_trimmed_start(s: Seq<char>)
    ensures
        trimmed_start(s).len() <= s.len(),
        trimmed_start(s).len() == 0 <==> forall|i: int|
            0 <= i < s.len() ==> is_white_space(#[trigger] s[i]),
        trimmed_start(s).len() > 0 ==> !is_white_space(trimmed_start(s)[0]),
    decreases s.len(),
{
    if s.len() > 0 && is_white_space(s[0]) {
        let rest = s.drop_first();
        lemma_trimmed_start(rest);
        assert forall|i: int| 0 < i < s.len() implies s[i] == rest[i - 1] by {}
        if forall|i: int| 0 <= i < rest.len() ==> is_white_space(#[trigger] rest[i]) {
            assert forall|i: int| 0 <= i < s.len() implies is_white_space(#[trigger] s[i]) by {
                if i > 0 {
                    assert(s[i] == rest[i - 1]);
                }
            }
        }
        if forall|i: int| 0 <= i < s.len() ==> is_white_space(#[trigger] s[i]) {
            assert forall|i: int| 0 <= i < rest.len() implies is_white_space(
                #[trigger] rest[i],
            ) by {
                assert(rest[i] == s[i + 1]);
            }
        }
    }
}

/// Taking white space off the end of a text that begins with something else
/// leaves something.
proof fn lemma_trimmed_end(s: Seq<char>)
    requires
        s.len() > 0,
        !is_white_space(s[0]),
    ensures
        trimmed_end(s).len() > 0,
    decreases s.len(),
{
    if is_white_space(s.last()) {
        assert(s.drop_last()[0] == s[0]);
        lemma_trimmed_end(s.drop_last());
    }
}

/// A text is blank if and only if every character of it is white space.
pub proof fn law_blank_is_white_space(s: Seq<char>)
    ensures
        is_blank(s) <==> forall|i: int| 0 <= i < s.len() ==> is_white_space(#[trigger] s[i]),
{
    lemma_trimmed_start(s);
    let t = trimmed_start(s);
    if t.len() > 0 {
        lemma_trimmed_end(t);
    }
}

/// Texts are put one behind the other with the separator between each two.
pub proof fn law_joined_texts_are_separated(
    parts: Seq<Seq<char>>,
    part: Seq<char>,
    sep: Seq<char>,
)
    ensures
        joined(Seq::empty(), sep).len() == 0,
        joined(seq![part], sep) == part,
        parts.len() > 0 ==> joined(parts.push(part), sep) == joined(parts, sep) + sep + part,
{
    assert(parts.push(part).drop_last() =~= parts);
}

} // verus!
