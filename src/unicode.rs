//! Unicode models: UTF-16 code units, counting replacement characters, and
//! the std conversions between text and UTF-8 or UTF-16.
use vstd::prelude::*;
use vstd::utf8::*;

verus! {

/// U+FFFD, the character that stands for input that could not be decoded.
pub open spec fn replacement() -> char {
    '\u{FFFD}'
}

/// How many replacement characters a text holds.
pub open spec fn replacement_count(s: Seq<char>) -> nat
    decreases s.len(),
{
    if s.len() == 0 {
        0
    } else {
        (if s[0] == replacement() { 1nat } else { 0nat }) + replacement_count(s.drop_first())
    }
}

pub open spec fn is_high_surrogate(u: u16) -> bool {
    0xD800 <= u <= 0xDBFF
}

pub open spec fn is_low_surrogate(u: u16) -> bool {
    0xDC00 <= u <= 0xDFFF
}

pub open spec fn is_surrogate(u: u16) -> bool {
    0xD800 <= u <= 0xDFFF
}

/// The UTF-16 code units of one character.
pub open spec fn char_units(c: char) -> Seq<u16> {
    let v = c as u32;
    if v < 0x10000 {
        seq![v as u16]
    } else {
        let w = (v - 0x10000) as u32;
        seq![(0xD800 + w / 0x400) as u16, (0xDC00 + w % 0x400) as u16]
    }
}

/// The UTF-16 code units of a text.
pub open spec fn utf16_encode(s: Seq<char>) -> Seq<u16>
    decreases s.len(),
{
    if s.len() == 0 {
        Seq::empty()
    } else {
        char_units(s[0]) + utf16_encode(s.drop_first())
    }
}

/// The scalar value that a surrogate pair stands for.
pub open spec fn pair_scalar(hi: u16, lo: u16) -> u32 {
    (0x10000 + (hi - 0xD800) * 0x400 + (lo - 0xDC00)) as u32
}

/// Decodes code units, with one replacement character for each unpaired
/// surrogate.
pub open spec fn utf16_chars(u: Seq<u16>) -> Seq<char>
    decreases u.len(),
{
    if u.len() == 0 {
        Seq::empty()
    } else if u.len() >= 2 && is_high_surrogate(u[0]) && is_low_surrogate(u[1]) {
        seq![pair_scalar(u[0], u[1]) as char] + utf16_chars(u.subrange(2, u.len() as int))
    } else if is_surrogate(u[0]) {
        seq![replacement()] + utf16_chars(u.drop_first())
    } else {
        seq![(u[0] as u32) as char] + utf16_chars(u.drop_first())
    }
}

/// How many unpaired surrogates the code units hold.
pub open spec fn utf16_unpaired(u: Seq<u16>) -> nat
    decreases u.len(),
{
    if u.len() == 0 {
        0
    } else if u.len() >= 2 && is_high_surrogate(u[0]) && is_low_surrogate(u[1]) {
        utf16_unpaired(u.subrange(2, u.len() as int))
    } else if is_surrogate(u[0]) {
        1 + utf16_unpaired(u.drop_first())
    } else {
        utf16_unpaired(u.drop_first())
    }
}

/// The replacement characters of a concatenation are those of its parts.
pub proof fn lemma_replacement_count_concat(a: Seq<char>, b: Seq<char>)
    ensures
        replacement_count(a + b) == replacement_count(a) + replacement_count(b),
    decreases a.len(),
{
    if a.len() == 0 {
        assert(a + b =~= b);
    } else {
        assert((a + b).drop_first() =~= a.drop_first() + b);
        lemma_replacement_count_concat(a.drop_first(), b);
    }
}

/// A text that holds a replacement character counts at least one.
pub proof fn lemma_replacement_count_positive(s: Seq<char>)
    requires
        s.contains(replacement()),
    ensures
        replacement_count(s) >= 1,
    decreases s.len(),
{
    if s[0] != replacement() {
        let i = choose|i: int| 0 <= i < s.len() && s[i] == replacement();
        assert(s.drop_first()[i - 1] == replacement());
        lemma_replacement_count_positive(s.drop_first());
    }
}

/// Decoding puts a replacement character at least where each unpaired
/// surrogate stood.
pub proof fn lemma_utf16_replacements(u: Seq<u16>)
    ensures
        replacement_count(utf16_chars(u)) >= utf16_unpaired(u),
    decreases u.len(),
{
    if u.len() == 0 {
    } else {
        let rest = if u.len() >= 2 && is_high_surrogate(u[0]) && is_low_surrogate(u[1]) {
            u.subrange(2, u.len() as int)
        } else {
            u.drop_first()
        };
        let c = utf16_chars(u)[0];
        lemma_utf16_replacements(rest);
        lemma_replacement_count_concat(seq![c], utf16_chars(rest));
        assert(utf16_chars(u) =~= seq![c] + utf16_chars(rest));
        assert(replacement_count(seq![c]) == if c == replacement() { 1nat } else { 0nat }) by {
            assert(seq![c].drop_first() =~= Seq::<char>::empty());
            assert(replacement_count(Seq::<char>::empty()) == 0);
        }
    }
}

/// The code units of one character decode back to it, ahead of any further
/// units.
proof fn lemma_char_units_decode(c: char, rest: Seq<u16>)
    ensures
        utf16_chars(char_units(c) + rest) == seq![c] + utf16_chars(rest),
        utf16_unpaired(char_units(c) + rest) == utf16_unpaired(rest),
{
    broadcast use char_is_scalar, char_u32_cast;

    let v = c as u32;
    let u = char_units(c) + rest;
    assert(is_scalar(v));
    if v < 0x10000 {
        assert(u.drop_first() =~= rest);
        assert(!is_surrogate(v as u16));
        assert(((v as u16) as u32) == v);
    } else {
        let w = (v - 0x10000) as u32;
        let hi = (0xD800 + w / 0x400) as u16;
        let lo = (0xDC00 + w % 0x400) as u16;
        assert(w < 0x100000);
        assert(w / 0x400 < 0x400 && w % 0x400 < 0x400) by (nonlinear_arith)
            requires w < 0x100000;
        assert(w == (w / 0x400) * 0x400 + w % 0x400) by (nonlinear_arith);
        assert(is_high_surrogate(hi) && is_low_surrogate(lo));
        assert(u[0] == hi && u[1] == lo);
        assert(u.subrange(2, u.len() as int) =~= rest);
        assert(pair_scalar(hi, lo) == v);
    }
}

/// Decoding the code units of a text gives the text back, with no unpaired
/// surrogate.
pub proof fn lemma_utf16_round_trip(s: Seq<char>)
    ensures
        utf16_chars(utf16_encode(s)) == s,
        utf16_unpaired(utf16_encode(s)) == 0,
    decreases s.len(),
{
    if s.len() == 0 {
    } else {
        lemma_utf16_round_trip(s.drop_first());
        lemma_char_units_decode(s[0], utf16_encode(s.drop_first()));
        assert(seq![s[0]] + s.drop_first() =~= s);
    }
}

/// The name for what `String::from_utf8_lossy` makes of bytes that are not
/// valid UTF-8.
pub uninterp spec fn utf8_lossy_of(b: Seq<u8>) -> Seq<char>;

/// Relies on `str::encode_utf16`: the UTF-16 code units of the text, in order.
#[verifier::external_body]
pub(crate) fn encode_utf16_units(s: &str) -> (r: Vec<u16>)
    ensures
        r@ == utf16_encode(s@),
{
    s.encode_utf16().collect()
}

/// Relies on `String::from_utf16`: it fails exactly on unpaired surrogates.
#[verifier::external_body]
pub(crate) fn from_utf16_strict(u: &[u16]) -> (r: Option<String>)
    ensures
        r is Some <==> utf16_unpaired(u@) == 0,
        r matches Some(s) ==> s@ == utf16_chars(u@),
{
    String::from_utf16(u).ok()
}

/// Relies on `String::from_utf16_lossy`: each unpaired surrogate becomes U+FFFD.
#[verifier::external_body]
pub(crate) fn from_utf16_lossy(u: &[u16]) -> (r: String)
    ensures
        r@ == utf16_chars(u@),
{
    String::from_utf16_lossy(u)
}

/// Relies on `std::str::from_utf8`: it succeeds exactly on valid UTF-8.
#[verifier::external_body]
pub(crate) fn from_utf8_strict(b: &[u8]) -> (r: Option<&str>)
    ensures
        r is Some <==> valid_utf8(b@),
        r matches Some(s) ==> s@ == decode_utf8(b@),
{
    std::str::from_utf8(b).ok()
}

/// Relies on `String::from_utf8_lossy`: invalid sequences become U+FFFD.
#[verifier::external_body]
pub(crate) fn from_utf8_lossy(b: &[u8]) -> (r: String)
    ensures
        r@ == utf8_lossy_of(b@),
        !valid_utf8(b@) ==> r@.contains(replacement()),
{
    String::from_utf8_lossy(b).into_owned()
}

} // verus!
