//! Resolution of a code page number into a coding, and the conversions that a
//! coding performs.
use vstd::prelude::*;
use vstd::slice::slice_to_vec;
use vstd::string::StringExecFns;
use vstd::utf8::{decode_utf8, encode_utf8, valid_utf8};
use crate::error::ConvertError;
use crate::tables::{
    general_decode, general_decoding_of, general_encode, general_encoding_of, general_table_pages,
    has_general_table, has_oem_decoding_table, has_oem_encoding_table, lemma_oem_replacements,
    lemma_oem_unmapped_positive,
    oem_all_mapped, oem_decode, oem_decode_lossy, oem_decoded_lossy, oem_decoding_pages,
    oem_decoding_table, oem_encode, oem_encoded, oem_encoding_pages, oem_encoding_table,
    oem_unmapped_count, MAX_TABLE_INPUT,
};
use crate::unicode::{
    encode_utf16_units, from_utf16_lossy, from_utf16_strict, from_utf8_lossy, from_utf8_strict,
    lemma_replacement_count_concat, lemma_replacement_count_positive, lemma_utf16_replacements,
    replacement, replacement_count, utf16_chars, utf16_encode, utf16_unpaired, utf8_lossy_of,
};

verus! {

/// Byte order of UTF-16 code units.
#[derive(Debug, Clone, Copy, PartialEq, Eq, Structural)]
pub enum Endian {
    /// Low byte first.
    LE,
    /// High byte first.
    BE,
}

/// What a coding converts with.
#[derive(Debug, Clone, Copy, PartialEq, Eq, Structural)]
pub enum Backend {
    /// A general encoding of `encoding_rs`, for the page it is known by.
    LargeTable(u16),
    /// The single-byte OEM tables of `oem_cp`, for the page they are known by.
    OemTable(u16),
    /// UTF-16 code units in the given byte order.
    Utf16(Endian),
    /// UTF-8, passed through as it is.
    Identity,
}

/// Coding information derived from a Windows code page.
#[derive(Debug, Clone, Copy)]
pub struct Coding {
    backend: Backend,
}

/// The pages that are recognised but deliberately not supported: UTF-32LE,
/// UTF-32BE and UTF-7.
pub open spec fn unsupported_page(cp: u16) -> bool {
    cp == 12000 || cp == 12001 || cp == 65000
}

/// What a code page number resolves to, in order of precedence.
pub open spec fn resolved(cp: u16) -> Result<Backend, ConvertError> {
    if cp == 65001 {
        Ok(Backend::Identity)
    } else if cp == 1200 {
        Ok(Backend::Utf16(Endian::LE))
    } else if cp == 1201 {
        Ok(Backend::Utf16(Endian::BE))
    } else if unsupported_page(cp) {
        Err(ConvertError::UnsupportedCodepage)
    } else if general_table_pages().contains(cp) {
        Ok(Backend::LargeTable(cp))
    } else if oem_encoding_pages().contains(cp) && oem_decoding_pages().contains(cp) {
        Ok(Backend::OemTable(cp))
    } else {
        Err(ConvertError::UnknownCodepage)
    }
}

/// One of the two bytes of a code unit: `k` is 0 for the first, 1 for the
/// second.
pub open spec fn unit_byte(w: u16, endian: Endian, k: int) -> u8 {
    let lo = (w % 256) as u8;
    let hi = (w / 256) as u8;
    match endian {
        Endian::LE => if k == 0 { lo } else { hi },
        Endian::BE => if k == 0 { hi } else { lo },
    }
}

/// Code units laid out as bytes, two for each.
pub open spec fn pack_units(u: Seq<u16>, endian: Endian) -> Seq<u8> {
    Seq::new(2 * u.len(), |k: int| unit_byte(u[k / 2], endian, k % 2))
}

/// The code unit of two bytes.
pub open spec fn join_bytes(first: u8, second: u8, endian: Endian) -> u16 {
    match endian {
        Endian::LE => (second * 256 + first) as u16,
        Endian::BE => (first * 256 + second) as u16,
    }
}

/// The code units of bytes taken two at a time; an odd last byte is left over.
pub open spec fn units_of(b: Seq<u8>, endian: Endian) -> Seq<u16> {
    Seq::new(b.len() / 2, |j: int| join_bytes(b[2 * j], b[2 * j + 1], endian))
}

/// The bytes of a text under a backend, or the error.
pub open spec fn encoded(backend: Backend, text: Seq<char>) -> Result<Seq<u8>, ConvertError> {
    match backend {
        Backend::LargeTable(page) => {
            let (bytes, unmappable) = general_encoding_of(page, text);
            if unmappable {
                Err(ConvertError::StringEncoding)
            } else {
                Ok(bytes)
            }
        },
        Backend::OemTable(page) => match oem_encoded(oem_encoding_table(page), text) {
            Some(bytes) => Ok(bytes),
            None => Err(ConvertError::StringEncoding),
        },
        Backend::Utf16(endian) => Ok(pack_units(utf16_encode(text), endian)),
        Backend::Identity => Ok(encode_utf8(text)),
    }
}

/// Whether lossy decoding of the bytes under a backend substitutes anything.
pub open spec fn substitutes(backend: Backend, bytes: Seq<u8>) -> bool {
    match backend {
        Backend::LargeTable(page) => general_decoding_of(page, bytes).1,
        Backend::OemTable(page) => !oem_all_mapped(oem_decoding_table(page), bytes),
        Backend::Utf16(endian) => bytes.len() % 2 == 1 || utf16_unpaired(units_of(bytes, endian))
            > 0,
        Backend::Identity => !valid_utf8(bytes),
    }
}

/// The text of bytes under a backend, with U+FFFD for what is invalid. Under
/// UTF-16 an odd last byte is one invalid unit, whatever the byte order.
pub open spec fn decoded_lossy(backend: Backend, bytes: Seq<u8>) -> Seq<char> {
    match backend {
        Backend::LargeTable(page) => general_decoding_of(page, bytes).0,
        Backend::OemTable(page) => oem_decoded_lossy(oem_decoding_table(page), bytes),
        Backend::Utf16(endian) => {
            let text = utf16_chars(units_of(bytes, endian));
            if bytes.len() % 2 == 1 {
                text.push(replacement())
            } else {
                text
            }
        },
        Backend::Identity => if valid_utf8(bytes) {
            decode_utf8(bytes)
        } else {
            utf8_lossy_of(bytes)
        },
    }
}

/// The text of bytes under a backend, or the error where anything is invalid.
pub open spec fn decoded(backend: Backend, bytes: Seq<u8>) -> Result<Seq<char>, ConvertError> {
    if substitutes(backend, bytes) {
        Err(ConvertError::StringDecoding)
    } else {
        Ok(decoded_lossy(backend, bytes))
    }
}

/// The invalid units of the bytes that the decoders make known: each unmapped
/// byte of an OEM table, each unpaired surrogate and odd last byte of UTF-16;
/// for a general table or UTF-8, one where the input is malformed at all.
pub open spec fn known_invalid_units(backend: Backend, bytes: Seq<u8>) -> nat {
    match backend {
        Backend::OemTable(page) => oem_unmapped_count(oem_decoding_table(page), bytes),
        Backend::Utf16(endian) => utf16_unpaired(units_of(bytes, endian)) + if bytes.len() % 2
            == 1 {
            1nat
        } else {
            0nat
        },
        _ => if substitutes(backend, bytes) {
            1nat
        } else {
            0nat
        },
    }
}

/// Whether a backend takes input of the given length: the general tables
/// take at most `MAX_TABLE_INPUT`.
pub open spec fn takes_length(backend: Backend, len: nat) -> bool {
    backend is LargeTable ==> len <= MAX_TABLE_INPUT
}

pub open spec fn coding_result(r: Result<Coding, ConvertError>) -> Result<Backend, ConvertError> {
    match r {
        Ok(c) => Ok(c@),
        Err(e) => Err(e),
    }
}

pub open spec fn bytes_result(r: Result<Vec<u8>, ConvertError>) -> Result<Seq<u8>, ConvertError> {
    match r {
        Ok(v) => Ok(v@),
        Err(e) => Err(e),
    }
}

pub open spec fn text_result(r: Result<String, ConvertError>) -> Result<Seq<char>, ConvertError> {
    match r {
        Ok(s) => Ok(s@),
        Err(e) => Err(e),
    }
}

impl View for Coding {
    type V = Backend;

    closed spec fn view(&self) -> Backend {
        self.backend
    }
}

/// Code units as bytes in the given order.
fn pack_utf16(units: &Vec<u16>, endian: Endian) -> (r: Vec<u8>)
    ensures
        r@ == pack_units(units@, endian),
{
    let mut out: Vec<u8> = Vec::new();
    let mut i: usize = 0;
    while i < units.len()
        invariant
            i <= units@.len(),
            out@ =~= pack_units(units@.subrange(0, i as int), endian),
        decreases units@.len() - i,
    {
        let w = units[i];
        let lo = (w % 256) as u8;
        let hi = (w / 256) as u8;
        match endian {
            Endian::LE => {
                out.push(lo);
                out.push(hi);
            },
            Endian::BE => {
                out.push(hi);
                out.push(lo);
            },
        }
        i = i + 1;
        assert(out@ =~= pack_units(units@.subrange(0, i as int), endian));
    }
    assert(units@.subrange(0, i as int) =~= units@);
    out
}

/// Bytes taken two at a time as code units in the given order.
fn unpack_utf16(bytes: &[u8], endian: Endian) -> (r: Vec<u16>)
    ensures
        r@ == units_of(bytes@, endian),
{
    let mut out: Vec<u16> = Vec::new();
    let len = bytes.len();
    let n = len / 2;
    let mut j: usize = 0;
    while j < n
        invariant
            len == bytes@.len(),
            n == len / 2,
            j <= n,
            out@.len() == j,
            forall|k: int| 0 <= k < j ==> out@[k] == units_of(bytes@, endian)[k],
        decreases n - j,
    {
        assert(2 * j + 1 < bytes@.len());
        let first = bytes[2 * j];
        let second = bytes[2 * j + 1];
        let w: u16 = match endian {
            Endian::LE => (second as u16) * 256 + (first as u16),
            Endian::BE => (first as u16) * 256 + (second as u16),
        };
        out.push(w);
        j = j + 1;
    }
    assert(out@ =~= units_of(bytes@, endian));
    out
}

impl Coding {
    #[verifier::type_invariant]
    spec fn tables_known(self) -> bool {
        match self.backend {
            Backend::LargeTable(page) => general_table_pages().contains(page),
            Backend::OemTable(page) => oem_encoding_pages().contains(page)
                && oem_decoding_pages().contains(page),
            _ => true,
        }
    }

    /// Get an encoding for the given code page.
    ///
    /// Fails with [`ConvertError::UnsupportedCodepage`] for UTF-32 and UTF-7,
    /// and with [`ConvertError::UnknownCodepage`] for a page that no table
    /// knows.
    pub fn new(cp: u16) -> (r: Result<Self, ConvertError>)
        ensures
            coding_result(r) == resolved(cp),
    {
        if cp == 65001 {
            return Ok(Coding { backend: Backend::Identity });
        }
        if cp == 1200 {
            return Ok(Coding { backend: Backend::Utf16(Endian::LE) });
        }
        if cp == 1201 {
            return Ok(Coding { backend: Backend::Utf16(Endian::BE) });
        }
        if cp == 12000 || cp == 12001 || cp == 65000 {
            return Err(ConvertError::UnsupportedCodepage);
        }
        if has_general_table(cp) {
            return Ok(Coding { backend: Backend::LargeTable(cp) });
        }
        if !has_oem_encoding_table(cp) {
            return Err(ConvertError::UnknownCodepage);
        }
        if !has_oem_decoding_table(cp) {
            return Err(ConvertError::UnknownCodepage);
        }
        Ok(Coding { backend: Backend::OemTable(cp) })
    }

    /// What this coding converts with.
    pub fn backend(&self) -> (r: Backend)
        ensures
            r == self@,
    {
        self.backend
    }

    /// Encode a string into a byte vector according to this encoding.
    ///
    /// Returns [`ConvertError::StringEncoding`] if any character cannot be
    /// encoded.
    pub fn encode(&self, src: &str) -> (r: Result<Vec<u8>, ConvertError>)
        requires
            takes_length(self@, src@.len()),
        ensures
            bytes_result(r) == encoded(self@, src@),
    {
        proof {
            use_type_invariant(self);
        }
        match self.backend {
            Backend::LargeTable(page) => {
                let (out, unmappable) = general_encode(page, src);
                if unmappable {
                    Err(ConvertError::StringEncoding)
                } else {
                    Ok(out)
                }
            },
            Backend::OemTable(page) => match oem_encode(page, src) {
                Some(out) => Ok(out),
                None => Err(ConvertError::StringEncoding),
            },
            Backend::Utf16(endian) => {
                let units = encode_utf16_units(src);
                Ok(pack_utf16(&units, endian))
            },
            Backend::Identity => Ok(slice_to_vec(src.as_bytes())),
        }
    }

    /// Decode bytes into a string according to this encoding.
    ///
    /// Returns [`ConvertError::StringDecoding`] if any character cannot be
    /// decoded.
    pub fn decode(&self, src: &[u8]) -> (r: Result<String, ConvertError>)
        requires
            takes_length(self@, src@.len()),
        ensures
            text_result(r) == decoded(self@, src@),
    {
        proof {
            use_type_invariant(self);
        }
        match self.backend {
            Backend::LargeTable(page) => {
                let (out, malformed) = general_decode(page, src);
                if malformed {
                    Err(ConvertError::StringDecoding)
                } else {
                    Ok(out)
                }
            },
            Backend::OemTable(page) => match oem_decode(page, src) {
                Some(out) => Ok(out),
                None => Err(ConvertError::StringDecoding),
            },
            Backend::Utf16(endian) => {
                if src.len() % 2 == 1 {
                    return Err(ConvertError::StringDecoding);
                }
                let units = unpack_utf16(src, endian);
                match from_utf16_strict(units.as_slice()) {
                    Some(out) => Ok(out),
                    None => Err(ConvertError::StringDecoding),
                }
            },
            Backend::Identity => match from_utf8_strict(src) {
                Some(s) => Ok(s.to_owned()),
                None => Err(ConvertError::StringDecoding),
            },
        }
    }

    /// Decode bytes into a string according to this encoding, replacing
    /// anything that cannot be decoded with U+FFFD.
    pub fn decode_lossy(&self, src: &[u8]) -> (r: String)
        requires
            takes_length(self@, src@.len()),
        ensures
            r@ == decoded_lossy(self@, src@),
            replacement_count(r@) >= known_invalid_units(self@, src@),
            substitutes(self@, src@) ==> replacement_count(r@) >= 1,
    {
        proof {
            use_type_invariant(self);
        }
        match self.backend {
            Backend::LargeTable(page) => {
                let (out, malformed) = general_decode(page, src);
                proof {
                    if malformed {
                        lemma_replacement_count_positive(out@);
                    }
                }
                out
            },
            Backend::OemTable(page) => {
                let out = oem_decode_lossy(page, src);
                proof {
                    lemma_oem_replacements(oem_decoding_table(page), src@);
                    if !oem_all_mapped(oem_decoding_table(page), src@) {
                        lemma_oem_unmapped_positive(oem_decoding_table(page), src@);
                    }
                }
                out
            },
            Backend::Utf16(endian) => {
                let units = unpack_utf16(src, endian);
                let mut out = from_utf16_lossy(units.as_slice());
                proof {
                    lemma_utf16_replacements(units@);
                }
                if src.len() % 2 == 1 {
                    let ghost before = out@;
                    out.append("\u{FFFD}");
                    proof {
                        reveal_strlit("\u{FFFD}");
                        assert("\u{FFFD}"@ =~= seq![replacement()]);
                        lemma_replacement_count_concat(before, seq![replacement()]);
                        assert(seq![replacement()].drop_first() =~= Seq::<char>::empty());
                        assert(before.push(replacement()) =~= before + seq![replacement()]);
                    }
                }
                out
            },
            Backend::Identity => match from_utf8_strict(src) {
                Some(s) => s.to_owned(),
                None => {
                    let out = from_utf8_lossy(src);
                    proof {
                        lemma_replacement_count_positive(out@);
                    }
                    out
                },
            },
        }
    }
}

} // verus!
