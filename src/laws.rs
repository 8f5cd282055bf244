//! Properties that hold across resolution and the conversions.
use vstd::prelude::*;
use vstd::utf8::{encode_utf8_decode_utf8, encode_utf8_valid_utf8};
use crate::coding::{
    decoded, decoded_lossy, encoded, pack_units, resolved, substitutes, unit_byte,
    units_of, unsupported_page, Backend, Endian,
};
use crate::error::ConvertError;
use crate::tables::{
    general_table_pages, oem_all_mapped, oem_byte_char, oem_char_byte, oem_decoded_lossy,
    oem_decoding_pages, oem_encoded, oem_encoding_pages,
};
use crate::unicode::{lemma_utf16_round_trip, utf16_encode};

verus! {

/// Every page that some backend knows resolves, to the backend that the
/// order of precedence picks: UTF-8 and UTF-16 first, then the general
/// tables, then the OEM tables.
pub proof fn lemma_known_pages_resolve(cp: u16)
    requires
        cp == 65001 || cp == 1200 || cp == 1201 || general_table_pages().contains(cp) || (
        oem_encoding_pages().contains(cp) && oem_decoding_pages().contains(cp)),
    ensures
        resolved(cp) is Ok,
        cp == 65001 ==> resolved(cp) == Ok::<Backend, ConvertError>(Backend::Identity),
        cp == 1200 ==> resolved(cp) == Ok::<Backend, ConvertError>(Backend::Utf16(Endian::LE)),
        cp == 1201 ==> resolved(cp) == Ok::<Backend, ConvertError>(Backend::Utf16(Endian::BE)),
        cp != 65001 && cp != 1200 && cp != 1201 && general_table_pages().contains(cp)
            ==> resolved(cp) == Ok::<Backend, ConvertError>(Backend::LargeTable(cp)),
        !general_table_pages().contains(cp) && oem_encoding_pages().contains(cp)
            && oem_decoding_pages().contains(cp) ==> resolved(cp) == Ok::<Backend, ConvertError>(Backend::OemTable(cp)),
{
    assert(!general_table_pages().contains(12000u16));
    assert(!general_table_pages().contains(12001u16));
    assert(!general_table_pages().contains(65000u16));
    assert(!oem_encoding_pages().contains(12000u16));
    assert(!oem_encoding_pages().contains(12001u16));
    assert(!oem_encoding_pages().contains(65000u16));
}

/// UTF-32LE, UTF-32BE and UTF-7 are recognised and refused.
pub proof fn lemma_unsupported_pages(cp: u16)
    requires
        cp == 12000 || cp == 12001 || cp == 65000,
    ensures
        resolved(cp) == Err::<Backend, ConvertError>(ConvertError::UnsupportedCodepage),
{
}

/// A page that no backend knows is unknown.
pub proof fn lemma_unknown_pages(cp: u16)
    requires
        cp != 65001 && cp != 1200 && cp != 1201,
        !unsupported_page(cp),
        !general_table_pages().contains(cp),
        !(oem_encoding_pages().contains(cp) && oem_decoding_pages().contains(cp)),
    ensures
        resolved(cp) == Err::<Backend, ConvertError>(ConvertError::UnknownCodepage),
{
}

/// Taking the bytes of code units two at a time gives the code units back.
proof fn lemma_unpack_pack(u: Seq<u16>, endian: Endian)
    ensures
        units_of(pack_units(u, endian), endian) == u,
{
    let b = pack_units(u, endian);
    assert forall|j: int| 0 <= j < u.len() implies #[trigger] units_of(b, endian)[j] == u[j] by {
        let w = u[j];
        assert((2 * j) / 2 == j && (2 * j + 1) / 2 == j);
        assert((2 * j) % 2 == 0 && (2 * j + 1) % 2 == 1);
        assert(b[2 * j] == unit_byte(w, endian, 0));
        assert(b[2 * j + 1] == unit_byte(w, endian, 1));
        assert((w / 256) * 256 + w % 256 == w) by (nonlinear_arith);
        assert(w / 256 < 256) by (nonlinear_arith)
            requires
                w <= 0xffff,
        ;
    }
    assert(units_of(b, endian) =~= u);
}

/// Under UTF-16 and UTF-8, decoding what a text encodes to gives the text back.
pub proof fn lemma_round_trip(backend: Backend, text: Seq<char>)
    requires
        backend is Utf16 || backend is Identity,
    ensures
        encoded(backend, text) matches Ok(bytes) && decoded(backend, bytes) == Ok::<
            Seq<char>,
            ConvertError,
        >(text),
{
    match backend {
        Backend::Utf16(endian) => {
            let u = utf16_encode(text);
            lemma_unpack_pack(u, endian);
            lemma_utf16_round_trip(text);
            assert(pack_units(u, endian).len() % 2 == 0);
        },
        _ => {
            encode_utf8_valid_utf8(text);
            encode_utf8_decode_utf8(text);
        },
    }
}

/// Under an OEM page whose decoding table gives back each character from the
/// byte that its encoding table gives it, decoding what a text encodes to
/// gives the text back.
pub proof fn lemma_oem_round_trip(page: u16, text: Seq<char>)
    requires
        forall|c: char|
            (c as u32) >= 128 && #[trigger] crate::tables::oem_encoding_table(page).contains_key(c)
                ==> oem_byte_char(
                crate::tables::oem_decoding_table(page),
                crate::tables::oem_encoding_table(page)[c],
            ) == Some(c),
        encoded(Backend::OemTable(page), text) is Ok,
    ensures
        encoded(Backend::OemTable(page), text) matches Ok(bytes) && decoded(
            Backend::OemTable(page),
            bytes,
        ) == Ok::<Seq<char>, ConvertError>(text),
{
    broadcast use vstd::utf8::char_u32_cast;

    let enc = crate::tables::oem_encoding_table(page);
    let dec = crate::tables::oem_decoding_table(page);
    let bytes = oem_encoded(enc, text)->0;
    assert forall|i: int| 0 <= i < text.len() implies #[trigger] oem_byte_char(dec, bytes[i])
        == Some(text[i]) by {
        assert(oem_char_byte(enc, text[i]) is Some);
        let c = text[i];
        if (c as u32) < 128 {
            let u = (((c as u32) as u8) as u32);
            assert(u == c as u32);
            vstd::utf8::char_u32_cast(c, u);
        }
    }
    assert forall|i: int| 0 <= i < bytes.len() implies (#[trigger] oem_byte_char(dec, bytes[i]))
        is Some by {
        assert(oem_byte_char(dec, bytes[i]) == Some(text[i]));
    }
    assert(oem_all_mapped(dec, bytes));
    assert(oem_decoded_lossy(dec, bytes) =~= text);
}

/// Strict decoding fails, with `StringDecoding`, exactly where lossy decoding
/// substitutes something (where `Coding::decode_lossy` then leaves at least
/// one U+FFFD); elsewhere it gives the text of lossy decoding.
pub proof fn lemma_strict_agrees_with_lossy(backend: Backend, bytes: Seq<u8>)
    ensures
        (decoded(backend, bytes) == Err::<Seq<char>, ConvertError>(ConvertError::StringDecoding))
            == substitutes(backend, bytes),
        decoded(backend, bytes) is Err ==> substitutes(backend, bytes),
        !substitutes(backend, bytes) ==> decoded(backend, bytes) == Ok::<Seq<char>, ConvertError>(
            decoded_lossy(backend, bytes),
        ),
{
}

} // verus!
