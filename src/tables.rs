//! The two families of code page tables: the general encodings of
//! `encoding_rs`, reached through `codepage`, and the single-byte OEM tables
//! of `oem_cp`.
use vstd::prelude::*;
use crate::unicode::{replacement, replacement_count};

verus! {

/// The longest input that the general tables take here, in characters to
/// encode or bytes to decode. `encoding_rs` panics where the size of its
/// output buffer overflows `usize`; this bound keeps well below that.
pub const MAX_TABLE_INPUT: usize = 0x0fff_ffff;

/// The pages that `codepage` maps to an encoding of `encoding_rs`.
pub open spec fn general_table_pages() -> Set<u16> {
    set![
        65001u16, 1200, 1252, 1251, 936, 932, 949, 1250, 1256, 1254, 950, 874, 1255, 1253, 1257,
        1258, 20932, 28592, 28605, 28597, 20866, 54936, 28595, 38598, 28594, 28596, 50221, 21866,
        28603, 28593, 1201, 866, 28600, 28598, 10000, 10017, 28604, 28606, 951, 10007, 20936,
        20949, 21010, 28591, 28599, 28601, 50220, 50222, 50225, 50227, 51936, 51949, 52936,
    ]
}

/// The pages for which `oem_cp` has an encoding table.
pub open spec fn oem_encoding_pages() -> Set<u16> {
    set![
        437u16, 737, 775, 850, 852, 855, 857, 860, 861, 862, 863, 864, 865, 866, 869, 720, 858,
        874,
    ]
}

/// The pages for which `oem_cp` has a decoding table.
pub open spec fn oem_decoding_pages() -> Set<u16> {
    set![
        437u16, 737, 775, 850, 852, 855, 857, 860, 861, 862, 863, 864, 865, 866, 869, 720, 858,
        874,
    ]
}

/// The name for what the general encoding of a page makes of a text: the
/// bytes, and whether some character was unmappable.
pub uninterp spec fn general_encoding_of(page: u16, text: Seq<char>) -> (Seq<u8>, bool);

/// The name for what the general encoding of a page makes of bytes: the text,
/// and whether some sequence was malformed.
pub uninterp spec fn general_decoding_of(page: u16, bytes: Seq<u8>) -> (Seq<char>, bool);

/// The name for what the OEM encoding table of a page holds: the byte of
/// each character that it maps.
pub uninterp spec fn oem_encoding_table(page: u16) -> Map<char, u8>;

/// The name for what the OEM decoding table of a page holds: the character
/// of each byte from 0x80 on that it maps.
pub uninterp spec fn oem_decoding_table(page: u16) -> Map<u8, char>;

/// The byte of one character under an OEM encoding table: ASCII stands for
/// itself, any other character is looked up.
pub open spec fn oem_char_byte(table: Map<char, u8>, c: char) -> Option<u8> {
    if (c as u32) < 128 {
        Some((c as u32) as u8)
    } else if table.contains_key(c) {
        Some(table[c])
    } else {
        None
    }
}

/// The character of one byte under an OEM decoding table: ASCII stands for
/// itself, any other byte is looked up.
pub open spec fn oem_byte_char(table: Map<u8, char>, b: u8) -> Option<char> {
    if b < 128 {
        Some((b as u32) as char)
    } else if table.contains_key(b) {
        Some(table[b])
    } else {
        None
    }
}

/// A text encoded under an OEM table, if every character is mapped.
pub open spec fn oem_encoded(table: Map<char, u8>, text: Seq<char>) -> Option<Seq<u8>> {
    if forall|i: int| 0 <= i < text.len() ==> (#[trigger] oem_char_byte(table, text[i])) is Some {
        Some(Seq::new(text.len(), |i: int| oem_char_byte(table, text[i])->0))
    } else {
        None
    }
}

/// Whether every byte is mapped by an OEM decoding table.
pub open spec fn oem_all_mapped(table: Map<u8, char>, bytes: Seq<u8>) -> bool {
    forall|i: int| 0 <= i < bytes.len() ==> (#[trigger] oem_byte_char(table, bytes[i])) is Some
}

/// Bytes decoded under an OEM table, with U+FFFD for each unmapped byte.
pub open spec fn oem_decoded_lossy(table: Map<u8, char>, bytes: Seq<u8>) -> Seq<char> {
    Seq::new(
        bytes.len(),
        |i: int|
            match oem_byte_char(table, bytes[i]) {
                Some(c) => c,
                None => replacement(),
            },
    )
}

/// How many bytes an OEM decoding table leaves unmapped.
pub open spec fn oem_unmapped_count(table: Map<u8, char>, bytes: Seq<u8>) -> nat
    decreases bytes.len(),
{
    if bytes.len() == 0 {
        0
    } else {
        (if oem_byte_char(table, bytes[0]) is None { 1nat } else { 0nat }) + oem_unmapped_count(
            table,
            bytes.drop_first(),
        )
    }
}

/// Relies on `codepage::to_encoding`: the pages it finds an encoding for.
#[verifier::external_body]
pub(crate) fn has_general_table(page: u16) -> (r: bool)
    ensures
        r == general_table_pages().contains(page),
{
    codepage::to_encoding(page).is_some()
}

/// Relies on `codepage::to_encoding` for the page's encoding, and on its
/// `encoding_rs::Encoding::encode`: the bytes, and whether some character was
/// unmappable.
#[verifier::external_body]
pub(crate) fn general_encode(page: u16, text: &str) -> (r: (Vec<u8>, bool))
    requires
        general_table_pages().contains(page),
        text@.len() <= MAX_TABLE_INPUT,
    ensures
        (r.0@, r.1) == general_encoding_of(page, text@),
{
    let (out, _, unmappable) = codepage::to_encoding(page).unwrap().encode(text);
    (out.into_owned(), unmappable)
}

/// Relies on `codepage::to_encoding` for the page's encoding, and on its
/// `encoding_rs::Encoding::decode`: the text, and whether some sequence was
/// malformed, which it replaced with U+FFFD.
#[verifier::external_body]
pub(crate) fn general_decode(page: u16, bytes: &[u8]) -> (r: (String, bool))
    requires
        general_table_pages().contains(page),
        bytes@.len() <= MAX_TABLE_INPUT,
    ensures
        (r.0@, r.1) == general_decoding_of(page, bytes@),
        r.1 ==> r.0@.contains(replacement()),
{
    let (out, _, malformed) = codepage::to_encoding(page).unwrap().decode(bytes);
    (out.into_owned(), malformed)
}

/// Relies on `oem_cp::code_table::ENCODING_TABLE_CP_MAP`: the pages it has a
/// table for.
#[verifier::external_body]
pub(crate) fn has_oem_encoding_table(page: u16) -> (r: bool)
    ensures
        r == oem_encoding_pages().contains(page),
{
    oem_cp::code_table::ENCODING_TABLE_CP_MAP.get(&page).is_some()
}

/// Relies on `oem_cp::code_table::DECODING_TABLE_CP_MAP`: the pages it has a
/// table for.
#[verifier::external_body]
pub(crate) fn has_oem_decoding_table(page: u16) -> (r: bool)
    ensures
        r == oem_decoding_pages().contains(page),
{
    oem_cp::code_table::DECODING_TABLE_CP_MAP.get(&page).is_some()
}

/// Relies on `oem_cp::encode_string_checked` with the page's table from
/// `ENCODING_TABLE_CP_MAP`: ASCII passes through, other characters are looked
/// up, and any character missing from the table gives `None`.
#[verifier::external_body]
pub(crate) fn oem_encode(page: u16, text: &str) -> (r: Option<Vec<u8>>)
    requires
        oem_encoding_pages().contains(page),
    ensures
        r matches Some(v) ==> oem_encoded(oem_encoding_table(page), text@) == Some(v@),
        r is None ==> oem_encoded(oem_encoding_table(page), text@) is None,
{
    let table = oem_cp::code_table::ENCODING_TABLE_CP_MAP.get(&page).unwrap();
    oem_cp::encode_string_checked(text, table)
}

/// Relies on `oem_cp::code_table_type::TableType::decode_string_checked` with
/// the page's table from `DECODING_TABLE_CP_MAP`: ASCII passes through, other
/// bytes are looked up, and any byte missing from the table gives `None`.
#[verifier::external_body]
pub(crate) fn oem_decode(page: u16, bytes: &[u8]) -> (r: Option<String>)
    requires
        oem_decoding_pages().contains(page),
    ensures
        r is Some <==> oem_all_mapped(oem_decoding_table(page), bytes@),
        r matches Some(s) ==> s@ == oem_decoded_lossy(oem_decoding_table(page), bytes@),
{
    let table = oem_cp::code_table::DECODING_TABLE_CP_MAP.get(&page).unwrap();
    table.decode_string_checked(bytes)
}

/// Relies on `oem_cp::code_table_type::TableType::decode_string_lossy` with
/// the page's table from `DECODING_TABLE_CP_MAP`: as the checked decoding,
/// with U+FFFD for each byte missing from the table.
#[verifier::external_body]
pub(crate) fn oem_decode_lossy(page: u16, bytes: &[u8]) -> (r: String)
    requires
        oem_decoding_pages().contains(page),
    ensures
        r@ == oem_decoded_lossy(oem_decoding_table(page), bytes@),
{
    let table = oem_cp::code_table::DECODING_TABLE_CP_MAP.get(&page).unwrap();
    table.decode_string_lossy(bytes)
}

/// Each unmapped byte leaves a replacement character in the lossy decoding.
pub proof fn lemma_oem_replacements(table: Map<u8, char>, bytes: Seq<u8>)
    ensures
        replacement_count(oem_decoded_lossy(table, bytes)) >= oem_unmapped_count(table, bytes),
    decreases bytes.len(),
{
    if bytes.len() > 0 {
        lemma_oem_replacements(table, bytes.drop_first());
        assert(oem_decoded_lossy(table, bytes).drop_first() =~= oem_decoded_lossy(
            table,
            bytes.drop_first(),
        ));
    }
}

/// Where some byte is unmapped, the count of unmapped bytes is positive.
pub proof fn lemma_oem_unmapped_positive(table: Map<u8, char>, bytes: Seq<u8>)
    requires
        !oem_all_mapped(table, bytes),
    ensures
        oem_unmapped_count(table, bytes) >= 1,
    decreases bytes.len(),
{
    if oem_byte_char(table, bytes[0]) is Some {
        let i = choose|i: int| 0 <= i < bytes.len() && oem_byte_char(table, bytes[i]) is None;
        assert(oem_byte_char(table, bytes.drop_first()[i - 1]) is None);
        lemma_oem_unmapped_positive(table, bytes.drop_first());
    }
}

} // verus!
