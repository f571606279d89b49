//! What holds of the codec as a whole.
//!
//! The laws speak of the spec functions that the contracts of `decode` and
//! `encode` are stated in: what `parse_registry` makes of a buffer is what
//! `decode` returns for it, and `registry_encoding` is what `encode` returns.

use crate::codec::{counted_encoding, Format, Readable, Standard, Writable};
use crate::error::{DecodeError, Sentinel, MAGIC_END, MAGIC_START};
use crate::index::{NameIndex, NameIndexFlagged, FLAG_BIT};
use crate::layout::{lemma_sentinel_mismatch, Preamble, TableSizes};
use crate::offsets::{ansi_offsets, wide_offsets};
use crate::pair::{Pair, Type, VALUE_LIMIT};
use crate::reader::lemma_take_u32_le;
use crate::record::{AssetData, Dependencies};
use crate::registry::{
    body_layout, lemma_decoded_fits, lemma_head_round_trip, lemma_layout_round_trip,
    lemma_sizes_of_fitting, parse_body, parse_registry, registry_encoding, registry_fits,
    registry_layout, strings_fit, AssetRegistryView,
};
use crate::scalar::Guid;
use crate::seqs::{lemma_regroup5, lemma_regroup6};
use crate::tables::{
    index_tables_encoding, lemma_index_tables_round_trip, lemma_name_table_round_trip,
    lemma_string_tables_round_trip, name_table_encoding, string_tables_layout,
};
use crate::wire::u32_to_le;
use vstd::prelude::*;

verus! {

/// Decoding undoes encoding: the bytes of a registry that fits the format
/// decode to that registry, with nothing left over.
pub proof fn lemma_decode_encode(v: AssetRegistryView)
    requires
        registry_fits(v),
    ensures
        parse_registry(registry_encoding(v)) == Ok::<(AssetRegistryView, Seq<u8>), DecodeError>(
            (v, Seq::empty()),
        ),
{
    let bytes = registry_encoding(v);
    lemma_layout_round_trip(
        v,
        ansi_offsets(v.ansi_strings),
        wide_offsets(v.wide_strings),
        Seq::empty(),
    );
    assert(bytes + Seq::<u8>::empty() =~= bytes);
}

/// Bytes that an encoder produced are reproduced: decoding them and encoding
/// the result gives the same bytes.
pub proof fn lemma_round_trip(v: AssetRegistryView)
    requires
        registry_fits(v),
    ensures
        parse_registry(registry_encoding(v)) matches Ok((decoded, _)) && registry_encoding(decoded)
            == registry_encoding(v),
{
    lemma_decode_encode(v);
}

/// The offset tables are derived data. Whatever a buffer holds in their
/// place, it decodes to the same registry, and encoding that registry gives
/// the buffer back with the two tables computed from the strings: every byte
/// outside the tables is reproduced.
pub proof fn lemma_round_trip_but_offsets(
    v: AssetRegistryView,
    ansi_table: Seq<u32>,
    wide_table: Seq<u32>,
)
    requires
        registry_fits(v),
        ansi_table.len() == v.ansi_strings.len(),
        wide_table.len() == v.wide_strings.len(),
    ensures
        parse_registry(registry_layout(v, ansi_table, wide_table)) matches Ok((decoded, _))
            && decoded == v && registry_encoding(decoded) == registry_layout(
            v,
            ansi_offsets(v.ansi_strings),
            wide_offsets(v.wide_strings),
        ),
{
    let bytes = registry_layout(v, ansi_table, wide_table);
    lemma_layout_round_trip(v, ansi_table, wide_table, Seq::empty());
    assert(bytes + Seq::<u8>::empty() =~= bytes);
}

/// Decoding, encoding and decoding again gives what the first decoding gave,
/// for every buffer that decodes to strings that fit their encodings. A
/// string can fail to fit only where invalid bytes were replaced by longer
/// ones, or by what the replacing function chose.
pub proof fn lemma_double_round_trip(bytes: Seq<u8>)
    requires
        parse_registry(bytes) matches Ok((v, _)) && strings_fit(v),
    ensures
        parse_registry(bytes) matches Ok((v, _)) && parse_registry(registry_encoding(v))
            matches Ok((again, _)) && again == v,
{
    let v = parse_registry(bytes)->Ok_0.0;
    lemma_decoded_fits(bytes);
    lemma_decode_encode(v);
}

/// A flagged index below 2^31 comes back from its bytes with the associated
/// word it had, or with none if it had none.
pub proof fn lemma_flagged_index_boundary(x: usize, f: u32, rest: Seq<u8>)
    requires
        x < FLAG_BIT,
    ensures
        NameIndexFlagged::parse(NameIndexFlagged::encoding(NameIndexFlagged(x, Some(f))) + rest)
            == Ok::<(NameIndexFlagged, Seq<u8>), DecodeError>(
            (NameIndexFlagged(x, Some(f)), rest),
        ),
        NameIndexFlagged::parse(NameIndexFlagged::encoding(NameIndexFlagged(x, None)) + rest)
            == Ok::<(NameIndexFlagged, Seq<u8>), DecodeError>((NameIndexFlagged(x, None), rest)),
{
    NameIndexFlagged::lemma_round_trip(NameIndexFlagged(x, Some(f)), rest);
    NameIndexFlagged::lemma_round_trip(NameIndexFlagged(x, None), rest);
}

/// The top bit of the word of a flagged index says whether an associated
/// word follows, and is no part of the index.
pub proof fn lemma_flagged_index_word(word: u32, extra: u32, rest: Seq<u8>)
    ensures
        word >= FLAG_BIT ==> NameIndexFlagged::parse(u32_to_le(word) + (u32_to_le(extra) + rest))
            == Ok::<(NameIndexFlagged, Seq<u8>), DecodeError>(
            (NameIndexFlagged((word - FLAG_BIT) as usize, Some(extra)), rest),
        ),
        word < FLAG_BIT ==> NameIndexFlagged::parse(u32_to_le(word) + rest) == Ok::<
            (NameIndexFlagged, Seq<u8>),
            DecodeError,
        >((NameIndexFlagged(word as usize, None), rest)),
{
    lemma_take_u32_le(word, u32_to_le(extra) + rest);
    lemma_take_u32_le(extra, rest);
    lemma_take_u32_le(word, rest);
}

/// What a pair's two words decode to. The top three bits of the second word
/// choose the kind: 0 to 6 name the seven kinds, and 7 fails the decode. The
/// value is the low 29 bits, whatever the tag.
pub proof fn lemma_pair_boundary(name: u32, word: u32, rest: Seq<u8>)
    ensures
        Pair::parse(u32_to_le(name) + (u32_to_le(word) + rest)) == (match Type::of_code(
            word / VALUE_LIMIT,
        ) {
            Ok(type_) => Ok(
                (Pair { name: NameIndex(name as usize), type_, index: word % VALUE_LIMIT }, rest),
            ),
            Err(_) => Err(DecodeError::InvalidTag { tag: 7 }),
        }),
        word / VALUE_LIMIT == 0 ==> Type::of_code(word / VALUE_LIMIT) == Ok::<Type, DecodeError>(
            Type::AnsiString,
        ),
        word / VALUE_LIMIT == 1 ==> Type::of_code(word / VALUE_LIMIT) == Ok::<Type, DecodeError>(
            Type::WideString,
        ),
        word / VALUE_LIMIT == 2 ==> Type::of_code(word / VALUE_LIMIT) == Ok::<Type, DecodeError>(
            Type::NumberlessName,
        ),
        word / VALUE_LIMIT == 3 ==> Type::of_code(word / VALUE_LIMIT) == Ok::<Type, DecodeError>(
            Type::Name,
        ),
        word / VALUE_LIMIT == 4 ==> Type::of_code(word / VALUE_LIMIT) == Ok::<Type, DecodeError>(
            Type::NumberlessExportPath,
        ),
        word / VALUE_LIMIT == 5 ==> Type::of_code(word / VALUE_LIMIT) == Ok::<Type, DecodeError>(
            Type::ExportPath,
        ),
        word / VALUE_LIMIT == 6 ==> Type::of_code(word / VALUE_LIMIT) == Ok::<Type, DecodeError>(
            Type::LocalizedText,
        ),
        word / VALUE_LIMIT == 7 <==> Type::of_code(word / VALUE_LIMIT) is Err,
{
    lemma_take_u32_le(name, u32_to_le(word) + rest);
    lemma_take_u32_le(word, rest);
    assert(word / VALUE_LIMIT <= 7);
}

/// A registry with another word in the place of its start sentinel.
pub open spec fn with_start_word(v: AssetRegistryView, found: u32) -> AssetRegistryView {
    AssetRegistryView { magic_start: found, ..v }
}

/// A registry with another word in the place of its end sentinel.
pub open spec fn with_end_word(v: AssetRegistryView, found: u32) -> AssetRegistryView {
    AssetRegistryView { magic_end: found, ..v }
}

/// The start sentinel is enforced: bytes that differ from those of a
/// registry in the word behind the name table fail to decode, and the error
/// names the start sentinel and the word that was found.
pub proof fn lemma_start_sentinel_enforced(v: AssetRegistryView, found: u32)
    requires
        registry_fits(v),
        found != MAGIC_START,
    ensures
        parse_registry(registry_encoding(with_start_word(v, found))) == Err::<
            (AssetRegistryView, Seq<u8>),
            DecodeError,
        >(
            DecodeError::SentinelMismatch {
                which: Sentinel::Start,
                expected: MAGIC_START,
                found,
            },
        ),
{
    let c = with_start_word(v, found);
    let ansi_table = ansi_offsets(c.ansi_strings);
    let wide_table = wide_offsets(c.wide_strings);
    let rest = Seq::<u8>::empty();
    let t5 = body_layout(c, ansi_table, wide_table) + rest;
    let t4 = TableSizes::encoding(c.sizes()) + t5;
    let t3 = u32_to_le(found) + t4;
    let t2 = name_table_encoding(c.name_table()) + t3;
    let t1 = Preamble::encoding(c.preamble()) + t2;
    lemma_regroup6(
        Guid::encoding(c.version),
        Preamble::encoding(c.preamble()),
        name_table_encoding(c.name_table()),
        u32_to_le(found),
        TableSizes::encoding(c.sizes()),
        body_layout(c, ansi_table, wide_table),
        rest,
    );
    assert(registry_encoding(c) + rest =~= registry_encoding(c));
    lemma_sizes_of_fitting(v);
    Guid::lemma_round_trip(c.version, t1);
    Preamble::lemma_round_trip(c.preamble(), t2);
    lemma_name_table_round_trip(c.name_table(), t3);
    lemma_sentinel_mismatch(Sentinel::Start, found, t4);
}

/// The end sentinel is enforced: bytes that differ from those of a registry
/// in the word behind the tagged pairs fail to decode, and the error names
/// the end sentinel and the word that was found.
pub proof fn lemma_end_sentinel_enforced(v: AssetRegistryView, found: u32)
    requires
        registry_fits(v),
        found != MAGIC_END,
    ensures
        parse_registry(registry_encoding(with_end_word(v, found))) == Err::<
            (AssetRegistryView, Seq<u8>),
            DecodeError,
        >(DecodeError::SentinelMismatch { which: Sentinel::End, expected: MAGIC_END, found }),
{
    let c = with_end_word(v, found);
    let ansi_table = ansi_offsets(c.ansi_strings);
    let wide_table = wide_offsets(c.wide_strings);
    let rest = Seq::<u8>::empty();
    lemma_body_end_sentinel(v, found, rest);
    lemma_head_round_trip(c, ansi_table, wide_table, rest);
    assert(registry_encoding(c) + rest =~= registry_encoding(c));
}

/// The body of a registry with another word in the place of its end
/// sentinel fails to decode at that word.
proof fn lemma_body_end_sentinel(v: AssetRegistryView, found: u32, rest: Seq<u8>)
    requires
        registry_fits(v),
        found != MAGIC_END,
    ensures
        ({
            let c = with_end_word(v, found);
            parse_body(
                body_layout(c, ansi_offsets(c.ansi_strings), wide_offsets(c.wide_strings)) + rest,
                c.version,
                c.preamble(),
                c.name_table(),
                c.magic_start,
                c.sizes(),
            ) == Err::<(AssetRegistryView, Seq<u8>), DecodeError>(
                DecodeError::SentinelMismatch {
                    which: Sentinel::End,
                    expected: MAGIC_END,
                    found,
                },
            )
        }),
{
    let c = with_end_word(v, found);
    let ansi_table = ansi_offsets(c.ansi_strings);
    let wide_table = wide_offsets(c.wide_strings);
    let sizes = c.sizes();
    let t4 = Dependencies::encoding(c.dependencies) + rest;
    let t3 = counted_encoding::<AssetData, Standard>(c.asset_data) + t4;
    let t2 = u32_to_le(found) + t3;
    let t1 = string_tables_layout(c.string_tables(), ansi_table, wide_table) + t2;
    lemma_regroup5(
        index_tables_encoding(c.index_tables()),
        string_tables_layout(c.string_tables(), ansi_table, wide_table),
        u32_to_le(found),
        counted_encoding::<AssetData, Standard>(c.asset_data),
        Dependencies::encoding(c.dependencies),
        rest,
    );
    lemma_sizes_of_fitting(v);
    lemma_index_tables_round_trip(c.index_tables(), sizes, t1);
    lemma_string_tables_round_trip(c.string_tables(), ansi_table, wide_table, sizes, t2);
    lemma_sentinel_mismatch(Sentinel::End, found, t3);
}

} // verus!
