//! The sections of the registry that hold its tables.
//!
//! Each section is decoded with the counts that the blocks before it gave,
//! and encoded without any count of its own.

use crate::codec::{
    all_fit, array_encoding, lemma_array_round_trip, lemma_parse_array_fits,
    lemma_parse_array_len, parse_array, read_array, views, write_array, Standard,
};
use crate::error::DecodeError;
use crate::index::NameIndexFlagged;
use crate::layout::TableSizes;
use crate::offsets::{ansi_offsets, wide_offsets, write_ansi_offsets, write_wide_offsets};
use crate::pair::Pair;
use crate::reader::{Parsed, Reader};
use crate::record::Asset;
use crate::scalar::BigEndian;
use crate::seqs::{lemma_gather3, lemma_gather5, lemma_regroup3, lemma_regroup5};
use crate::text::{
    lemma_name_length_table, lemma_names_round_trip, lemma_parse_names_len, name_lengths,
    names_fit, parse_names, read_names, Ansi, NameLength, NamePayload, Text, Wide,
};
use vstd::prelude::*;

verus! {

/// The name table and the words that run beside it.
#[derive(Debug, Clone, PartialEq, Eq)]
pub struct NameTable {
    /// One 64-bit word for every name, kept as it is.
    pub idk: Vec<u64>,
    /// The names.
    pub names: Vec<String>,
}

/// The name table as a mathematical value.
pub struct NameTableView {
    pub idk: Seq<u64>,
    pub names: Seq<Seq<char>>,
}

impl View for NameTable {
    type V = NameTableView;

    open spec fn view(&self) -> NameTableView {
        NameTableView { idk: self.idk@, names: views(self.names@) }
    }
}

/// The section of the names: `count` 64-bit words, `count` big-endian
/// lengths, and then the payloads of the names, each as long as its length
/// says.
pub open spec fn parse_name_table(input: Seq<u8>, count: u32) -> Parsed<NameTableView> {
    match parse_array::<u64, Standard>(input, count as nat) {
        Err(e) => Err(e),
        Ok((idk, r1)) => match parse_array::<u16, BigEndian>(r1, count as nat) {
            Err(e) => Err(e),
            Ok((lengths, r2)) => match parse_names(r2, lengths) {
                Err(e) => Err(e),
                Ok((names, r3)) => Ok((NameTableView { idk, names }, r3)),
            },
        },
    }
}

/// The bytes of the section of the names: the words, then all the lengths,
/// then all the payloads.
pub open spec fn name_table_encoding(v: NameTableView) -> Seq<u8> {
    array_encoding::<u64, Standard>(v.idk) + array_encoding::<String, NameLength>(v.names)
        + array_encoding::<String, NamePayload>(v.names)
}

/// A name table fits when it has as many words as names, no more of them
/// than a 32-bit count holds, and no name of more than 65535 bytes.
pub open spec fn name_table_fits(v: NameTableView) -> bool {
    &&& v.idk.len() == v.names.len()
    &&& v.names.len() <= u32::MAX
    &&& names_fit(v.names)
}

/// A name table that fits is read back with the number of its names.
pub proof fn lemma_name_table_round_trip(v: NameTableView, rest: Seq<u8>)
    requires
        name_table_fits(v),
    ensures
        parse_name_table(name_table_encoding(v) + rest, v.names.len() as u32) == Ok::<
            (NameTableView, Seq<u8>),
            DecodeError,
        >((v, rest)),
{
    let lengths = name_lengths(v.names);
    let t2 = array_encoding::<String, NamePayload>(v.names) + rest;
    let t1 = array_encoding::<u16, BigEndian>(lengths) + t2;
    lemma_name_length_table(v.names);
    lemma_regroup3(
        array_encoding::<u64, Standard>(v.idk),
        array_encoding::<String, NameLength>(v.names),
        array_encoding::<String, NamePayload>(v.names),
        rest,
    );
    lemma_array_round_trip::<u64, Standard>(v.idk, t1);
    lemma_array_round_trip::<u16, BigEndian>(lengths, t2);
    lemma_names_round_trip(v.names, rest);
}

/// Decodes the section of the names.
pub fn read_name_table(count: u32, reader: &mut Reader<'_>) -> (res: Result<
    NameTable,
    DecodeError,
>)
    ensures
        match parse_name_table(old(reader)@, count) {
            Ok((v, rest)) => res is Ok && res->Ok_0@ == v && final(reader)@ == rest,
            Err(e) => res == Err::<NameTable, DecodeError>(e),
        },
{
    let idk = read_array::<u64, Standard>(count, reader)?;
    let lengths = read_array::<u16, BigEndian>(count, reader)?;
    assert(views(idk@) =~= idk@);
    assert(views(lengths@) =~= lengths@);
    let names = read_names(&lengths, reader)?;
    Ok(NameTable { idk, names })
}

/// Encodes the section of the names, in its three passes.
pub fn write_name_table(writer: &mut Vec<u8>, idk: &Vec<u64>, names: &Vec<String>)
    ensures
        final(writer)@ == old(writer)@ + name_table_encoding(
            NameTableView { idk: idk@, names: views(names@) },
        ),
{
    write_array::<u64, Standard>(writer, idk);
    write_array::<String, NameLength>(writer, names);
    write_array::<String, NamePayload>(writer, names);
    assert(views(idk@) =~= idk@);
    proof {
        lemma_gather3(
            old(writer)@,
            array_encoding::<u64, Standard>(idk@),
            array_encoding::<String, NameLength>(views(names@)),
            array_encoding::<String, NamePayload>(views(names@)),
        );
    }
}

/// The texts and the four tables of index records.
#[derive(Debug, Clone, PartialEq, Eq)]
pub struct IndexTables {
    pub texts: Vec<String>,
    pub numberless_names: Vec<NameIndexFlagged>,
    pub names_idk: Vec<NameIndexFlagged>,
    pub assets: Vec<Asset>,
    pub export_paths: Vec<Asset>,
}

/// The texts and the four tables of index records as a mathematical value.
pub struct IndexTablesView {
    pub texts: Seq<Seq<char>>,
    pub numberless_names: Seq<NameIndexFlagged>,
    pub names_idk: Seq<NameIndexFlagged>,
    pub assets: Seq<Asset>,
    pub export_paths: Seq<Asset>,
}

impl View for IndexTables {
    type V = IndexTablesView;

    open spec fn view(&self) -> IndexTablesView {
        IndexTablesView {
            texts: views(self.texts@),
            numberless_names: self.numberless_names@,
            names_idk: self.names_idk@,
            assets: self.assets@,
            export_paths: self.export_paths@,
        }
    }
}

/// The section behind the block of sizes: the texts, the two tables of
/// flagged indices, the assets and the export paths, each with the count
/// that the block gives for it. Assets and export paths are records of the
/// same kind.
pub open spec fn parse_index_tables(input: Seq<u8>, sizes: TableSizes) -> Parsed<IndexTablesView> {
    match parse_array::<String, Text>(input, sizes.texts as nat) {
        Err(e) => Err(e),
        Ok((texts, r1)) => match parse_array::<NameIndexFlagged, Standard>(
            r1,
            sizes.numberless_names as nat,
        ) {
            Err(e) => Err(e),
            Ok((numberless_names, r2)) => match parse_array::<NameIndexFlagged, Standard>(
                r2,
                sizes.names_idk as nat,
            ) {
                Err(e) => Err(e),
                Ok((names_idk, r3)) => match parse_array::<Asset, Standard>(
                    r3,
                    sizes.assets as nat,
                ) {
                    Err(e) => Err(e),
                    Ok((assets, r4)) => match parse_array::<Asset, Standard>(
                        r4,
                        sizes.export_paths as nat,
                    ) {
                        Err(e) => Err(e),
                        Ok((export_paths, r5)) => Ok(
                            (
                                IndexTablesView {
                                    texts,
                                    numberless_names,
                                    names_idk,
                                    assets,
                                    export_paths,
                                },
                                r5,
                            ),
                        ),
                    },
                },
            },
        },
    }
}

/// The bytes of the texts and the four tables of index records.
pub open spec fn index_tables_encoding(v: IndexTablesView) -> Seq<u8> {
    array_encoding::<String, Text>(v.texts) + array_encoding::<NameIndexFlagged, Standard>(
        v.numberless_names,
    ) + array_encoding::<NameIndexFlagged, Standard>(v.names_idk) + array_encoding::<
        Asset,
        Standard,
    >(v.assets) + array_encoding::<Asset, Standard>(v.export_paths)
}

/// Every table has no more elements than a 32-bit count holds, and every
/// element fits its encoding.
pub open spec fn index_tables_fit(v: IndexTablesView) -> bool {
    &&& v.texts.len() <= u32::MAX
    &&& v.numberless_names.len() <= u32::MAX
    &&& v.names_idk.len() <= u32::MAX
    &&& v.assets.len() <= u32::MAX
    &&& v.export_paths.len() <= u32::MAX
    &&& all_fit::<String, Text>(v.texts)
    &&& all_fit::<NameIndexFlagged, Standard>(v.numberless_names)
    &&& all_fit::<NameIndexFlagged, Standard>(v.names_idk)
    &&& all_fit::<Asset, Standard>(v.assets)
    &&& all_fit::<Asset, Standard>(v.export_paths)
}

/// The sizes agree with the lengths of the tables of this section.
pub open spec fn index_sizes_match(sizes: TableSizes, v: IndexTablesView) -> bool {
    &&& sizes.texts == v.texts.len()
    &&& sizes.numberless_names == v.numberless_names.len()
    &&& sizes.names_idk == v.names_idk.len()
    &&& sizes.assets == v.assets.len()
    &&& sizes.export_paths == v.export_paths.len()
}

/// Tables that fit are read back with their own lengths as counts.
pub proof fn lemma_index_tables_round_trip(v: IndexTablesView, sizes: TableSizes, rest: Seq<u8>)
    requires
        index_tables_fit(v),
        index_sizes_match(sizes, v),
    ensures
        parse_index_tables(index_tables_encoding(v) + rest, sizes) == Ok::<
            (IndexTablesView, Seq<u8>),
            DecodeError,
        >((v, rest)),
{
    let t4 = array_encoding::<Asset, Standard>(v.export_paths) + rest;
    let t3 = array_encoding::<Asset, Standard>(v.assets) + t4;
    let t2 = array_encoding::<NameIndexFlagged, Standard>(v.names_idk) + t3;
    let t1 = array_encoding::<NameIndexFlagged, Standard>(v.numberless_names) + t2;
    lemma_regroup5(
        array_encoding::<String, Text>(v.texts),
        array_encoding::<NameIndexFlagged, Standard>(v.numberless_names),
        array_encoding::<NameIndexFlagged, Standard>(v.names_idk),
        array_encoding::<Asset, Standard>(v.assets),
        array_encoding::<Asset, Standard>(v.export_paths),
        rest,
    );
    lemma_array_round_trip::<String, Text>(v.texts, t1);
    lemma_array_round_trip::<NameIndexFlagged, Standard>(v.numberless_names, t2);
    lemma_array_round_trip::<NameIndexFlagged, Standard>(v.names_idk, t3);
    lemma_array_round_trip::<Asset, Standard>(v.assets, t4);
    lemma_array_round_trip::<Asset, Standard>(v.export_paths, rest);
}

/// Decodes the texts and the four tables of index records.
pub fn read_index_tables(sizes: &TableSizes, reader: &mut Reader<'_>) -> (res: Result<
    IndexTables,
    DecodeError,
>)
    ensures
        match parse_index_tables(old(reader)@, *sizes) {
            Ok((v, rest)) => res is Ok && res->Ok_0@ == v && final(reader)@ == rest,
            Err(e) => res == Err::<IndexTables, DecodeError>(e),
        },
{
    let texts = read_array::<String, Text>(sizes.texts, reader)?;
    let numberless_names = read_array::<NameIndexFlagged, Standard>(
        sizes.numberless_names,
        reader,
    )?;
    let names_idk = read_array::<NameIndexFlagged, Standard>(sizes.names_idk, reader)?;
    let assets = read_array::<Asset, Standard>(sizes.assets, reader)?;
    let export_paths = read_array::<Asset, Standard>(sizes.export_paths, reader)?;
    assert(views(numberless_names@) =~= numberless_names@);
    assert(views(names_idk@) =~= names_idk@);
    assert(views(assets@) =~= assets@);
    assert(views(export_paths@) =~= export_paths@);
    Ok(IndexTables { texts, numberless_names, names_idk, assets, export_paths })
}

/// Encodes the texts and the four tables of index records.
pub fn write_index_tables(
    writer: &mut Vec<u8>,
    texts: &Vec<String>,
    numberless_names: &Vec<NameIndexFlagged>,
    names_idk: &Vec<NameIndexFlagged>,
    assets: &Vec<Asset>,
    export_paths: &Vec<Asset>,
)
    ensures
        final(writer)@ == old(writer)@ + index_tables_encoding(
            IndexTablesView {
                texts: views(texts@),
                numberless_names: numberless_names@,
                names_idk: names_idk@,
                assets: assets@,
                export_paths: export_paths@,
            },
        ),
{
    write_array::<String, Text>(writer, texts);
    write_array::<NameIndexFlagged, Standard>(writer, numberless_names);
    write_array::<NameIndexFlagged, Standard>(writer, names_idk);
    write_array::<Asset, Standard>(writer, assets);
    write_array::<Asset, Standard>(writer, export_paths);
    assert(views(numberless_names@) =~= numberless_names@);
    assert(views(names_idk@) =~= names_idk@);
    assert(views(assets@) =~= assets@);
    assert(views(export_paths@) =~= export_paths@);
    proof {
        lemma_gather5(
            old(writer)@,
            array_encoding::<String, Text>(views(texts@)),
            array_encoding::<NameIndexFlagged, Standard>(numberless_names@),
            array_encoding::<NameIndexFlagged, Standard>(names_idk@),
            array_encoding::<Asset, Standard>(assets@),
            array_encoding::<Asset, Standard>(export_paths@),
        );
    }
}

/// The terminated strings and the tagged pairs.
#[derive(Debug, Clone, PartialEq, Eq)]
pub struct StringTables {
    pub ansi_strings: Vec<String>,
    pub wide_strings: Vec<String>,
    pub pairs: Vec<Pair>,
}

/// The terminated strings and the tagged pairs as a mathematical value.
pub struct StringTablesView {
    pub ansi_strings: Seq<Seq<char>>,
    pub wide_strings: Seq<Seq<char>>,
    pub pairs: Seq<Pair>,
}

impl View for StringTables {
    type V = StringTablesView;

    open spec fn view(&self) -> StringTablesView {
        StringTablesView {
            ansi_strings: views(self.ansi_strings@),
            wide_strings: views(self.wide_strings@),
            pairs: self.pairs@,
        }
    }
}

/// The section of the strings: the two offset tables, which are passed over,
/// then the byte strings, the wide strings and the tagged pairs.
pub open spec fn parse_string_tables(input: Seq<u8>, sizes: TableSizes) -> Parsed<
    StringTablesView,
> {
    match parse_array::<u32, Standard>(input, sizes.ansi_strings as nat) {
        Err(e) => Err(e),
        Ok((_, r1)) => match parse_array::<u32, Standard>(r1, sizes.wide_strings as nat) {
            Err(e) => Err(e),
            Ok((_, r2)) => match parse_array::<String, Ansi>(r2, sizes.ansi_strings as nat) {
                Err(e) => Err(e),
                Ok((ansi_strings, r3)) => match parse_array::<String, Wide>(
                    r3,
                    sizes.wide_strings as nat,
                ) {
                    Err(e) => Err(e),
                    Ok((wide_strings, r4)) => match parse_array::<Pair, Standard>(
                        r4,
                        sizes.pairs as nat,
                    ) {
                        Err(e) => Err(e),
                        Ok((pairs, r5)) => Ok(
                            (StringTablesView { ansi_strings, wide_strings, pairs }, r5),
                        ),
                    },
                },
            },
        },
    }
}

/// The bytes of the section of the strings with the given offset tables in
/// front.
pub open spec fn string_tables_layout(
    v: StringTablesView,
    ansi_table: Seq<u32>,
    wide_table: Seq<u32>,
) -> Seq<u8> {
    array_encoding::<u32, Standard>(ansi_table) + array_encoding::<u32, Standard>(wide_table)
        + array_encoding::<String, Ansi>(v.ansi_strings) + array_encoding::<String, Wide>(
        v.wide_strings,
    ) + array_encoding::<Pair, Standard>(v.pairs)
}

/// The bytes of the section of the strings: its offset tables are computed
/// from the strings.
pub open spec fn string_tables_encoding(v: StringTablesView) -> Seq<u8> {
    string_tables_layout(v, ansi_offsets(v.ansi_strings), wide_offsets(v.wide_strings))
}

/// Every table has no more elements than a 32-bit count holds, and every
/// element fits its encoding.
pub open spec fn string_tables_fit(v: StringTablesView) -> bool {
    &&& v.ansi_strings.len() <= u32::MAX
    &&& v.wide_strings.len() <= u32::MAX
    &&& v.pairs.len() <= u32::MAX
    &&& all_fit::<String, Ansi>(v.ansi_strings)
    &&& all_fit::<String, Wide>(v.wide_strings)
    &&& all_fit::<Pair, Standard>(v.pairs)
}

/// The sizes agree with the lengths of the tables of this section.
pub open spec fn string_sizes_match(sizes: TableSizes, v: StringTablesView) -> bool {
    &&& sizes.ansi_strings == v.ansi_strings.len()
    &&& sizes.wide_strings == v.wide_strings.len()
    &&& sizes.pairs == v.pairs.len()
}

/// Tables that fit are read back with their own lengths as counts, whatever
/// the offset tables hold, as long as these have one entry for each string.
pub proof fn lemma_string_tables_round_trip(
    v: StringTablesView,
    ansi_table: Seq<u32>,
    wide_table: Seq<u32>,
    sizes: TableSizes,
    rest: Seq<u8>,
)
    requires
        string_tables_fit(v),
        string_sizes_match(sizes, v),
        ansi_table.len() == v.ansi_strings.len(),
        wide_table.len() == v.wide_strings.len(),
    ensures
        parse_string_tables(string_tables_layout(v, ansi_table, wide_table) + rest, sizes) == Ok::<
            (StringTablesView, Seq<u8>),
            DecodeError,
        >((v, rest)),
{
    let t4 = array_encoding::<Pair, Standard>(v.pairs) + rest;
    let t3 = array_encoding::<String, Wide>(v.wide_strings) + t4;
    let t2 = array_encoding::<String, Ansi>(v.ansi_strings) + t3;
    let t1 = array_encoding::<u32, Standard>(wide_table) + t2;
    lemma_regroup5(
        array_encoding::<u32, Standard>(ansi_table),
        array_encoding::<u32, Standard>(wide_table),
        array_encoding::<String, Ansi>(v.ansi_strings),
        array_encoding::<String, Wide>(v.wide_strings),
        array_encoding::<Pair, Standard>(v.pairs),
        rest,
    );
    lemma_array_round_trip::<u32, Standard>(ansi_table, t1);
    lemma_array_round_trip::<u32, Standard>(wide_table, t2);
    lemma_array_round_trip::<String, Ansi>(v.ansi_strings, t3);
    lemma_array_round_trip::<String, Wide>(v.wide_strings, t4);
    lemma_array_round_trip::<Pair, Standard>(v.pairs, rest);
}

/// Decodes the section of the strings. The offset tables are read and
/// dropped.
pub fn read_string_tables(sizes: &TableSizes, reader: &mut Reader<'_>) -> (res: Result<
    StringTables,
    DecodeError,
>)
    ensures
        match parse_string_tables(old(reader)@, *sizes) {
            Ok((v, rest)) => res is Ok && res->Ok_0@ == v && final(reader)@ == rest,
            Err(e) => res == Err::<StringTables, DecodeError>(e),
        },
{
    let _ansi_table = read_array::<u32, Standard>(sizes.ansi_strings, reader)?;
    let _wide_table = read_array::<u32, Standard>(sizes.wide_strings, reader)?;
    let ansi_strings = read_array::<String, Ansi>(sizes.ansi_strings, reader)?;
    let wide_strings = read_array::<String, Wide>(sizes.wide_strings, reader)?;
    let pairs = read_array::<Pair, Standard>(sizes.pairs, reader)?;
    assert(views(pairs@) =~= pairs@);
    Ok(StringTables { ansi_strings, wide_strings, pairs })
}

/// Encodes the section of the strings: the two offset tables, computed from
/// the strings, then the strings and the pairs.
pub fn write_string_tables(
    writer: &mut Vec<u8>,
    ansi_strings: &Vec<String>,
    wide_strings: &Vec<String>,
    pairs: &Vec<Pair>,
)
    ensures
        final(writer)@ == old(writer)@ + string_tables_encoding(
            StringTablesView {
                ansi_strings: views(ansi_strings@),
                wide_strings: views(wide_strings@),
                pairs: pairs@,
            },
        ),
{
    write_ansi_offsets(writer, ansi_strings);
    write_wide_offsets(writer, wide_strings);
    write_array::<String, Ansi>(writer, ansi_strings);
    write_array::<String, Wide>(writer, wide_strings);
    write_array::<Pair, Standard>(writer, pairs);
    assert(views(pairs@) =~= pairs@);
    proof {
        lemma_gather5(
            old(writer)@,
            array_encoding::<u32, Standard>(ansi_offsets(views(ansi_strings@))),
            array_encoding::<u32, Standard>(wide_offsets(views(wide_strings@))),
            array_encoding::<String, Ansi>(views(ansi_strings@)),
            array_encoding::<String, Wide>(views(wide_strings@)),
            array_encoding::<Pair, Standard>(pairs@),
        );
    }
}

/// A decoded name table has as many words as names, and as many of both as
/// the count said. Whether its names fit is up to their bytes.
pub proof fn lemma_parsed_name_table(input: Seq<u8>, count: u32)
    ensures
        parse_name_table(input, count) matches Ok((v, _)) ==> v.idk.len() == count
            && v.names.len() == count,
{
    lemma_parse_array_len::<u64, Standard>(input, count as nat);
    if let Ok((_, r1)) = parse_array::<u64, Standard>(input, count as nat) {
        lemma_parse_array_len::<u16, BigEndian>(r1, count as nat);
        if let Ok((lengths, r2)) = parse_array::<u16, BigEndian>(r1, count as nat) {
            lemma_parse_names_len(r2, lengths);
        }
    }
}

/// Decoded index tables have the lengths that the sizes said, and their
/// index records fit. Whether the texts fit is up to their bytes.
pub proof fn lemma_parsed_index_tables(input: Seq<u8>, sizes: TableSizes)
    ensures
        parse_index_tables(input, sizes) matches Ok((v, _)) ==> index_sizes_match(sizes, v)
            && all_fit::<NameIndexFlagged, Standard>(v.numberless_names) && all_fit::<
            NameIndexFlagged,
            Standard,
        >(v.names_idk) && all_fit::<Asset, Standard>(v.assets) && all_fit::<Asset, Standard>(
            v.export_paths,
        ),
{
    lemma_parse_array_len::<String, Text>(input, sizes.texts as nat);
    if let Ok((_, r1)) = parse_array::<String, Text>(input, sizes.texts as nat) {
        let n1 = sizes.numberless_names as nat;
        lemma_parse_array_len::<NameIndexFlagged, Standard>(r1, n1);
        lemma_parse_array_fits::<NameIndexFlagged, Standard>(r1, n1);
        if let Ok((_, r2)) = parse_array::<NameIndexFlagged, Standard>(r1, n1) {
            let n2 = sizes.names_idk as nat;
            lemma_parse_array_len::<NameIndexFlagged, Standard>(r2, n2);
            lemma_parse_array_fits::<NameIndexFlagged, Standard>(r2, n2);
            if let Ok((_, r3)) = parse_array::<NameIndexFlagged, Standard>(r2, n2) {
                let n3 = sizes.assets as nat;
                lemma_parse_array_len::<Asset, Standard>(r3, n3);
                lemma_parse_array_fits::<Asset, Standard>(r3, n3);
                if let Ok((_, r4)) = parse_array::<Asset, Standard>(r3, n3) {
                    let n4 = sizes.export_paths as nat;
                    lemma_parse_array_len::<Asset, Standard>(r4, n4);
                    lemma_parse_array_fits::<Asset, Standard>(r4, n4);
                }
            }
        }
    }
}

/// Decoded string tables have the lengths that the sizes said, and their
/// wide strings and pairs fit. Whether the byte strings fit is up to their
/// bytes.
pub proof fn lemma_parsed_string_tables(input: Seq<u8>, sizes: TableSizes)
    ensures
        parse_string_tables(input, sizes) matches Ok((v, _)) ==> string_sizes_match(sizes, v)
            && all_fit::<String, Wide>(v.wide_strings) && all_fit::<Pair, Standard>(v.pairs),
{
    let na = sizes.ansi_strings as nat;
    let nw = sizes.wide_strings as nat;
    let np = sizes.pairs as nat;
    if let Ok((_, r1)) = parse_array::<u32, Standard>(input, na) {
        if let Ok((_, r2)) = parse_array::<u32, Standard>(r1, nw) {
            lemma_parse_array_len::<String, Ansi>(r2, na);
            if let Ok((_, r3)) = parse_array::<String, Ansi>(r2, na) {
                lemma_parse_array_len::<String, Wide>(r3, nw);
                lemma_parse_array_fits::<String, Wide>(r3, nw);
                if let Ok((_, r4)) = parse_array::<String, Wide>(r3, nw) {
                    lemma_parse_array_len::<Pair, Standard>(r4, np);
                    lemma_parse_array_fits::<Pair, Standard>(r4, np);
                }
            }
        }
    }
}

} // verus!
