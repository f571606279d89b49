//! The registry: its fields in the order of the wire, and the two passes
//! that decode and encode it.

use crate::codec::{
    all_fit, counted_encoding, lemma_counted_round_trip, lemma_parse_counted_fits, parse_counted,
    read_counted, views, write_counted, Format, Readable, Sound, Standard, Writable,
};
use crate::error::{DecodeError, Sentinel, MAGIC_END, MAGIC_START};
use crate::index::NameIndexFlagged;
use crate::layout::{
    lemma_sentinel_round_trip, parse_sentinel, read_sentinel, Preamble, TableSizes,
};
use crate::offsets::{ansi_offsets, wide_offsets};
use crate::pair::Pair;
use crate::reader::{Parsed, Reader};
use crate::record::{Asset, AssetData, AssetDataView, Dependencies, DependenciesView};
use crate::scalar::Guid;
use crate::seqs::{lemma_gather5, lemma_gather6, lemma_regroup5, lemma_regroup6};
use crate::tables::{
    index_sizes_match, index_tables_encoding, index_tables_fit, lemma_index_tables_round_trip,
    lemma_name_table_round_trip, lemma_parsed_index_tables, lemma_parsed_name_table,
    lemma_parsed_string_tables, lemma_string_tables_round_trip, name_table_encoding,
    name_table_fits, parse_index_tables, parse_name_table, parse_string_tables,
    read_index_tables, read_name_table, read_string_tables, string_sizes_match,
    string_tables_fit, string_tables_layout, write_index_tables, write_name_table,
    write_string_tables, IndexTablesView, NameTable, NameTableView, StringTablesView,
};
use crate::text::{names_fit, Ansi, Text};
use crate::wire::{lemma_low32_small, low32, low32_of, u32_to_le};
use crate::writer::put_u32_le;
use vstd::prelude::*;

verus! {

/// The catalogue of the cooked assets of a title. The order of the fields is
/// the order of the wire; the counts of the tables are not stored, they are
/// the lengths of the tables.
#[derive(Debug, Clone, PartialEq, Eq)]
pub struct AssetRegistry {
    pub version: Guid,
    pub unknown1: u32,
    pub unknown2: u32,
    pub unknown3: u16,
    pub unknown4: u16,
    pub unknown5: u32,
    pub idk: Vec<u64>,
    pub names: Vec<String>,
    pub magic_start: u32,
    pub unknown7: u32,
    pub unknown8: u32,
    pub unknown9: u32,
    pub unknown10: u32,
    pub texts: Vec<String>,
    pub numberless_names: Vec<NameIndexFlagged>,
    pub names_idk: Vec<NameIndexFlagged>,
    pub assets: Vec<Asset>,
    pub export_paths: Vec<Asset>,
    pub ansi_strings: Vec<String>,
    pub wide_strings: Vec<String>,
    pub pairs: Vec<Pair>,
    pub magic_end: u32,
    pub asset_data: Vec<AssetData>,
    pub dependencies: Dependencies,
}

/// A registry as a mathematical value.
pub struct AssetRegistryView {
    pub version: Seq<u8>,
    pub unknown1: u32,
    pub unknown2: u32,
    pub unknown3: u16,
    pub unknown4: u16,
    pub unknown5: u32,
    pub idk: Seq<u64>,
    pub names: Seq<Seq<char>>,
    pub magic_start: u32,
    pub unknown7: u32,
    pub unknown8: u32,
    pub unknown9: u32,
    pub unknown10: u32,
    pub texts: Seq<Seq<char>>,
    pub numberless_names: Seq<NameIndexFlagged>,
    pub names_idk: Seq<NameIndexFlagged>,
    pub assets: Seq<Asset>,
    pub export_paths: Seq<Asset>,
    pub ansi_strings: Seq<Seq<char>>,
    pub wide_strings: Seq<Seq<char>>,
    pub pairs: Seq<Pair>,
    pub magic_end: u32,
    pub asset_data: Seq<AssetDataView>,
    pub dependencies: DependenciesView,
}

impl View for AssetRegistry {
    type V = AssetRegistryView;

    open spec fn view(&self) -> AssetRegistryView {
        AssetRegistryView {
            version: self.version@,
            unknown1: self.unknown1,
            unknown2: self.unknown2,
            unknown3: self.unknown3,
            unknown4: self.unknown4,
            unknown5: self.unknown5,
            idk: self.idk@,
            names: views(self.names@),
            magic_start: self.magic_start,
            unknown7: self.unknown7,
            unknown8: self.unknown8,
            unknown9: self.unknown9,
            unknown10: self.unknown10,
            texts: views(self.texts@),
            numberless_names: self.numberless_names@,
            names_idk: self.names_idk@,
            assets: self.assets@,
            export_paths: self.export_paths@,
            ansi_strings: views(self.ansi_strings@),
            wide_strings: views(self.wide_strings@),
            pairs: self.pairs@,
            magic_end: self.magic_end,
            asset_data: views(self.asset_data@),
            dependencies: self.dependencies@,
        }
    }
}

impl AssetRegistryView {
    /// The scalars behind the version stamp. The number of names is the low
    /// 32 bits of the length of the name table.
    pub open spec fn preamble(self) -> Preamble {
        Preamble {
            unknown1: self.unknown1,
            name_count: low32(self.names.len() as int),
            unknown2: self.unknown2,
            unknown3: self.unknown3,
            unknown4: self.unknown4,
            unknown5: self.unknown5,
        }
    }

    /// The name table and the words beside it.
    pub open spec fn name_table(self) -> NameTableView {
        NameTableView { idk: self.idk, names: self.names }
    }

    /// The block of sizes. Each size is the low 32 bits of the length of its
    /// table.
    pub open spec fn sizes(self) -> TableSizes {
        TableSizes {
            numberless_names: low32(self.numberless_names.len() as int),
            names_idk: low32(self.names_idk.len() as int),
            assets: low32(self.assets.len() as int),
            export_paths: low32(self.export_paths.len() as int),
            texts: low32(self.texts.len() as int),
            ansi_strings: low32(self.ansi_strings.len() as int),
            wide_strings: low32(self.wide_strings.len() as int),
            unknown7: self.unknown7,
            unknown8: self.unknown8,
            pairs: low32(self.pairs.len() as int),
            unknown9: self.unknown9,
            unknown10: self.unknown10,
        }
    }

    /// The texts and the tables of index records.
    pub open spec fn index_tables(self) -> IndexTablesView {
        IndexTablesView {
            texts: self.texts,
            numberless_names: self.numberless_names,
            names_idk: self.names_idk,
            assets: self.assets,
            export_paths: self.export_paths,
        }
    }

    /// The terminated strings and the tagged pairs.
    pub open spec fn string_tables(self) -> StringTablesView {
        StringTablesView {
            ansi_strings: self.ansi_strings,
            wide_strings: self.wide_strings,
            pairs: self.pairs,
        }
    }
}

/// The registry that the decoded sections make.
pub open spec fn assemble(
    version: Seq<u8>,
    preamble: Preamble,
    name_table: NameTableView,
    magic_start: u32,
    sizes: TableSizes,
    index_tables: IndexTablesView,
    string_tables: StringTablesView,
    magic_end: u32,
    asset_data: Seq<AssetDataView>,
    dependencies: DependenciesView,
) -> AssetRegistryView {
    AssetRegistryView {
        version,
        unknown1: preamble.unknown1,
        unknown2: preamble.unknown2,
        unknown3: preamble.unknown3,
        unknown4: preamble.unknown4,
        unknown5: preamble.unknown5,
        idk: name_table.idk,
        names: name_table.names,
        magic_start,
        unknown7: sizes.unknown7,
        unknown8: sizes.unknown8,
        unknown9: sizes.unknown9,
        unknown10: sizes.unknown10,
        texts: index_tables.texts,
        numberless_names: index_tables.numberless_names,
        names_idk: index_tables.names_idk,
        assets: index_tables.assets,
        export_paths: index_tables.export_paths,
        ansi_strings: string_tables.ansi_strings,
        wide_strings: string_tables.wide_strings,
        pairs: string_tables.pairs,
        magic_end,
        asset_data,
        dependencies,
    }
}

/// The part of a registry behind the block of sizes: the tables, the end
/// sentinel, the asset data behind their own count, and the dependencies.
pub open spec fn parse_body(
    input: Seq<u8>,
    version: Seq<u8>,
    preamble: Preamble,
    name_table: NameTableView,
    magic_start: u32,
    sizes: TableSizes,
) -> Parsed<AssetRegistryView> {
    match parse_index_tables(input, sizes) {
        Err(e) => Err(e),
        Ok((index_tables, r1)) => match parse_string_tables(r1, sizes) {
            Err(e) => Err(e),
            Ok((string_tables, r2)) => match parse_sentinel(r2, Sentinel::End) {
                Err(e) => Err(e),
                Ok((magic_end, r3)) => match parse_counted::<AssetData, Standard>(r3) {
                    Err(e) => Err(e),
                    Ok((asset_data, r4)) => match Dependencies::parse(r4) {
                        Err(e) => Err(e),
                        Ok((dependencies, r5)) => Ok(
                            (
                                assemble(
                                    version,
                                    preamble,
                                    name_table,
                                    magic_start,
                                    sizes,
                                    index_tables,
                                    string_tables,
                                    magic_end,
                                    asset_data,
                                    dependencies,
                                ),
                                r5,
                            ),
                        ),
                    },
                },
            },
        },
    }
}

/// A registry: the version stamp, the scalars, the name table with the
/// number of names that the scalars gave, the start sentinel, the block of
/// sizes, and the body.
pub open spec fn parse_registry(input: Seq<u8>) -> Parsed<AssetRegistryView> {
    match Guid::parse(input) {
        Err(e) => Err(e),
        Ok((version, r1)) => match Preamble::parse(r1) {
            Err(e) => Err(e),
            Ok((preamble, r2)) => match parse_name_table(r2, preamble.name_count) {
                Err(e) => Err(e),
                Ok((name_table, r3)) => match parse_sentinel(r3, Sentinel::Start) {
                    Err(e) => Err(e),
                    Ok((magic_start, r4)) => match TableSizes::parse(r4) {
                        Err(e) => Err(e),
                        Ok((sizes, r5)) => parse_body(
                            r5,
                            version,
                            preamble,
                            name_table,
                            magic_start,
                            sizes,
                        ),
                    },
                },
            },
        },
    }
}

/// The bytes of the body, with the given offset tables.
pub open spec fn body_layout(
    v: AssetRegistryView,
    ansi_table: Seq<u32>,
    wide_table: Seq<u32>,
) -> Seq<u8> {
    index_tables_encoding(v.index_tables()) + string_tables_layout(
        v.string_tables(),
        ansi_table,
        wide_table,
    ) + u32_to_le(v.magic_end) + counted_encoding::<AssetData, Standard>(v.asset_data)
        + Dependencies::encoding(v.dependencies)
}

/// The bytes of a registry, with the given offset tables.
pub open spec fn registry_layout(
    v: AssetRegistryView,
    ansi_table: Seq<u32>,
    wide_table: Seq<u32>,
) -> Seq<u8> {
    Guid::encoding(v.version) + Preamble::encoding(v.preamble()) + name_table_encoding(
        v.name_table(),
    ) + u32_to_le(v.magic_start) + TableSizes::encoding(v.sizes()) + body_layout(
        v,
        ansi_table,
        wide_table,
    )
}

/// The bytes of a registry. The two offset tables are computed from the
/// strings.
pub open spec fn registry_encoding(v: AssetRegistryView) -> Seq<u8> {
    registry_layout(v, ansi_offsets(v.ansi_strings), wide_offsets(v.wide_strings))
}

/// Decodes the body of a registry and puts the registry together.
fn read_body(
    reader: &mut Reader<'_>,
    version: Guid,
    preamble: Preamble,
    name_table: NameTable,
    magic_start: u32,
    sizes: TableSizes,
) -> (res: Result<AssetRegistry, DecodeError>)
    ensures
        match parse_body(old(reader)@, version@, preamble, name_table@, magic_start, sizes) {
            Ok((v, rest)) => res is Ok && res->Ok_0@ == v && final(reader)@ == rest,
            Err(e) => res == Err::<AssetRegistry, DecodeError>(e),
        },
{
    let index_tables = read_index_tables(&sizes, reader)?;
    let string_tables = read_string_tables(&sizes, reader)?;
    let magic_end = read_sentinel(reader, Sentinel::End)?;
    let asset_data = read_counted::<AssetData, Standard>(reader)?;
    let dependencies = Dependencies::read(reader)?;
    Ok(
        AssetRegistry {
            version,
            unknown1: preamble.unknown1,
            unknown2: preamble.unknown2,
            unknown3: preamble.unknown3,
            unknown4: preamble.unknown4,
            unknown5: preamble.unknown5,
            idk: name_table.idk,
            names: name_table.names,
            magic_start,
            unknown7: sizes.unknown7,
            unknown8: sizes.unknown8,
            unknown9: sizes.unknown9,
            unknown10: sizes.unknown10,
            texts: index_tables.texts,
            numberless_names: index_tables.numberless_names,
            names_idk: index_tables.names_idk,
            assets: index_tables.assets,
            export_paths: index_tables.export_paths,
            ansi_strings: string_tables.ansi_strings,
            wide_strings: string_tables.wide_strings,
            pairs: string_tables.pairs,
            magic_end,
            asset_data,
            dependencies,
        },
    )
}

/// Encodes the body of a registry.
fn write_body(registry: &AssetRegistry, writer: &mut Vec<u8>)
    ensures
        final(writer)@ == old(writer)@ + body_layout(
            registry@,
            ansi_offsets(registry@.ansi_strings),
            wide_offsets(registry@.wide_strings),
        ),
{
    write_index_tables(
        writer,
        &registry.texts,
        &registry.numberless_names,
        &registry.names_idk,
        &registry.assets,
        &registry.export_paths,
    );
    write_string_tables(
        writer,
        &registry.ansi_strings,
        &registry.wide_strings,
        &registry.pairs,
    );
    put_u32_le(writer, registry.magic_end);
    write_counted::<AssetData, Standard>(writer, &registry.asset_data);
    registry.dependencies.write(writer);
    proof {
        lemma_gather5(
            old(writer)@,
            index_tables_encoding(registry@.index_tables()),
            string_tables_layout(
                registry@.string_tables(),
                ansi_offsets(registry@.ansi_strings),
                wide_offsets(registry@.wide_strings),
            ),
            u32_to_le(registry@.magic_end),
            counted_encoding::<AssetData, Standard>(registry@.asset_data),
            Dependencies::encoding(registry@.dependencies),
        );
    }
}

impl AssetRegistry {
    /// The scalars behind the version stamp.
    fn preamble(&self) -> (p: Preamble)
        ensures
            p == self@.preamble(),
    {
        Preamble {
            unknown1: self.unknown1,
            name_count: low32_of(self.names.len()),
            unknown2: self.unknown2,
            unknown3: self.unknown3,
            unknown4: self.unknown4,
            unknown5: self.unknown5,
        }
    }

    /// The block of sizes.
    fn sizes(&self) -> (s: TableSizes)
        ensures
            s == self@.sizes(),
    {
        TableSizes {
            numberless_names: low32_of(self.numberless_names.len()),
            names_idk: low32_of(self.names_idk.len()),
            assets: low32_of(self.assets.len()),
            export_paths: low32_of(self.export_paths.len()),
            texts: low32_of(self.texts.len()),
            ansi_strings: low32_of(self.ansi_strings.len()),
            wide_strings: low32_of(self.wide_strings.len()),
            unknown7: self.unknown7,
            unknown8: self.unknown8,
            pairs: low32_of(self.pairs.len()),
            unknown9: self.unknown9,
            unknown10: self.unknown10,
        }
    }
}

impl Readable for AssetRegistry {
    open spec fn parse(input: Seq<u8>) -> Parsed<AssetRegistryView> {
        parse_registry(input)
    }

    fn read(reader: &mut Reader<'_>) -> (res: Result<Self, DecodeError>) {
        let version = Guid::read(reader)?;
        let preamble = Preamble::read(reader)?;
        let name_table = read_name_table(preamble.name_count, reader)?;
        let magic_start = read_sentinel(reader, Sentinel::Start)?;
        let sizes = TableSizes::read(reader)?;
        read_body(reader, version, preamble, name_table, magic_start, sizes)
    }
}

impl Writable for AssetRegistry {
    open spec fn encoding(v: AssetRegistryView) -> Seq<u8> {
        registry_encoding(v)
    }

    fn write(&self, writer: &mut Vec<u8>) {
        self.version.write(writer);
        self.preamble().write(writer);
        write_name_table(writer, &self.idk, &self.names);
        put_u32_le(writer, self.magic_start);
        self.sizes().write(writer);
        write_body(self, writer);
        proof {
            lemma_gather6(
                old(writer)@,
                Guid::encoding(self@.version),
                Preamble::encoding(self@.preamble()),
                name_table_encoding(self@.name_table()),
                u32_to_le(self@.magic_start),
                TableSizes::encoding(self@.sizes()),
                body_layout(
                    self@,
                    ansi_offsets(self@.ansi_strings),
                    wide_offsets(self@.wide_strings),
                ),
            );
        }
    }
}

/// Decodes a registry from a buffer. Bytes behind the registry are not
/// looked at.
pub fn decode(bytes: &[u8]) -> (res: Result<AssetRegistry, DecodeError>)
    ensures
        match parse_registry(bytes@) {
            Ok((v, _)) => res is Ok && res->Ok_0@ == v,
            Err(e) => res == Err::<AssetRegistry, DecodeError>(e),
        },
{
    let mut reader = Reader::new(bytes);
    AssetRegistry::read(&mut reader)
}

/// Encodes a registry into a new buffer.
pub fn encode(registry: &AssetRegistry) -> (bytes: Vec<u8>)
    ensures
        bytes@ == registry_encoding(registry@),
{
    let mut bytes: Vec<u8> = Vec::new();
    registry.write(&mut bytes);
    assert(Seq::<u8>::empty() + registry_encoding(registry@) =~= registry_encoding(registry@));
    bytes
}

/// A registry fits the format when encoding it loses nothing: the version
/// stamp has sixteen bytes, the two sentinels hold their values, every table
/// has no more elements than its count can say, there are as many words
/// beside the name table as names, and every element fits its encoding.
pub open spec fn registry_fits(v: AssetRegistryView) -> bool {
    &&& v.version.len() == 16
    &&& name_table_fits(v.name_table())
    &&& v.magic_start == MAGIC_START
    &&& index_tables_fit(v.index_tables())
    &&& string_tables_fit(v.string_tables())
    &&& v.magic_end == MAGIC_END
    &&& v.asset_data.len() <= u32::MAX
    &&& all_fit::<AssetData, Standard>(v.asset_data)
    &&& Dependencies::fits(v.dependencies)
}

/// The counts of a registry that fits are the lengths of its tables.
pub proof fn lemma_sizes_of_fitting(v: AssetRegistryView)
    requires
        registry_fits(v),
    ensures
        v.preamble().name_count == v.names.len(),
        index_sizes_match(v.sizes(), v.index_tables()),
        string_sizes_match(v.sizes(), v.string_tables()),
{
    lemma_low32_small(v.names.len() as int);
    lemma_low32_small(v.numberless_names.len() as int);
    lemma_low32_small(v.names_idk.len() as int);
    lemma_low32_small(v.assets.len() as int);
    lemma_low32_small(v.export_paths.len() as int);
    lemma_low32_small(v.texts.len() as int);
    lemma_low32_small(v.ansi_strings.len() as int);
    lemma_low32_small(v.wide_strings.len() as int);
    lemma_low32_small(v.pairs.len() as int);
}

/// The body of a registry that fits is read back, whatever the offset tables
/// hold.
pub proof fn lemma_body_round_trip(
    v: AssetRegistryView,
    ansi_table: Seq<u32>,
    wide_table: Seq<u32>,
    rest: Seq<u8>,
)
    requires
        registry_fits(v),
        ansi_table.len() == v.ansi_strings.len(),
        wide_table.len() == v.wide_strings.len(),
    ensures
        parse_body(
            body_layout(v, ansi_table, wide_table) + rest,
            v.version,
            v.preamble(),
            v.name_table(),
            v.magic_start,
            v.sizes(),
        ) == Ok::<(AssetRegistryView, Seq<u8>), DecodeError>((v, rest)),
{
    let sizes = v.sizes();
    let t4 = Dependencies::encoding(v.dependencies) + rest;
    let t3 = counted_encoding::<AssetData, Standard>(v.asset_data) + t4;
    let t2 = u32_to_le(v.magic_end) + t3;
    let t1 = string_tables_layout(v.string_tables(), ansi_table, wide_table) + t2;
    lemma_regroup5(
        index_tables_encoding(v.index_tables()),
        string_tables_layout(v.string_tables(), ansi_table, wide_table),
        u32_to_le(v.magic_end),
        counted_encoding::<AssetData, Standard>(v.asset_data),
        Dependencies::encoding(v.dependencies),
        rest,
    );
    lemma_sizes_of_fitting(v);
    lemma_index_tables_round_trip(v.index_tables(), sizes, t1);
    lemma_string_tables_round_trip(v.string_tables(), ansi_table, wide_table, sizes, t2);
    lemma_sentinel_round_trip(Sentinel::End, t3);
    lemma_counted_round_trip::<AssetData, Standard>(v.asset_data, t4);
    Dependencies::lemma_round_trip(v.dependencies, rest);
    assert(assemble(
        v.version,
        v.preamble(),
        v.name_table(),
        v.magic_start,
        sizes,
        v.index_tables(),
        v.string_tables(),
        v.magic_end,
        v.asset_data,
        v.dependencies,
    ) == v);
}

/// The head of a registry fits: the version stamp has sixteen bytes, the
/// name table fits, and the start sentinel holds its value.
pub open spec fn head_fits(v: AssetRegistryView) -> bool {
    &&& v.version.len() == 16
    &&& name_table_fits(v.name_table())
    &&& v.magic_start == MAGIC_START
}

/// Decoding the bytes of a registry whose head fits comes down to decoding
/// its body.
pub proof fn lemma_head_round_trip(
    v: AssetRegistryView,
    ansi_table: Seq<u32>,
    wide_table: Seq<u32>,
    rest: Seq<u8>,
)
    requires
        head_fits(v),
    ensures
        parse_registry(registry_layout(v, ansi_table, wide_table) + rest) == parse_body(
            body_layout(v, ansi_table, wide_table) + rest,
            v.version,
            v.preamble(),
            v.name_table(),
            v.magic_start,
            v.sizes(),
        ),
{
    let t5 = body_layout(v, ansi_table, wide_table) + rest;
    let t4 = TableSizes::encoding(v.sizes()) + t5;
    let t3 = u32_to_le(v.magic_start) + t4;
    let t2 = name_table_encoding(v.name_table()) + t3;
    let t1 = Preamble::encoding(v.preamble()) + t2;
    lemma_regroup6(
        Guid::encoding(v.version),
        Preamble::encoding(v.preamble()),
        name_table_encoding(v.name_table()),
        u32_to_le(v.magic_start),
        TableSizes::encoding(v.sizes()),
        body_layout(v, ansi_table, wide_table),
        rest,
    );
    assert(Guid::parse(Guid::encoding(v.version) + t1) == Ok::<(Seq<u8>, Seq<u8>), DecodeError>(
        (v.version, t1),
    )) by {
        Guid::lemma_round_trip(v.version, t1);
    }
    assert(Preamble::parse(t1) == Ok::<(Preamble, Seq<u8>), DecodeError>((v.preamble(), t2))) by {
        Preamble::lemma_round_trip(v.preamble(), t2);
    }
    assert(parse_name_table(t2, v.preamble().name_count) == Ok::<
        (NameTableView, Seq<u8>),
        DecodeError,
    >((v.name_table(), t3))) by {
        lemma_low32_small(v.names.len() as int);
        lemma_name_table_round_trip(v.name_table(), t3);
    }
    assert(parse_sentinel(t3, Sentinel::Start) == Ok::<(u32, Seq<u8>), DecodeError>(
        (v.magic_start, t4),
    )) by {
        lemma_sentinel_round_trip(Sentinel::Start, t4);
    }
    assert(TableSizes::parse(t4) == Ok::<(TableSizes, Seq<u8>), DecodeError>((v.sizes(), t5))) by {
        TableSizes::lemma_round_trip(v.sizes(), t5);
    }
}

/// A registry that fits is read back from its bytes, whatever the offset
/// tables hold, as long as they have one entry for each string.
pub proof fn lemma_layout_round_trip(
    v: AssetRegistryView,
    ansi_table: Seq<u32>,
    wide_table: Seq<u32>,
    rest: Seq<u8>,
)
    requires
        registry_fits(v),
        ansi_table.len() == v.ansi_strings.len(),
        wide_table.len() == v.wide_strings.len(),
    ensures
        parse_registry(registry_layout(v, ansi_table, wide_table) + rest) == Ok::<
            (AssetRegistryView, Seq<u8>),
            DecodeError,
        >((v, rest)),
{
    lemma_head_round_trip(v, ansi_table, wide_table, rest);
    lemma_body_round_trip(v, ansi_table, wide_table, rest);
}

impl Format for AssetRegistry {
    open spec fn fits(v: AssetRegistryView) -> bool {
        registry_fits(v)
    }

    proof fn lemma_round_trip(v: AssetRegistryView, rest: Seq<u8>) {
        lemma_layout_round_trip(
            v,
            ansi_offsets(v.ansi_strings),
            wide_offsets(v.wide_strings),
            rest,
        );
    }
}

/// The strings of a registry fit their encodings: no name has more than
/// 65535 bytes, the length of every text fits its 32-bit length, and no byte
/// string holds the character NUL. This is the part of fitting the format
/// that a decoded registry can lack, where invalid bytes were replaced.
pub open spec fn strings_fit(v: AssetRegistryView) -> bool {
    &&& names_fit(v.names)
    &&& all_fit::<String, Text>(v.texts)
    &&& all_fit::<String, Ansi>(v.ansi_strings)
}

/// A decoded body fits the format, if its texts and byte strings do.
pub proof fn lemma_parsed_body(
    input: Seq<u8>,
    version: Seq<u8>,
    preamble: Preamble,
    name_table: NameTableView,
    magic_start: u32,
    sizes: TableSizes,
)
    ensures
        parse_body(input, version, preamble, name_table, magic_start, sizes) matches Ok((v, _))
            ==> {
            &&& v.version == version
            &&& v.name_table() == name_table
            &&& v.magic_start == magic_start
            &&& v.magic_end == MAGIC_END
            &&& v.asset_data.len() <= u32::MAX
            &&& all_fit::<AssetData, Standard>(v.asset_data)
            &&& Dependencies::fits(v.dependencies)
            &&& (all_fit::<String, Text>(v.texts) ==> index_tables_fit(v.index_tables()))
            &&& (all_fit::<String, Ansi>(v.ansi_strings) ==> string_tables_fit(
                v.string_tables(),
            ))
        },
{
    lemma_parsed_index_tables(input, sizes);
    if let Ok((_, r1)) = parse_index_tables(input, sizes) {
        lemma_parsed_string_tables(r1, sizes);
        if let Ok((_, r2)) = parse_string_tables(r1, sizes) {
            if let Ok((_, r3)) = parse_sentinel(r2, Sentinel::End) {
                lemma_parse_counted_fits::<AssetData, Standard>(r3);
                if let Ok((_, r4)) = parse_counted::<AssetData, Standard>(r3) {
                    Dependencies::lemma_parsed_fits(r4);
                }
            }
        }
    }
}

/// A decoded registry fits the format, if its strings do: everything else
/// that fitting asks for holds of whatever the decoder yields.
pub proof fn lemma_decoded_fits(bytes: Seq<u8>)
    ensures
        parse_registry(bytes) matches Ok((v, _)) ==> (strings_fit(v) ==> registry_fits(v)),
{
    if let Ok((version, r1)) = Guid::parse(bytes) {
        if let Ok((preamble, r2)) = Preamble::parse(r1) {
            lemma_parsed_name_table(r2, preamble.name_count);
            if let Ok((name_table, r3)) = parse_name_table(r2, preamble.name_count) {
                if let Ok((magic_start, r4)) = parse_sentinel(r3, Sentinel::Start) {
                    if let Ok((sizes, r5)) = TableSizes::parse(r4) {
                        lemma_parsed_body(r5, version, preamble, name_table, magic_start, sizes);
                    }
                }
            }
        }
    }
}

} // verus!
