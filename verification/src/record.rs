//! The records of the registry: asset records, asset-data records and the
//! dependencies block.

use crate::codec::{
    counted_encoding, lemma_counted_round_trip, lemma_parse_counted_fits, parse_counted,
    read_counted, views, write_counted, Format, Readable, Sound, Standard, Writable,
};
use crate::error::DecodeError;
use crate::index::NameIndexFlagged;
use crate::reader::{
    lemma_take_u32_le, lemma_take_u64_le, take_u32_le, take_u64_le, Parsed, Reader,
};
use crate::wire::{u32_to_le, u64_to_le};
use crate::writer::{put_u32_le, put_u64_le};
use vstd::prelude::*;

verus! {

/// Three flagged indices: object path, package path and class. The assets
/// and the export paths of a registry are both made of these.
#[derive(Debug, Clone, Copy, PartialEq, Eq, Structural)]
pub struct Asset {
    pub object_path: NameIndexFlagged,
    pub package_path: NameIndexFlagged,
    pub asset_class: NameIndexFlagged,
}

impl View for Asset {
    type V = Asset;

    open spec fn view(&self) -> Asset {
        *self
    }
}

impl Readable for Asset {
    open spec fn parse(input: Seq<u8>) -> Parsed<Asset> {
        match NameIndexFlagged::parse(input) {
            Err(e) => Err(e),
            Ok((object_path, r1)) => match NameIndexFlagged::parse(r1) {
                Err(e) => Err(e),
                Ok((package_path, r2)) => match NameIndexFlagged::parse(r2) {
                    Err(e) => Err(e),
                    Ok((asset_class, r3)) => Ok(
                        (Asset { object_path, package_path, asset_class }, r3),
                    ),
                },
            },
        }
    }

    fn read(reader: &mut Reader<'_>) -> (res: Result<Self, DecodeError>) {
        let object_path = NameIndexFlagged::read(reader)?;
        let package_path = NameIndexFlagged::read(reader)?;
        let asset_class = NameIndexFlagged::read(reader)?;
        Ok(Asset { object_path, package_path, asset_class })
    }
}

impl Writable for Asset {
    open spec fn encoding(v: Asset) -> Seq<u8> {
        NameIndexFlagged::encoding(v.object_path) + NameIndexFlagged::encoding(v.package_path)
            + NameIndexFlagged::encoding(v.asset_class)
    }

    fn write(&self, writer: &mut Vec<u8>) {
        self.object_path.write(writer);
        self.package_path.write(writer);
        self.asset_class.write(writer);
        assert(writer@ =~= old(writer)@ + Self::encoding(*self));
    }
}

impl Format for Asset {
    /// A record fits when its three indices fit.
    open spec fn fits(v: Asset) -> bool {
        &&& NameIndexFlagged::fits(v.object_path)
        &&& NameIndexFlagged::fits(v.package_path)
        &&& NameIndexFlagged::fits(v.asset_class)
    }

    proof fn lemma_round_trip(v: Asset, rest: Seq<u8>) {
        let t2 = NameIndexFlagged::encoding(v.asset_class) + rest;
        let t1 = NameIndexFlagged::encoding(v.package_path) + t2;
        assert(Self::encoding(v) + rest =~= NameIndexFlagged::encoding(v.object_path) + t1);
        NameIndexFlagged::lemma_round_trip(v.object_path, t1);
        NameIndexFlagged::lemma_round_trip(v.package_path, t2);
        NameIndexFlagged::lemma_round_trip(v.asset_class, rest);
    }
}

impl Sound for Asset {
    proof fn lemma_parsed_fits(input: Seq<u8>) {
        NameIndexFlagged::lemma_parsed_fits(input);
        if let Ok((_, r1)) = NameIndexFlagged::parse(input) {
            NameIndexFlagged::lemma_parsed_fits(r1);
            if let Ok((_, r2)) = NameIndexFlagged::parse(r1) {
                NameIndexFlagged::lemma_parsed_fits(r2);
            }
        }
    }
}

/// What the registry records of one asset: five flagged indices, eight bytes
/// of tag metadata that are kept as they are, a bundle count, the chunk ids
/// and a flags word.
#[derive(Debug, Clone, PartialEq, Eq)]
pub struct AssetData {
    pub object_path: NameIndexFlagged,
    pub package_path: NameIndexFlagged,
    pub asset_class: NameIndexFlagged,
    pub package_name: NameIndexFlagged,
    pub asset_name: NameIndexFlagged,
    pub tag_meta: u64,
    pub bundle_count: u32,
    pub chunk_ids: Vec<u32>,
    pub flags: u32,
}

/// An asset-data record as a mathematical value.
pub struct AssetDataView {
    pub object_path: NameIndexFlagged,
    pub package_path: NameIndexFlagged,
    pub asset_class: NameIndexFlagged,
    pub package_name: NameIndexFlagged,
    pub asset_name: NameIndexFlagged,
    pub tag_meta: u64,
    pub bundle_count: u32,
    pub chunk_ids: Seq<u32>,
    pub flags: u32,
}

impl View for AssetData {
    type V = AssetDataView;

    open spec fn view(&self) -> AssetDataView {
        AssetDataView {
            object_path: self.object_path,
            package_path: self.package_path,
            asset_class: self.asset_class,
            package_name: self.package_name,
            asset_name: self.asset_name,
            tag_meta: self.tag_meta,
            bundle_count: self.bundle_count,
            chunk_ids: self.chunk_ids@,
            flags: self.flags,
        }
    }
}

impl AssetDataView {
    /// The first three indices, which are laid out as an asset record.
    pub open spec fn paths(self) -> Asset {
        Asset {
            object_path: self.object_path,
            package_path: self.package_path,
            asset_class: self.asset_class,
        }
    }
}

/// The bytes of the part of an asset-data record that follows its five
/// indices.
pub open spec fn asset_data_tail_encoding(v: AssetDataView) -> Seq<u8> {
    u64_to_le(v.tag_meta) + u32_to_le(v.bundle_count) + counted_encoding::<u32, Standard>(
        v.chunk_ids,
    ) + u32_to_le(v.flags)
}

/// The part behind the indices is read back.
pub proof fn lemma_asset_data_tail(v: AssetDataView, rest: Seq<u8>)
    requires
        v.chunk_ids.len() <= u32::MAX,
    ensures
        parse_asset_data_tail(
            v.paths(),
            v.package_name,
            v.asset_name,
            asset_data_tail_encoding(v) + rest,
        ) == Ok::<(AssetDataView, Seq<u8>), DecodeError>((v, rest)),
{
    let t3 = u32_to_le(v.flags) + rest;
    let t2 = counted_encoding::<u32, Standard>(v.chunk_ids) + t3;
    let t1 = u32_to_le(v.bundle_count) + t2;
    assert(asset_data_tail_encoding(v) + rest =~= u64_to_le(v.tag_meta) + t1);
    lemma_take_u64_le(v.tag_meta, t1);
    lemma_take_u32_le(v.bundle_count, t2);
    lemma_counted_round_trip::<u32, Standard>(v.chunk_ids, t3);
    lemma_take_u32_le(v.flags, rest);
}

/// The part of an asset-data record that follows its five indices.
pub open spec fn parse_asset_data_tail(
    paths: Asset,
    package_name: NameIndexFlagged,
    asset_name: NameIndexFlagged,
    input: Seq<u8>,
) -> Parsed<AssetDataView> {
    match take_u64_le(input) {
        Err(e) => Err(e),
        Ok((tag_meta, r1)) => match take_u32_le(r1) {
            Err(e) => Err(e),
            Ok((bundle_count, r2)) => match parse_counted::<u32, Standard>(r2) {
                Err(e) => Err(e),
                Ok((chunk_ids, r3)) => match take_u32_le(r3) {
                    Err(e) => Err(e),
                    Ok((flags, r4)) => Ok(
                        (
                            AssetDataView {
                                object_path: paths.object_path,
                                package_path: paths.package_path,
                                asset_class: paths.asset_class,
                                package_name,
                                asset_name,
                                tag_meta,
                                bundle_count,
                                chunk_ids,
                                flags,
                            },
                            r4,
                        ),
                    ),
                },
            },
        },
    }
}

impl Readable for AssetData {
    open spec fn parse(input: Seq<u8>) -> Parsed<AssetDataView> {
        match Asset::parse(input) {
            Err(e) => Err(e),
            Ok((paths, r1)) => match NameIndexFlagged::parse(r1) {
                Err(e) => Err(e),
                Ok((package_name, r2)) => match NameIndexFlagged::parse(r2) {
                    Err(e) => Err(e),
                    Ok((asset_name, r3)) => parse_asset_data_tail(
                        paths,
                        package_name,
                        asset_name,
                        r3,
                    ),
                },
            },
        }
    }

    fn read(reader: &mut Reader<'_>) -> (res: Result<Self, DecodeError>) {
        let object_path = NameIndexFlagged::read(reader)?;
        let package_path = NameIndexFlagged::read(reader)?;
        let asset_class = NameIndexFlagged::read(reader)?;
        let package_name = NameIndexFlagged::read(reader)?;
        let asset_name = NameIndexFlagged::read(reader)?;
        let tag_meta = reader.read_u64_le()?;
        let bundle_count = reader.read_u32_le()?;
        let chunk_ids = read_counted::<u32, Standard>(reader)?;
        assert(views(chunk_ids@) =~= chunk_ids@);
        let flags = reader.read_u32_le()?;
        Ok(
            AssetData {
                object_path,
                package_path,
                asset_class,
                package_name,
                asset_name,
                tag_meta,
                bundle_count,
                chunk_ids,
                flags,
            },
        )
    }
}

impl Writable for AssetData {
    open spec fn encoding(v: AssetDataView) -> Seq<u8> {
        Asset::encoding(v.paths()) + NameIndexFlagged::encoding(v.package_name)
            + NameIndexFlagged::encoding(v.asset_name) + asset_data_tail_encoding(v)
    }

    fn write(&self, writer: &mut Vec<u8>) {
        self.object_path.write(writer);
        self.package_path.write(writer);
        self.asset_class.write(writer);
        self.package_name.write(writer);
        self.asset_name.write(writer);
        put_u64_le(writer, self.tag_meta);
        put_u32_le(writer, self.bundle_count);
        write_counted::<u32, Standard>(writer, &self.chunk_ids);
        assert(views(self.chunk_ids@) =~= self.chunk_ids@);
        put_u32_le(writer, self.flags);
        assert(writer@ =~= old(writer)@ + Self::encoding(self@));
    }
}

impl Format for AssetData {
    /// A record fits when its five indices fit and the number of its chunk
    /// ids can be said in 32 bits.
    open spec fn fits(v: AssetDataView) -> bool {
        &&& NameIndexFlagged::fits(v.object_path)
        &&& NameIndexFlagged::fits(v.package_path)
        &&& NameIndexFlagged::fits(v.asset_class)
        &&& NameIndexFlagged::fits(v.package_name)
        &&& NameIndexFlagged::fits(v.asset_name)
        &&& v.chunk_ids.len() <= u32::MAX
    }

    proof fn lemma_round_trip(v: AssetDataView, rest: Seq<u8>) {
        let t3 = asset_data_tail_encoding(v) + rest;
        let t2 = NameIndexFlagged::encoding(v.asset_name) + t3;
        let t1 = NameIndexFlagged::encoding(v.package_name) + t2;
        assert(Self::encoding(v) + rest =~= Asset::encoding(v.paths()) + t1);
        Asset::lemma_round_trip(v.paths(), t1);
        NameIndexFlagged::lemma_round_trip(v.package_name, t2);
        NameIndexFlagged::lemma_round_trip(v.asset_name, t3);
        lemma_asset_data_tail(v, rest);
    }
}

impl Sound for AssetData {
    proof fn lemma_parsed_fits(input: Seq<u8>) {
        Asset::lemma_parsed_fits(input);
        if let Ok((_, r1)) = Asset::parse(input) {
            NameIndexFlagged::lemma_parsed_fits(r1);
            if let Ok((_, r2)) = NameIndexFlagged::parse(r1) {
                NameIndexFlagged::lemma_parsed_fits(r2);
                if let Ok((_, r3)) = NameIndexFlagged::parse(r2) {
                    if let Ok((_, r4)) = take_u64_le(r3) {
                        if let Ok((_, r5)) = take_u32_le(r4) {
                            lemma_parse_counted_fits::<u32, Standard>(r5);
                        }
                    }
                }
            }
        }
    }
}

/// The block at the end of a registry: a size that is kept as it is, the
/// dependency words with their count, and a buffer size.
#[derive(Debug, Clone, PartialEq, Eq)]
pub struct Dependencies {
    pub dependencies_size: u64,
    pub dependencies: Vec<u32>,
    pub package_data_buffer_size: u32,
}

/// A dependencies block as a mathematical value.
pub struct DependenciesView {
    pub dependencies_size: u64,
    pub dependencies: Seq<u32>,
    pub package_data_buffer_size: u32,
}

impl View for Dependencies {
    type V = DependenciesView;

    open spec fn view(&self) -> DependenciesView {
        DependenciesView {
            dependencies_size: self.dependencies_size,
            dependencies: self.dependencies@,
            package_data_buffer_size: self.package_data_buffer_size,
        }
    }
}

impl Readable for Dependencies {
    open spec fn parse(input: Seq<u8>) -> Parsed<DependenciesView> {
        match take_u64_le(input) {
            Err(e) => Err(e),
            Ok((dependencies_size, r1)) => match parse_counted::<u32, Standard>(r1) {
                Err(e) => Err(e),
                Ok((dependencies, r2)) => match take_u32_le(r2) {
                    Err(e) => Err(e),
                    Ok((package_data_buffer_size, r3)) => Ok(
                        (
                            DependenciesView {
                                dependencies_size,
                                dependencies,
                                package_data_buffer_size,
                            },
                            r3,
                        ),
                    ),
                },
            },
        }
    }

    fn read(reader: &mut Reader<'_>) -> (res: Result<Self, DecodeError>) {
        let dependencies_size = reader.read_u64_le()?;
        let dependencies = read_counted::<u32, Standard>(reader)?;
        assert(views(dependencies@) =~= dependencies@);
        let package_data_buffer_size = reader.read_u32_le()?;
        Ok(Dependencies { dependencies_size, dependencies, package_data_buffer_size })
    }
}

impl Writable for Dependencies {
    open spec fn encoding(v: DependenciesView) -> Seq<u8> {
        u64_to_le(v.dependencies_size) + counted_encoding::<u32, Standard>(v.dependencies)
            + u32_to_le(v.package_data_buffer_size)
    }

    fn write(&self, writer: &mut Vec<u8>) {
        put_u64_le(writer, self.dependencies_size);
        write_counted::<u32, Standard>(writer, &self.dependencies);
        assert(views(self.dependencies@) =~= self.dependencies@);
        put_u32_le(writer, self.package_data_buffer_size);
        assert(writer@ =~= old(writer)@ + Self::encoding(self@));
    }
}

impl Format for Dependencies {
    /// A block fits when the number of its words can be said in 32 bits.
    open spec fn fits(v: DependenciesView) -> bool {
        v.dependencies.len() <= u32::MAX
    }

    proof fn lemma_round_trip(v: DependenciesView, rest: Seq<u8>) {
        let t2 = u32_to_le(v.package_data_buffer_size) + rest;
        let t1 = counted_encoding::<u32, Standard>(v.dependencies) + t2;
        assert(Self::encoding(v) + rest =~= u64_to_le(v.dependencies_size) + t1);
        lemma_take_u64_le(v.dependencies_size, t1);
        lemma_counted_round_trip::<u32, Standard>(v.dependencies, t2);
        lemma_take_u32_le(v.package_data_buffer_size, rest);
    }
}

impl Sound for Dependencies {
    proof fn lemma_parsed_fits(input: Seq<u8>) {
        if let Ok((_, r1)) = take_u64_le(input) {
            lemma_parse_counted_fits::<u32, Standard>(r1);
        }
    }
}

} // verus!
