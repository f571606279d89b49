use asset_registry::codec::{
    read_array, read_counted, write_array, write_counted, Readable, Standard, Writable,
};
use asset_registry::error::{DecodeError, Sentinel, MAGIC_END, MAGIC_START};
use asset_registry::index::NameIndexFlagged;
use asset_registry::layout::{read_sentinel, Preamble, TableSizes};
use asset_registry::reader::Reader;
use asset_registry::record::{Asset, AssetData, Dependencies};

fn asset(a: usize, b: usize, c: usize) -> Asset {
    Asset {
        object_path: NameIndexFlagged(a, None),
        package_path: NameIndexFlagged(b, Some(0x11)),
        asset_class: NameIndexFlagged(c, None),
    }
}

fn sample_asset_data() -> AssetData {
    AssetData {
        object_path: NameIndexFlagged(1, None),
        package_path: NameIndexFlagged(2, Some(3)),
        asset_class: NameIndexFlagged(4, None),
        package_name: NameIndexFlagged(5, None),
        asset_name: NameIndexFlagged(6, Some(7)),
        tag_meta: 0x1122334455667788,
        bundle_count: 9,
        chunk_ids: vec![10, 11],
        flags: 12,
    }
}

#[test]
fn asset_is_three_flagged_indices() {
    let a = asset(1, 2, 3);
    let mut out = Vec::new();
    a.write(&mut out);
    assert_eq!(out, vec![1, 0, 0, 0, 2, 0, 0, 0x80, 0x11, 0, 0, 0, 3, 0, 0, 0]);
    let mut reader = Reader::new(&out);
    assert_eq!(Asset::read(&mut reader), Ok(a));
    assert_eq!(reader.remaining(), 0);
    for cut in 0..out.len() {
        assert_eq!(Asset::read(&mut Reader::new(&out[..cut])), Err(DecodeError::IoTruncated));
    }
}

#[test]
fn asset_data_layout() {
    let data = sample_asset_data();
    let mut out = Vec::new();
    data.write(&mut out);
    let expected: Vec<u8> = vec![
        1, 0, 0, 0, // object path
        2, 0, 0, 0x80, 3, 0, 0, 0, // package path and its word
        4, 0, 0, 0, // class
        5, 0, 0, 0, // package name
        6, 0, 0, 0x80, 7, 0, 0, 0, // asset name and its word
        0x88, 0x77, 0x66, 0x55, 0x44, 0x33, 0x22, 0x11, // tag metadata
        9, 0, 0, 0, // bundle count
        2, 0, 0, 0, // number of chunk ids
        10, 0, 0, 0, 11, 0, 0, 0, // chunk ids
        12, 0, 0, 0, // flags
    ];
    assert_eq!(out, expected);
    let mut reader = Reader::new(&out);
    assert_eq!(AssetData::read(&mut reader), Ok(data));
    assert_eq!(reader.remaining(), 0);
    for cut in 0..out.len() {
        assert_eq!(AssetData::read(&mut Reader::new(&out[..cut])), Err(DecodeError::IoTruncated));
    }
}

#[test]
fn dependencies_layout() {
    let deps = Dependencies {
        dependencies_size: 0x0102,
        dependencies: vec![5, 6, 7],
        package_data_buffer_size: 0xaabbccdd,
    };
    let mut out = Vec::new();
    deps.write(&mut out);
    let expected: Vec<u8> = vec![
        2, 1, 0, 0, 0, 0, 0, 0, 3, 0, 0, 0, 5, 0, 0, 0, 6, 0, 0, 0, 7, 0, 0, 0, 0xdd, 0xcc, 0xbb,
        0xaa,
    ];
    assert_eq!(out, expected);
    assert_eq!(Dependencies::read(&mut Reader::new(&out)), Ok(deps));
    for cut in 0..out.len() {
        assert_eq!(
            Dependencies::read(&mut Reader::new(&out[..cut])),
            Err(DecodeError::IoTruncated)
        );
    }
}

#[test]
fn table_reads_exactly_the_given_count() {
    let records = vec![asset(1, 2, 3), asset(4, 5, 6), asset(7, 8, 9)];
    let mut out = Vec::new();
    write_array::<Asset, Standard>(&mut out, &records);
    assert_eq!(out.len(), 3 * 16);

    let mut reader = Reader::new(&out);
    let first = read_array::<Asset, Standard>(2, &mut reader).unwrap();
    assert_eq!(first, records[..2].to_vec());
    assert_eq!(reader.remaining(), 16);
    let second = read_array::<Asset, Standard>(1, &mut reader).unwrap();
    assert_eq!(second, records[2..].to_vec());
    assert_eq!(reader.remaining(), 0);

    let mut reader = Reader::new(&out);
    assert_eq!(read_array::<Asset, Standard>(0, &mut reader), Ok(Vec::new()));
    assert_eq!(reader.remaining(), out.len());
    assert_eq!(
        read_array::<Asset, Standard>(4, &mut Reader::new(&out)),
        Err(DecodeError::IoTruncated)
    );
}

#[test]
fn counted_table_carries_its_count() {
    let words = vec![1u32, 2, 3];
    let mut out = Vec::new();
    write_counted::<u32, Standard>(&mut out, &words);
    assert_eq!(out, vec![3, 0, 0, 0, 1, 0, 0, 0, 2, 0, 0, 0, 3, 0, 0, 0]);
    assert_eq!(read_counted::<u32, Standard>(&mut Reader::new(&out)), Ok(words));
    assert_eq!(
        read_counted::<u32, Standard>(&mut Reader::new(&[2, 0, 0, 0, 1, 0, 0, 0])),
        Err(DecodeError::IoTruncated)
    );
    assert_eq!(
        read_counted::<u32, Standard>(&mut Reader::new(&[2, 0, 0])),
        Err(DecodeError::IoTruncated)
    );
}

#[test]
fn preamble_layout() {
    let p = Preamble {
        unknown1: 1,
        name_count: 2,
        unknown2: 3,
        unknown3: 0x0405,
        unknown4: 0x0607,
        unknown5: 8,
    };
    let mut out = Vec::new();
    p.write(&mut out);
    assert_eq!(out, vec![1, 0, 0, 0, 2, 0, 0, 0, 3, 0, 0, 0, 5, 4, 7, 6, 8, 0, 0, 0]);
    assert_eq!(Preamble::read(&mut Reader::new(&out)), Ok(p));
    for cut in 0..out.len() {
        assert_eq!(Preamble::read(&mut Reader::new(&out[..cut])), Err(DecodeError::IoTruncated));
    }
}

#[test]
fn table_sizes_layout() {
    let s = TableSizes {
        numberless_names: 1,
        names_idk: 2,
        assets: 3,
        export_paths: 4,
        texts: 5,
        ansi_strings: 6,
        wide_strings: 7,
        unknown7: 8,
        unknown8: 9,
        pairs: 10,
        unknown9: 11,
        unknown10: 12,
    };
    let mut out = Vec::new();
    s.write(&mut out);
    let mut expected = Vec::new();
    for w in 1u32..=12 {
        expected.extend_from_slice(&w.to_le_bytes());
    }
    assert_eq!(out, expected);
    assert_eq!(TableSizes::read(&mut Reader::new(&out)), Ok(s));
    for cut in 0..out.len() {
        assert_eq!(TableSizes::read(&mut Reader::new(&out[..cut])), Err(DecodeError::IoTruncated));
    }
}

#[test]
fn sentinel_values() {
    assert_eq!(MAGIC_START, 0x12345679);
    assert_eq!(MAGIC_END, 0x87654321);
    assert_eq!(Sentinel::Start.value(), 0x12345679);
    assert_eq!(Sentinel::End.value(), 0x87654321);
}

#[test]
fn sentinel_is_checked() {
    let start = [0x79, 0x56, 0x34, 0x12];
    let end = [0x21, 0x43, 0x65, 0x87];
    assert_eq!(read_sentinel(&mut Reader::new(&start), Sentinel::Start), Ok(0x12345679));
    assert_eq!(read_sentinel(&mut Reader::new(&end), Sentinel::End), Ok(0x87654321));
    assert_eq!(
        read_sentinel(&mut Reader::new(&end), Sentinel::Start),
        Err(DecodeError::SentinelMismatch {
            which: Sentinel::Start,
            expected: 0x12345679,
            found: 0x87654321
        })
    );
    assert_eq!(
        read_sentinel(&mut Reader::new(&start), Sentinel::End),
        Err(DecodeError::SentinelMismatch {
            which: Sentinel::End,
            expected: 0x87654321,
            found: 0x12345679
        })
    );
    assert_eq!(
        read_sentinel(&mut Reader::new(&start[..3]), Sentinel::Start),
        Err(DecodeError::IoTruncated)
    );
}
