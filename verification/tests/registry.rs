use asset_registry::codec::{Readable, Writable};
use asset_registry::error::{DecodeError, Sentinel, MAGIC_END, MAGIC_START};
use asset_registry::index::{NameIndex, NameIndexFlagged};
use asset_registry::pair::{Pair, Type};
use asset_registry::reader::Reader;
use asset_registry::record::{Asset, AssetData, Dependencies};
use asset_registry::registry::{decode, encode, AssetRegistry};

fn asset(a: usize, b: usize, c: usize) -> Asset {
    Asset {
        object_path: NameIndexFlagged(a, None),
        package_path: NameIndexFlagged(b, Some(0x11)),
        asset_class: NameIndexFlagged(c, None),
    }
}

fn empty_registry() -> AssetRegistry {
    AssetRegistry {
        version: [0; 16],
        unknown1: 0,
        unknown2: 0,
        unknown3: 0,
        unknown4: 0,
        unknown5: 0,
        idk: vec![],
        names: vec![],
        magic_start: MAGIC_START,
        unknown7: 0,
        unknown8: 0,
        unknown9: 0,
        unknown10: 0,
        texts: vec![],
        numberless_names: vec![],
        names_idk: vec![],
        assets: vec![],
        export_paths: vec![],
        ansi_strings: vec![],
        wide_strings: vec![],
        pairs: vec![],
        magic_end: MAGIC_END,
        asset_data: vec![],
        dependencies: Dependencies {
            dependencies_size: 0,
            dependencies: vec![],
            package_data_buffer_size: 0,
        },
    }
}

fn sample_registry() -> AssetRegistry {
    AssetRegistry {
        version: [1, 2, 3, 4, 5, 6, 7, 8, 9, 10, 11, 12, 13, 14, 15, 16],
        unknown1: 0x101,
        unknown2: 0x102,
        unknown3: 0x103,
        unknown4: 0x104,
        unknown5: 0x105,
        idk: vec![0xaaaa_bbbb_cccc_dddd, 2, 3],
        names: vec!["Hello".to_string(), "/Game/Path".to_string(), "é".to_string()],
        magic_start: MAGIC_START,
        unknown7: 0x107,
        unknown8: 0x108,
        unknown9: 0x109,
        unknown10: 0x10a,
        texts: vec!["Hi".to_string(), String::new()],
        numberless_names: vec![NameIndexFlagged(1, None), NameIndexFlagged(2, Some(9))],
        names_idk: vec![NameIndexFlagged(0x7fff_ffff, Some(0xffff_ffff))],
        assets: vec![asset(0, 1, 2), asset(2, 1, 0)],
        export_paths: vec![asset(1, 1, 1)],
        ansi_strings: vec![String::new(), "ansi".to_string(), "é".to_string()],
        wide_strings: vec!["A".to_string(), "wide€".to_string()],
        pairs: vec![
            Pair { name: NameIndex(0), type_: Type::AnsiString, index: 1 },
            Pair { name: NameIndex(1), type_: Type::LocalizedText, index: 0x1fff_ffff },
            Pair { name: NameIndex(2), type_: Type::Name, index: 0 },
        ],
        magic_end: MAGIC_END,
        asset_data: vec![
            AssetData {
                object_path: NameIndexFlagged(1, None),
                package_path: NameIndexFlagged(2, Some(3)),
                asset_class: NameIndexFlagged(0, None),
                package_name: NameIndexFlagged(1, None),
                asset_name: NameIndexFlagged(2, None),
                tag_meta: 0x1122334455667788,
                bundle_count: 1,
                chunk_ids: vec![4, 5],
                flags: 6,
            },
            AssetData {
                object_path: NameIndexFlagged(0, None),
                package_path: NameIndexFlagged(0, None),
                asset_class: NameIndexFlagged(0, None),
                package_name: NameIndexFlagged(0, None),
                asset_name: NameIndexFlagged(0, None),
                tag_meta: 0,
                bundle_count: 0,
                chunk_ids: vec![],
                flags: 0,
            },
        ],
        dependencies: Dependencies {
            dependencies_size: 0x20,
            dependencies: vec![1, 2, 3],
            package_data_buffer_size: 0x40,
        },
    }
}

/// Where the start sentinel stands in the bytes of a registry.
fn start_sentinel_position(r: &AssetRegistry) -> usize {
    let payloads: usize = r.names.iter().map(|n| n.len()).sum();
    16 + 20 + 8 * r.idk.len() + 2 * r.names.len() + payloads
}

/// Where the two offset tables start in the bytes of a registry.
fn offset_tables_position(r: &AssetRegistry) -> usize {
    let texts: usize = r.texts.iter().map(|t| 4 + t.len() + 1).sum();
    let flagged = |v: &NameIndexFlagged| if v.1.is_some() { 8 } else { 4 };
    let record =
        |a: &Asset| flagged(&a.object_path) + flagged(&a.package_path) + flagged(&a.asset_class);
    start_sentinel_position(r) + 4 + 48 + texts
        + r.numberless_names.iter().map(flagged).sum::<usize>()
        + r.names_idk.iter().map(flagged).sum::<usize>()
        + r.assets.iter().map(record).sum::<usize>()
        + r.export_paths.iter().map(record).sum::<usize>()
}

/// Where the end sentinel stands in the bytes of a registry.
fn end_sentinel_position(r: &AssetRegistry) -> usize {
    offset_tables_position(r)
        + 4 * r.ansi_strings.len()
        + 4 * r.wide_strings.len()
        + r.ansi_strings.iter().map(|s| s.len() + 1).sum::<usize>()
        + r.wide_strings.iter().map(|s| 2 * s.chars().count() + 2).sum::<usize>()
        + 8 * r.pairs.len()
}

#[test]
fn empty_registry_layout() {
    let bytes = encode(&empty_registry());
    let mut expected = vec![0u8; 16 + 20];
    expected.extend_from_slice(&[0x79, 0x56, 0x34, 0x12]);
    expected.extend_from_slice(&[0u8; 48]);
    expected.extend_from_slice(&[0x21, 0x43, 0x65, 0x87]);
    expected.extend_from_slice(&[0u8; 4]);
    expected.extend_from_slice(&[0u8; 16]);
    assert_eq!(bytes, expected);
    assert_eq!(decode(&bytes), Ok(empty_registry()));
}

#[test]
fn sample_registry_layout() {
    let r = sample_registry();
    let bytes = encode(&r);
    let mut e: Vec<u8> = Vec::new();
    e.extend_from_slice(&r.version);
    for w in [0x101u32, 3, 0x102] {
        e.extend_from_slice(&w.to_le_bytes());
    }
    e.extend_from_slice(&[0x03, 0x01, 0x04, 0x01]);
    e.extend_from_slice(&0x105u32.to_le_bytes());
    for w in &r.idk {
        e.extend_from_slice(&w.to_le_bytes());
    }
    e.extend_from_slice(&[0, 5, 0, 10, 0, 2]);
    e.extend_from_slice(b"Hello/Game/Path\xc3\xa9");
    e.extend_from_slice(&0x12345679u32.to_le_bytes());
    for w in [2u32, 1, 2, 1, 2, 3, 2, 0x107, 0x108, 3, 0x109, 0x10a] {
        e.extend_from_slice(&w.to_le_bytes());
    }
    e.extend_from_slice(&[3, 0, 0, 0, b'H', b'i', 0, 1, 0, 0, 0, 0]);
    e.extend_from_slice(&[1, 0, 0, 0, 2, 0, 0, 0x80, 9, 0, 0, 0]);
    e.extend_from_slice(&[0xff, 0xff, 0xff, 0xff, 0xff, 0xff, 0xff, 0xff]);
    e.extend_from_slice(&[0, 0, 0, 0, 1, 0, 0, 0x80, 0x11, 0, 0, 0, 2, 0, 0, 0]);
    e.extend_from_slice(&[2, 0, 0, 0, 1, 0, 0, 0x80, 0x11, 0, 0, 0, 0, 0, 0, 0]);
    e.extend_from_slice(&[1, 0, 0, 0, 1, 0, 0, 0x80, 0x11, 0, 0, 0, 1, 0, 0, 0]);
    for w in [0u32, 1, 6] {
        e.extend_from_slice(&w.to_le_bytes());
    }
    for w in [0u32, 2] {
        e.extend_from_slice(&w.to_le_bytes());
    }
    e.extend_from_slice(b"\0ansi\0\xc3\xa9\0");
    e.extend_from_slice(&[0x41, 0, 0, 0]);
    e.extend_from_slice(&[b'w', 0, b'i', 0, b'd', 0, b'e', 0, 0xac, 0x20, 0, 0]);
    e.extend_from_slice(&[0, 0, 0, 0, 1, 0, 0, 0]);
    e.extend_from_slice(&[1, 0, 0, 0, 0xff, 0xff, 0xff, 0xdf]);
    e.extend_from_slice(&[2, 0, 0, 0, 0, 0, 0, 0x60]);
    e.extend_from_slice(&0x87654321u32.to_le_bytes());
    e.extend_from_slice(&2u32.to_le_bytes());
    for d in &r.asset_data {
        d.write(&mut e);
    }
    r.dependencies.write(&mut e);
    assert_eq!(bytes, e);
    assert_eq!(start_sentinel_position(&r), 16 + 20 + 24 + 6 + 17);
    assert_eq!(&bytes[start_sentinel_position(&r)..][..4], &[0x79, 0x56, 0x34, 0x12]);
    assert_eq!(&bytes[end_sentinel_position(&r)..][..4], &[0x21, 0x43, 0x65, 0x87]);
}

#[test]
fn round_trip() {
    let r = sample_registry();
    let bytes = encode(&r);
    let decoded = decode(&bytes).unwrap();
    assert_eq!(decoded, r);
    assert_eq!(encode(&decoded), bytes);
}

#[test]
fn double_round_trip_is_idempotent() {
    let bytes = encode(&sample_registry());
    let first = decode(&bytes).unwrap();
    let second = decode(&encode(&first)).unwrap();
    assert_eq!(second, first);
}

#[test]
fn double_round_trip_with_replaced_strings() {
    let r = sample_registry();
    let mut bytes = encode(&r);
    let name_payloads = 16 + 20 + 24 + 6;
    bytes[name_payloads] = 0xff;
    let first = decode(&bytes).unwrap();
    assert_eq!(first.names[0], "\u{fffd}ello");
    let again = encode(&first);
    assert_ne!(again, bytes);
    assert_eq!(decode(&again), Ok(first));
}

#[test]
fn offset_tables_are_ignored_on_decode_and_recomputed_on_encode() {
    let r = sample_registry();
    let bytes = encode(&r);
    let at = offset_tables_position(&r);
    let tables = 4 * (r.ansi_strings.len() + r.wide_strings.len());
    assert_eq!(&bytes[at..at + 12], &[0, 0, 0, 0, 1, 0, 0, 0, 6, 0, 0, 0]);
    assert_eq!(&bytes[at + 12..at + 20], &[0, 0, 0, 0, 2, 0, 0, 0]);
    let mut scrambled = bytes.clone();
    for b in &mut scrambled[at..at + tables] {
        *b = 0xee;
    }
    let decoded = decode(&scrambled).unwrap();
    assert_eq!(decoded, r);
    let again = encode(&decoded);
    assert_eq!(again, bytes);
    assert_eq!(&again[..at], &scrambled[..at]);
    assert_eq!(&again[at + tables..], &scrambled[at + tables..]);
}

#[test]
fn start_sentinel_is_enforced() {
    let r = sample_registry();
    let mut bytes = encode(&r);
    let at = start_sentinel_position(&r);
    bytes[at] ^= 0x01;
    assert_eq!(
        decode(&bytes),
        Err(DecodeError::SentinelMismatch {
            which: Sentinel::Start,
            expected: 0x12345679,
            found: 0x12345678
        })
    );
}

#[test]
fn end_sentinel_is_enforced() {
    let r = sample_registry();
    let mut bytes = encode(&r);
    let at = end_sentinel_position(&r);
    bytes[at + 3] = 0x07;
    assert_eq!(
        decode(&bytes),
        Err(DecodeError::SentinelMismatch {
            which: Sentinel::End,
            expected: 0x87654321,
            found: 0x07654321
        })
    );
}

#[test]
fn sentinel_fields_are_written_as_they_are() {
    let mut r = empty_registry();
    r.magic_start = 0x01020304;
    let bytes = encode(&r);
    assert_eq!(&bytes[36..40], &[4, 3, 2, 1]);
    assert_eq!(
        decode(&bytes),
        Err(DecodeError::SentinelMismatch {
            which: Sentinel::Start,
            expected: MAGIC_START,
            found: 0x01020304
        })
    );
}

#[test]
fn invalid_tag_fails_the_decode() {
    let r = sample_registry();
    let mut bytes = encode(&r);
    let last_pair_word = end_sentinel_position(&r) - 4;
    bytes[last_pair_word + 3] |= 0xe0;
    assert_eq!(decode(&bytes), Err(DecodeError::InvalidTag { tag: 7 }));
}

#[test]
fn every_truncation_is_reported() {
    let bytes = encode(&sample_registry());
    for cut in 0..bytes.len() {
        assert_eq!(decode(&bytes[..cut]), Err(DecodeError::IoTruncated), "cut at {}", cut);
    }
}

#[test]
fn bytes_behind_the_registry_are_left() {
    let r = sample_registry();
    let mut bytes = encode(&r);
    let len = bytes.len();
    bytes.extend_from_slice(&[1, 2, 3]);
    assert_eq!(decode(&bytes), Ok(sample_registry()));
    let mut reader = Reader::new(&bytes);
    assert_eq!(AssetRegistry::read(&mut reader), Ok(r));
    assert_eq!(reader.remaining(), bytes.len() - len);
}

#[test]
fn tables_are_read_in_order_with_their_own_counts() {
    let mut r = empty_registry();
    r.assets = vec![asset(1, 2, 3), asset(4, 5, 6)];
    r.export_paths = vec![asset(7, 8, 9)];
    let bytes = encode(&r);
    let sizes = 16 + 20 + 4;
    assert_eq!(&bytes[sizes + 8..sizes + 16], &[2, 0, 0, 0, 1, 0, 0, 0]);
    let decoded = decode(&bytes).unwrap();
    assert_eq!(decoded.assets, vec![asset(1, 2, 3), asset(4, 5, 6)]);
    assert_eq!(decoded.export_paths, vec![asset(7, 8, 9)]);

    // the same records with the counts the other way round
    let mut swapped = bytes.clone();
    swapped[sizes + 8] = 1;
    swapped[sizes + 12] = 2;
    let decoded = decode(&swapped).unwrap();
    assert_eq!(decoded.assets, vec![asset(1, 2, 3)]);
    assert_eq!(decoded.export_paths, vec![asset(4, 5, 6), asset(7, 8, 9)]);
}

#[test]
fn unknown_scalars_are_kept() {
    let mut r = empty_registry();
    r.unknown1 = 0xdead_beef;
    r.unknown2 = 0x0bad_f00d;
    r.unknown3 = 0xfeed;
    r.unknown4 = 0xface;
    r.unknown5 = 0x1234_5678;
    r.unknown7 = 7;
    r.unknown8 = 8;
    r.unknown9 = 9;
    r.unknown10 = 10;
    assert_eq!(decode(&encode(&r)), Ok(r));
}

#[test]
fn index_beyond_its_bits_is_masked() {
    let mut out = Vec::new();
    NameIndexFlagged(0x8000_0005, Some(1)).write(&mut out);
    assert_eq!(out, vec![5, 0, 0, 0x80, 1, 0, 0, 0]);
    assert_eq!(
        NameIndexFlagged::read(&mut Reader::new(&out)),
        Ok(NameIndexFlagged(5, Some(1)))
    );
}

#[test]
fn name_count_is_the_number_of_names() {
    let mut r = empty_registry();
    r.names = vec!["a".to_string(), "b".to_string()];
    r.idk = vec![1, 2];
    let bytes = encode(&r);
    assert_eq!(&bytes[20..24], &[2, 0, 0, 0]);
    assert_eq!(decode(&bytes), Ok(r));
}
