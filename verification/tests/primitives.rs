use asset_registry::codec::{Readable, Writable};
use asset_registry::error::DecodeError;
use asset_registry::index::{NameIndex, NameIndexFlagged};
use asset_registry::pair::{Pair, Type};
use asset_registry::reader::Reader;
use asset_registry::scalar::{BigEndian, Guid};

fn flagged_bytes(v: &NameIndexFlagged) -> Vec<u8> {
    let mut out = Vec::new();
    v.write(&mut out);
    out
}

fn read_flagged(bytes: &[u8]) -> (Result<NameIndexFlagged, DecodeError>, usize) {
    let mut reader = Reader::new(bytes);
    let res = NameIndexFlagged::read(&mut reader);
    (res, reader.remaining())
}

#[test]
fn reader_reads_little_endian_scalars() {
    let bytes = [
        0x01u8, 0x02, 0x03, 0x04, 0x05, 0x06, 0x07, 0x08, 0x09, 0x0a, 0x0b, 0x0c, 0x0d, 0x0e, 0x0f,
    ];
    let mut reader = Reader::new(&bytes);
    assert_eq!(reader.read_u8(), Ok(0x01));
    assert_eq!(reader.read_u16_le(), Ok(0x0302));
    assert_eq!(reader.read_u32_le(), Ok(0x07060504));
    assert_eq!(reader.read_u64_le(), Ok(0x0f0e0d0c0b0a0908));
    assert_eq!(reader.remaining(), 0);
}

#[test]
fn reader_reads_big_endian_u16() {
    let bytes = [0x12u8, 0x34, 0x56];
    let mut reader = Reader::new(&bytes);
    assert_eq!(reader.read_u16_be(), Ok(0x1234));
    assert_eq!(reader.remaining(), 1);
}

#[test]
fn reader_reports_truncation() {
    let bytes = [0x01u8, 0x02, 0x03];
    assert_eq!(Reader::new(&bytes).read_u32_le(), Err(DecodeError::IoTruncated));
    assert_eq!(Reader::new(&bytes).read_u64_le(), Err(DecodeError::IoTruncated));
    assert_eq!(Reader::new(&bytes[..1]).read_u16_le(), Err(DecodeError::IoTruncated));
    assert_eq!(Reader::new(&bytes[..1]).read_u16_be(), Err(DecodeError::IoTruncated));
    assert_eq!(Reader::new(&bytes[..0]).read_u8(), Err(DecodeError::IoTruncated));
    assert!(Reader::new(&bytes).read_bytes(4).is_err());
}

#[test]
fn reader_reads_until_nul() {
    let bytes = [b'a', b'b', 0, b'c'];
    let mut reader = Reader::new(&bytes);
    assert_eq!(reader.read_until_nul().unwrap(), b"ab");
    assert_eq!(reader.remaining(), 1);
    assert_eq!(reader.read_until_nul(), Err(DecodeError::IoTruncated));
}

#[test]
fn scalars_are_written_little_endian() {
    let mut out = Vec::new();
    0x11223344u32.write(&mut out);
    0x0102030405060708u64.write(&mut out);
    assert_eq!(
        out,
        vec![0x44, 0x33, 0x22, 0x11, 0x08, 0x07, 0x06, 0x05, 0x04, 0x03, 0x02, 0x01]
    );
    let mut reader = Reader::new(&out);
    assert_eq!(<u32 as Readable>::read(&mut reader), Ok(0x11223344));
    assert_eq!(<u64 as Readable>::read(&mut reader), Ok(0x0102030405060708));
}

#[test]
fn name_lengths_are_big_endian() {
    let mut out = Vec::new();
    Writable::<BigEndian>::write(&0x0005u16, &mut out);
    assert_eq!(out, vec![0x00, 0x05]);
    let mut reader = Reader::new(&out);
    assert_eq!(<u16 as Readable<BigEndian>>::read(&mut reader), Ok(5));
}

#[test]
fn version_stamp_passes_through() {
    let stamp: Guid = [9, 8, 7, 6, 5, 4, 3, 2, 1, 0, 255, 254, 253, 252, 251, 250];
    let mut out = Vec::new();
    stamp.write(&mut out);
    assert_eq!(out, stamp.to_vec());
    let mut reader = Reader::new(&out);
    assert_eq!(Guid::read(&mut reader), Ok(stamp));
    assert_eq!(Guid::read(&mut Reader::new(&out[..15])), Err(DecodeError::IoTruncated));
}

#[test]
fn name_index_is_one_word() {
    let mut out = Vec::new();
    NameIndex(0x01020304).write(&mut out);
    assert_eq!(out, vec![4, 3, 2, 1]);
    assert_eq!(NameIndex::read(&mut Reader::new(&out)), Ok(NameIndex(0x01020304)));
    assert_eq!(NameIndex::read(&mut Reader::new(&out[..3])), Err(DecodeError::IoTruncated));
}

#[test]
fn flagged_index_without_word() {
    let v = NameIndexFlagged(0x12345, None);
    let bytes = flagged_bytes(&v);
    assert_eq!(bytes, vec![0x45, 0x23, 0x01, 0x00]);
    assert_eq!(read_flagged(&bytes), (Ok(v), 0));
}

#[test]
fn flagged_index_with_word() {
    let v = NameIndexFlagged(0x12345, Some(0xdeadbeef));
    let bytes = flagged_bytes(&v);
    assert_eq!(bytes, vec![0x45, 0x23, 0x01, 0x80, 0xef, 0xbe, 0xad, 0xde]);
    assert_eq!(read_flagged(&bytes), (Ok(v), 0));
}

#[test]
fn flagged_index_boundary() {
    for x in [0usize, 1, 0x7fff_fffe, 0x7fff_ffff] {
        for f in [0u32, 1, 0x7fff_ffff, 0x8000_0000, 0xffff_ffff] {
            let with = NameIndexFlagged(x, Some(f));
            assert_eq!(read_flagged(&flagged_bytes(&with)), (Ok(with), 0));
        }
        let without = NameIndexFlagged(x, None);
        assert_eq!(read_flagged(&flagged_bytes(&without)), (Ok(without), 0));
    }
}

#[test]
fn flagged_index_top_bit_is_no_part_of_the_index() {
    let bytes = [0xff, 0xff, 0xff, 0xff, 0x01, 0x00, 0x00, 0x00];
    assert_eq!(read_flagged(&bytes), (Ok(NameIndexFlagged(0x7fff_ffff, Some(1))), 0));
    let bytes = [0x00, 0x00, 0x00, 0x80, 0x02, 0x00, 0x00, 0x00, 0xaa];
    assert_eq!(read_flagged(&bytes), (Ok(NameIndexFlagged(0, Some(2))), 1));
}

#[test]
fn flagged_index_truncated() {
    assert_eq!(read_flagged(&[1, 2, 3]).0, Err(DecodeError::IoTruncated));
    assert_eq!(read_flagged(&[0, 0, 0, 0x80, 1, 2, 3]).0, Err(DecodeError::IoTruncated));
}

#[test]
fn type_codes() {
    let all = [
        Type::AnsiString,
        Type::WideString,
        Type::NumberlessName,
        Type::Name,
        Type::NumberlessExportPath,
        Type::ExportPath,
        Type::LocalizedText,
    ];
    for (code, kind) in all.iter().enumerate() {
        assert_eq!(kind.code(), code as u32);
        assert_eq!(Type::try_from(code as u32), Ok(*kind));
    }
    assert_eq!(Type::try_from(7), Err(DecodeError::InvalidTag { tag: 7 }));
    assert_eq!(Type::try_from(1000), Err(DecodeError::InvalidTag { tag: 1000 }));
}

fn pair_from_word(word: u32) -> Result<Pair, DecodeError> {
    let mut bytes = vec![0x2a, 0, 0, 0];
    bytes.extend_from_slice(&word.to_le_bytes());
    Pair::read(&mut Reader::new(&bytes))
}

#[test]
fn pair_tags_decode_to_the_seven_kinds() {
    let all = [
        Type::AnsiString,
        Type::WideString,
        Type::NumberlessName,
        Type::Name,
        Type::NumberlessExportPath,
        Type::ExportPath,
        Type::LocalizedText,
    ];
    for (tag, kind) in all.iter().enumerate() {
        for index in [0u32, 1, 0x1234_5678 & 0x1fff_ffff, 0x1fff_ffff] {
            let word = ((tag as u32) << 29) | index;
            assert_eq!(
                pair_from_word(word),
                Ok(Pair { name: NameIndex(0x2a), type_: *kind, index })
            );
        }
    }
}

#[test]
fn pair_tag_seven_is_invalid() {
    assert_eq!(pair_from_word(0xe000_0000), Err(DecodeError::InvalidTag { tag: 7 }));
    assert_eq!(pair_from_word(0xffff_ffff), Err(DecodeError::InvalidTag { tag: 7 }));
}

#[test]
fn pair_round_trip() {
    let pair = Pair { name: NameIndex(7), type_: Type::ExportPath, index: 0x0abc_def1 };
    let mut out = Vec::new();
    pair.write(&mut out);
    assert_eq!(out, vec![7, 0, 0, 0, 0xf1, 0xde, 0xbc, 0xaa]);
    assert_eq!(Pair::read(&mut Reader::new(&out)), Ok(pair));
}

#[test]
fn pair_truncated() {
    assert_eq!(Pair::read(&mut Reader::new(&[1, 0, 0])), Err(DecodeError::IoTruncated));
    assert_eq!(Pair::read(&mut Reader::new(&[1, 0, 0, 0, 1, 2])), Err(DecodeError::IoTruncated));
}
