use asset_registry::codec::{read_array, write_array, Readable, Writable};
use asset_registry::error::DecodeError;
use asset_registry::offsets::{write_ansi_offsets, write_wide_offsets};
use asset_registry::reader::Reader;
use asset_registry::scalar::BigEndian;
use asset_registry::tables::{read_name_table, write_name_table};
use asset_registry::text::{
    char_of_unit, decode_text, read_names, unit_of_char, Ansi, NameLength, NamePayload, Text, Wide,
};

fn text_bytes(s: &str) -> Vec<u8> {
    let mut out = Vec::new();
    Writable::<Text>::write(&s.to_string(), &mut out);
    out
}

fn ansi_bytes(s: &str) -> Vec<u8> {
    let mut out = Vec::new();
    Writable::<Ansi>::write(&s.to_string(), &mut out);
    out
}

fn wide_bytes(s: &str) -> Vec<u8> {
    let mut out = Vec::new();
    Writable::<Wide>::write(&s.to_string(), &mut out);
    out
}

#[test]
fn name_hello_has_a_big_endian_length_and_a_later_payload() {
    let names = vec!["Hello".to_string()];
    let mut lengths = Vec::new();
    write_array::<String, NameLength>(&mut lengths, &names);
    assert_eq!(lengths, vec![0x00, 0x05]);
    let mut payloads = Vec::new();
    write_array::<String, NamePayload>(&mut payloads, &names);
    assert_eq!(payloads, vec![0x48, 0x65, 0x6c, 0x6c, 0x6f]);
}

#[test]
fn name_table_is_written_in_three_passes() {
    let idk = vec![0x0102030405060708u64, 9];
    let names = vec!["Hello".to_string(), "é".to_string()];
    let mut out = Vec::new();
    write_name_table(&mut out, &idk, &names);
    let mut expected = vec![8, 7, 6, 5, 4, 3, 2, 1, 9, 0, 0, 0, 0, 0, 0, 0];
    expected.extend_from_slice(&[0, 5, 0, 2]);
    expected.extend_from_slice(b"Hello");
    expected.extend_from_slice(&[0xc3, 0xa9]);
    assert_eq!(out, expected);

    let mut reader = Reader::new(&out);
    let table = read_name_table(2, &mut reader).unwrap();
    assert_eq!(table.idk, idk);
    assert_eq!(table.names, names);
    assert_eq!(reader.remaining(), 0);
}

#[test]
fn name_table_truncated_in_each_pass() {
    let idk = vec![1u64];
    let names = vec!["abc".to_string()];
    let mut out = Vec::new();
    write_name_table(&mut out, &idk, &names);
    assert_eq!(out.len(), 8 + 2 + 3);
    for cut in [0usize, 7, 8, 9, 10, 12] {
        let mut reader = Reader::new(&out[..cut]);
        assert_eq!(read_name_table(1, &mut reader).err(), Some(DecodeError::IoTruncated));
    }
}

#[test]
fn names_are_read_by_their_lengths() {
    let lengths = vec![2u16, 0, 3];
    let bytes = b"abcdeXYZ";
    let mut reader = Reader::new(bytes);
    let names = read_names(&lengths, &mut reader).unwrap();
    assert_eq!(names, vec!["ab".to_string(), String::new(), "cde".to_string()]);
    assert_eq!(reader.remaining(), 3);
}

#[test]
fn name_lengths_table_reads_big_endian() {
    let bytes = [0x01, 0x00, 0x00, 0x02];
    let mut reader = Reader::new(&bytes);
    let lengths = read_array::<u16, BigEndian>(2, &mut reader).unwrap();
    assert_eq!(lengths, vec![256, 2]);
}

#[test]
fn invalid_utf8_in_a_name_is_replaced() {
    assert_eq!(decode_text(&[0x41, 0xff, 0x42]), "A\u{fffd}B");
    assert_eq!(decode_text(&[0xe2, 0x82]), "\u{fffd}");
    assert_eq!(decode_text(b"plain"), "plain");
    assert_eq!(decode_text(&[0xe2, 0x82, 0xac]), "€");
}

#[test]
fn text_hi() {
    let bytes = text_bytes("Hi");
    assert_eq!(bytes, vec![3, 0, 0, 0, 0x48, 0x69, 0x00]);
    let mut reader = Reader::new(&bytes);
    assert_eq!(<String as Readable<Text>>::read(&mut reader), Ok("Hi".to_string()));
    assert_eq!(reader.remaining(), 0);
}

#[test]
fn empty_text() {
    let bytes = text_bytes("");
    assert_eq!(bytes, vec![1, 0, 0, 0, 0]);
    assert_eq!(<String as Readable<Text>>::read(&mut Reader::new(&bytes)), Ok(String::new()));
}

#[test]
fn text_length_counts_bytes_not_characters() {
    let bytes = text_bytes("é€");
    assert_eq!(bytes, vec![6, 0, 0, 0, 0xc3, 0xa9, 0xe2, 0x82, 0xac, 0]);
    assert_eq!(<String as Readable<Text>>::read(&mut Reader::new(&bytes)), Ok("é€".to_string()));
}

#[test]
fn text_with_invalid_utf8_is_replaced() {
    let bytes = [3, 0, 0, 0, 0xff, 0x41, 0];
    assert_eq!(
        <String as Readable<Text>>::read(&mut Reader::new(&bytes)),
        Ok("\u{fffd}A".to_string())
    );
}

#[test]
fn text_terminator_is_passed_over_whatever_it_is() {
    let bytes = [2, 0, 0, 0, 0x41, 0x7f, 0x42];
    let mut reader = Reader::new(&bytes);
    assert_eq!(<String as Readable<Text>>::read(&mut reader), Ok("A".to_string()));
    assert_eq!(reader.remaining(), 1);
}

#[test]
fn text_truncated() {
    let bytes = text_bytes("Hi");
    for cut in 0..bytes.len() {
        assert_eq!(
            <String as Readable<Text>>::read(&mut Reader::new(&bytes[..cut])),
            Err(DecodeError::IoTruncated)
        );
    }
}

#[test]
fn text_with_a_length_of_zero_has_no_payload_length() {
    let bytes = [0, 0, 0, 0, 0x41, 0];
    assert_eq!(
        <String as Readable<Text>>::read(&mut Reader::new(&bytes)),
        Err(DecodeError::IoTruncated)
    );
}

#[test]
fn empty_ansi_string_is_one_zero_byte() {
    assert_eq!(ansi_bytes(""), vec![0]);
    let strings = vec![String::new(), "ab".to_string(), "c".to_string()];
    let mut offsets = Vec::new();
    write_ansi_offsets(&mut offsets, &strings);
    assert_eq!(offsets, vec![0, 0, 0, 0, 1, 0, 0, 0, 4, 0, 0, 0]);
}

#[test]
fn ansi_string_round_trip() {
    let bytes = ansi_bytes("Game/é");
    assert_eq!(bytes, vec![b'G', b'a', b'm', b'e', b'/', 0xc3, 0xa9, 0]);
    let mut reader = Reader::new(&bytes);
    assert_eq!(<String as Readable<Ansi>>::read(&mut reader), Ok("Game/é".to_string()));
    assert_eq!(reader.remaining(), 0);
}

#[test]
fn ansi_string_without_terminator_is_truncated() {
    assert_eq!(
        <String as Readable<Ansi>>::read(&mut Reader::new(b"abc")),
        Err(DecodeError::IoTruncated)
    );
    assert_eq!(
        <String as Readable<Ansi>>::read(&mut Reader::new(b"")),
        Err(DecodeError::IoTruncated)
    );
}

#[test]
fn ansi_string_with_invalid_utf8_is_replaced() {
    let bytes = [0x80, b'x', 0, b'y'];
    let mut reader = Reader::new(&bytes);
    assert_eq!(<String as Readable<Ansi>>::read(&mut reader), Ok("\u{fffd}x".to_string()));
    assert_eq!(reader.remaining(), 1);
}

#[test]
fn ansi_offsets_count_bytes() {
    let strings = vec!["é".to_string(), "abc".to_string(), String::new(), "z".to_string()];
    let mut offsets = Vec::new();
    write_ansi_offsets(&mut offsets, &strings);
    assert_eq!(offsets, vec![0, 0, 0, 0, 3, 0, 0, 0, 7, 0, 0, 0, 8, 0, 0, 0]);
}

#[test]
fn wide_string_a() {
    let bytes = wide_bytes("A");
    assert_eq!(bytes, vec![0x41, 0x00, 0x00, 0x00]);
    let mut reader = Reader::new(&bytes);
    assert_eq!(<String as Readable<Wide>>::read(&mut reader), Ok("A".to_string()));
    assert_eq!(reader.remaining(), 0);
}

#[test]
fn wide_string_round_trip() {
    let bytes = wide_bytes("aé€");
    assert_eq!(bytes, vec![0x61, 0, 0xe9, 0, 0xac, 0x20, 0, 0]);
    assert_eq!(
        <String as Readable<Wide>>::read(&mut Reader::new(&bytes)),
        Ok("aé€".to_string())
    );
}

#[test]
fn wide_string_surrogates_are_replaced() {
    let bytes = [0x00, 0xd8, 0x41, 0x00, 0xff, 0xdf, 0x00, 0x00];
    assert_eq!(
        <String as Readable<Wide>>::read(&mut Reader::new(&bytes)),
        Ok("\u{fffd}A\u{fffd}".to_string())
    );
    assert_eq!(char_of_unit(0xd7ff), '\u{d7ff}');
    assert_eq!(char_of_unit(0xd800), '\u{fffd}');
    assert_eq!(char_of_unit(0xdfff), '\u{fffd}');
    assert_eq!(char_of_unit(0xe000), '\u{e000}');
    assert_eq!(char_of_unit(0xffff), '\u{ffff}');
}

#[test]
fn wide_string_keeps_the_low_sixteen_bits_of_a_character() {
    assert_eq!(unit_of_char('A'), 0x41);
    assert_eq!(unit_of_char('\u{ffff}'), 0xffff);
    assert_eq!(unit_of_char('\u{1f600}'), 0xf600);
    assert_eq!(wide_bytes("\u{1f600}"), vec![0x00, 0xf6, 0, 0]);
}

#[test]
fn wide_string_truncated() {
    assert_eq!(
        <String as Readable<Wide>>::read(&mut Reader::new(&[0x41, 0x00])),
        Err(DecodeError::IoTruncated)
    );
    assert_eq!(
        <String as Readable<Wide>>::read(&mut Reader::new(&[0x41, 0x00, 0x00])),
        Err(DecodeError::IoTruncated)
    );
    assert_eq!(
        <String as Readable<Wide>>::read(&mut Reader::new(&[])),
        Err(DecodeError::IoTruncated)
    );
}

#[test]
fn wide_offsets_count_characters() {
    let strings = vec!["é€".to_string(), String::new(), "abc".to_string()];
    let mut offsets = Vec::new();
    write_wide_offsets(&mut offsets, &strings);
    assert_eq!(offsets, vec![0, 0, 0, 0, 3, 0, 0, 0, 4, 0, 0, 0]);
}

#[test]
fn offsets_of_no_strings_are_empty() {
    let mut offsets = vec![7];
    write_ansi_offsets(&mut offsets, &Vec::new());
    write_wide_offsets(&mut offsets, &Vec::new());
    assert_eq!(offsets, vec![7]);
}
