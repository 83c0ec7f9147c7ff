use encodings::cmap::{CMapEntry, ToUnicodeCMap};
use encodings::mappings::ByteToGlyphMap;
use encodings::{bytes_to_string, string_to_bytes, Encoding, Error};

fn table_with(entries: &[(usize, u16)]) -> ByteToGlyphMap {
    let mut t: ByteToGlyphMap = [None; 256];
    for &(b, u) in entries {
        t[b] = Some(u);
    }
    t
}

fn identity_table() -> ByteToGlyphMap {
    let mut t: ByteToGlyphMap = [None; 256];
    for b in 0..256 {
        t[b] = Some(b as u16);
    }
    t
}

fn cmap_of(pairs: Vec<(u16, Vec<char>)>) -> ToUnicodeCMap {
    let mut entries = Vec::new();
    for (code, targets) in pairs {
        entries.push(CMapEntry { code, targets });
    }
    ToUnicodeCMap { entries }
}

#[test]
fn one_byte_encode_drops_unmapped_unit() {
    let table = table_with(&[(0x41, 0x0041)]);
    let enc = Encoding::OneByteEncoding(&table);
    let out = enc.string_to_bytes("AB").unwrap();
    assert_eq!(out, vec![0x41]);
}

#[test]
fn one_byte_decode_drops_unmapped_byte() {
    let table = table_with(&[(0x41, 0x0041)]);
    let enc = Encoding::OneByteEncoding(&table);
    let s = enc.bytes_to_string(&[0x41, 0xFF]).unwrap();
    assert_eq!(s, "A");
}

#[test]
fn one_byte_round_trip_on_total_injective_table() {
    let table = identity_table();
    let enc = Encoding::OneByteEncoding(&table);
    let text = "Hello, world!";
    let bytes = enc.string_to_bytes(text).unwrap();
    let back = enc.bytes_to_string(&bytes).unwrap();
    assert_eq!(back, text);
}

#[test]
fn one_byte_encode_lowest_byte_wins() {
    let table = table_with(&[(0x20, 0x0041), (0x10, 0x0041)]);
    let out = string_to_bytes(&table, "A");
    assert_eq!(out, vec![0x10]);
}

#[test]
fn one_byte_decode_maps_through_table() {
    // A table entry far from the byte value: the result comes from the
    // table and from real UTF-16 decoding, not from the input bytes.
    let table = table_with(&[(0x41, 0x2603)]);
    let s = bytes_to_string(&table, &[0x41]);
    assert_eq!(s, "\u{2603}");
}

#[test]
fn one_byte_decode_replaces_unpaired_surrogate_unit() {
    let table = table_with(&[(0x41, 0xD800)]);
    let s = bytes_to_string(&table, &[0x41]);
    assert_eq!(s, "\u{FFFD}");
}

#[test]
fn one_byte_decode_empty_input() {
    let table = identity_table();
    let enc = Encoding::OneByteEncoding(&table);
    assert_eq!(enc.bytes_to_string(&[]).unwrap(), "");
}

#[test]
fn simple_decode_never_fails_on_malformed_input() {
    let enc = Encoding::SimpleEncoding("UniGB-UCS2-H");
    assert!(enc.bytes_to_string(&[]).is_ok());
    assert!(enc.bytes_to_string(&[0x00]).is_ok());
    assert!(enc.bytes_to_string(&[0xD8, 0x00, 0x00]).is_ok());
    assert!(enc.bytes_to_string(&[0xFF, 0xFE, 0xFD]).is_ok());
}

#[test]
fn simple_decode_is_big_endian_utf16() {
    let enc = Encoding::SimpleEncoding("UniGB-UCS2-H");
    let s = enc.bytes_to_string(&[0x00, 0x41, 0x26, 0x03]).unwrap();
    assert_eq!(s, "A\u{2603}");
}

#[test]
fn simple_decode_replaces_malformed_sequences() {
    let enc = Encoding::SimpleEncoding("UniGB-UTF16-H");
    // A lone lead surrogate followed by a BMP unit, and a trailing odd byte.
    let s = enc.bytes_to_string(&[0xD8, 0x00, 0x00, 0x41, 0x00]).unwrap();
    assert_eq!(s, "\u{FFFD}A\u{FFFD}");
}

#[test]
fn simple_round_trip_ucs2_name() {
    let enc = Encoding::SimpleEncoding("UniGB-UCS2-H");
    let text = "H\u{e9}llo \u{2713} \u{1d54a}";
    let bytes = enc.string_to_bytes(text).unwrap();
    let back = enc.bytes_to_string(&bytes).unwrap();
    assert_eq!(back, text);
}

#[test]
fn simple_round_trip_utf16_name() {
    let enc = Encoding::SimpleEncoding("UniGB-UTF16-H");
    let text = "\u{1d11e} scale \u{fffd}";
    let bytes = enc.string_to_bytes(text).unwrap();
    let back = enc.bytes_to_string(&bytes).unwrap();
    assert_eq!(back, text);
}

#[test]
fn simple_encode_is_big_endian_utf16() {
    let enc = Encoding::SimpleEncoding("UniGB-UTF16-H");
    let bytes = enc.string_to_bytes("A\u{1d11e}").unwrap();
    assert_eq!(bytes, vec![0x00, 0x41, 0xD8, 0x34, 0xDD, 0x1E]);
}

#[test]
fn unrecognized_name_decode_fails_with_content_decode() {
    let enc = Encoding::SimpleEncoding("WinAnsiEncoding");
    assert_eq!(enc.bytes_to_string(&[0x41]), Err(Error::ContentDecode));
    // Deterministically: again, and on other inputs.
    assert_eq!(enc.bytes_to_string(&[0x41]), Err(Error::ContentDecode));
    assert_eq!(enc.bytes_to_string(&[]), Err(Error::ContentDecode));
}

#[test]
fn unrecognized_name_encode_falls_back_to_standard_table() {
    let enc = Encoding::SimpleEncoding("WinAnsiEncoding");
    let bytes = enc.string_to_bytes("Hi!").unwrap();
    assert_eq!(bytes, vec![0x48, 0x69, 0x21]);
    // A character outside the default table is dropped.
    let bytes = enc.string_to_bytes("a\u{e9}b").unwrap();
    assert_eq!(bytes, vec![0x61, 0x62]);
}

#[test]
fn cmap_decode_maps_codes() {
    let map = cmap_of(vec![(0x0001, vec!['A', 'B']), (0x0002, vec!['\u{20ac}'])]);
    let enc = Encoding::UnicodeMapEncoding(map);
    let s = enc.bytes_to_string(&[0x00, 0x01, 0x00, 0x02]).unwrap();
    assert_eq!(s, "AB\u{20ac}");
}

#[test]
fn cmap_decode_miss_yields_replacement_char() {
    let map = cmap_of(vec![(0x0001, vec!['A'])]);
    let enc = Encoding::UnicodeMapEncoding(map);
    let s = enc.bytes_to_string(&[0x00, 0x07]).unwrap();
    assert_eq!(s, "\u{FFFD}");
}

#[test]
fn cmap_decode_drops_trailing_odd_byte() {
    let map = cmap_of(vec![(0x0001, vec!['A'])]);
    let enc = Encoding::UnicodeMapEncoding(map);
    let s = enc.bytes_to_string(&[0x00, 0x01, 0x99]).unwrap();
    assert_eq!(s, "A");
}

#[test]
fn cmap_decode_handles_supplementary_plane() {
    let map = cmap_of(vec![(0x0003, vec!['\u{1d11e}'])]);
    let enc = Encoding::UnicodeMapEncoding(map);
    let s = enc.bytes_to_string(&[0x00, 0x03]).unwrap();
    assert_eq!(s, "\u{1d11e}");
}

#[test]
fn cmap_decode_never_fails() {
    let map = cmap_of(vec![]);
    let enc = Encoding::UnicodeMapEncoding(map);
    assert!(enc.bytes_to_string(&[]).is_ok());
    assert!(enc.bytes_to_string(&[0x01]).is_ok());
    assert!(enc.bytes_to_string(&[0xFF, 0xFF, 0xFF]).is_ok());
}

#[test]
fn cmap_encode_is_unsupported() {
    let map = cmap_of(vec![(0x0001, vec!['A'])]);
    let enc = Encoding::UnicodeMapEncoding(map);
    assert_eq!(enc.string_to_bytes("A"), Err(Error::Unsupported));
    assert_eq!(enc.string_to_bytes(""), Err(Error::Unsupported));
}

#[test]
fn get_or_replacement_char_lookup() {
    let map = cmap_of(vec![(0x0001, vec!['x', 'y']), (0x0001, vec!['z'])]);
    assert_eq!(map.get_or_replacement_char(0x0001), vec!['x', 'y']);
    assert_eq!(map.get_or_replacement_char(0x0002), vec!['\u{FFFD}']);
}
