use msgpack::decoder::Decoder;
use msgpack::error::{DecodeError, TagKind};
use msgpack::source::ByteSource;

fn decoder_for(bytes: Vec<u8>) -> Decoder {
    Decoder::new(ByteSource::new(bytes))
}

#[test]
fn unsigned_round_trip_all_tiers() {
    // Fixed positive range.
    assert_eq!(decoder_for(vec![0x00]).decode_u64(), Ok(0));
    assert_eq!(decoder_for(vec![0x7f]).decode_u64(), Ok(0x7f));
    // 8-bit tier.
    assert_eq!(decoder_for(vec![0xcc, 200]).decode_u64(), Ok(200));
    // 16-bit tier.
    assert_eq!(decoder_for(vec![0xcd, 0x01, 0x2c]).decode_u64(), Ok(300));
    // 32-bit tier.
    assert_eq!(
        decoder_for(vec![0xce, 0x00, 0x01, 0x11, 0x70]).decode_u64(),
        Ok(70000)
    );
    // 64-bit tier, including the largest value.
    assert_eq!(
        decoder_for(vec![0xcf, 0x00, 0x00, 0x01, 0x00, 0x00, 0x00, 0x00, 0x00]).decode_u64(),
        Ok(1 << 40)
    );
    assert_eq!(
        decoder_for(vec![0xcf, 0xff, 0xff, 0xff, 0xff, 0xff, 0xff, 0xff, 0xff]).decode_u64(),
        Ok(u64::MAX)
    );
}

#[test]
fn signed_round_trip_all_tiers() {
    // Fixed negative range [-32, -1].
    assert_eq!(decoder_for(vec![0xff]).decode_i64(), Ok(-1));
    assert_eq!(decoder_for(vec![0xe0]).decode_i64(), Ok(-32));
    // 8-bit tier.
    assert_eq!(decoder_for(vec![0xd0, 0x9c]).decode_i64(), Ok(-100));
    assert_eq!(decoder_for(vec![0xd0, 0x64]).decode_i64(), Ok(100));
    // 16-bit tier.
    assert_eq!(decoder_for(vec![0xd1, 0x8a, 0xd0]).decode_i64(), Ok(-30000));
    // 32-bit tier.
    assert_eq!(
        decoder_for(vec![0xd2, 0x88, 0xca, 0x6c, 0x00]).decode_i64(),
        Ok(-2000000000)
    );
    // 64-bit tier, including both extremes.
    assert_eq!(
        decoder_for(vec![0xd3, 0x80, 0x00, 0x00, 0x00, 0x00, 0x00, 0x00, 0x00]).decode_i64(),
        Ok(i64::MIN)
    );
    assert_eq!(
        decoder_for(vec![0xd3, 0x7f, 0xff, 0xff, 0xff, 0xff, 0xff, 0xff, 0xff]).decode_i64(),
        Ok(i64::MAX)
    );
}

#[test]
fn nil_byte_only_decodes_as_nil() {
    assert_eq!(decoder_for(vec![0xc0]).decode_nil(), Ok(()));
    assert_eq!(
        decoder_for(vec![0xc0]).decode_bool(),
        Err(DecodeError::InvalidTag {
            expected: TagKind::Boolean,
            found: 0xc0
        })
    );
    assert_eq!(
        decoder_for(vec![0xc0]).decode_u64(),
        Err(DecodeError::InvalidTag {
            expected: TagKind::UnsignedInteger,
            found: 0xc0
        })
    );
    assert_eq!(
        decoder_for(vec![0xc0]).decode_i64(),
        Err(DecodeError::InvalidTag {
            expected: TagKind::SignedInteger,
            found: 0xc0
        })
    );
    assert_eq!(
        decoder_for(vec![0xc0]).decode_f32_bits(),
        Err(DecodeError::InvalidTag {
            expected: TagKind::Float32,
            found: 0xc0
        })
    );
    assert_eq!(
        decoder_for(vec![0xc0]).decode_f64_bits(),
        Err(DecodeError::InvalidTag {
            expected: TagKind::Float64,
            found: 0xc0
        })
    );
    assert_eq!(
        decoder_for(vec![0xc0]).decode_string(),
        Err(DecodeError::InvalidTag {
            expected: TagKind::Text,
            found: 0xc0
        })
    );
    assert_eq!(
        decoder_for(vec![0xc0]).decode_char(),
        Err(DecodeError::InvalidTag {
            expected: TagKind::Text,
            found: 0xc0
        })
    );
    assert_eq!(
        decoder_for(vec![0xc0]).decode_sequence(),
        Err(DecodeError::InvalidTag {
            expected: TagKind::SequenceLength,
            found: 0xc0
        })
    );
    assert_eq!(
        decoder_for(vec![0xc0]).decode_map(),
        Err(DecodeError::InvalidTag {
            expected: TagKind::MapLength,
            found: 0xc0
        })
    );
}

#[test]
fn option_peeks_without_consuming() {
    // A nil byte reports "absent" and stays for decode_nil to consume.
    let mut d = decoder_for(vec![0xc0]);
    assert_eq!(d.decode_option(), Ok(false));
    assert_eq!(d.decode_nil(), Ok(()));
    // Any other byte reports "present" and stays for the real decode.
    let mut d = decoder_for(vec![0x2a]);
    assert_eq!(d.decode_option(), Ok(true));
    assert_eq!(d.decode_u8(), Ok(42));
}

#[test]
fn struct_arity_must_match_wire_map_length() {
    // A map of declared length 3 against an expected field count of 2.
    let mut d = decoder_for(vec![0x83, 0x01, 0x02, 0x03]);
    assert_eq!(
        d.decode_struct("triple", 2),
        Err(DecodeError::ArityMismatch {
            fields: 2,
            entries: 3
        })
    );
    // The same wire value with the matching count: three field calls.
    let mut d = decoder_for(vec![0x83, 0x01, 0x02, 0x03]);
    assert_eq!(d.decode_struct("triple", 3), Ok(()));
    let mut seen = Vec::new();
    for i in 0..3 {
        d.decode_struct_field("field", i);
        seen.push(d.decode_u8().unwrap());
    }
    assert_eq!(seen, vec![1, 2, 3]);
}

#[test]
fn short_string_is_end_of_stream() {
    // Declared as 5 bytes, only 3 remain.
    let mut d = decoder_for(vec![0xa5, b'a', b'b', b'c']);
    assert_eq!(d.decode_string(), Err(DecodeError::UnexpectedEndOfStream));
}

#[test]
fn string_round_trip() {
    let mut d = decoder_for(vec![0xa5, b'h', b'e', b'l', b'l', b'o']);
    assert_eq!(d.decode_string(), Ok(String::from("hello")));
    // The empty string.
    assert_eq!(decoder_for(vec![0xa0]).decode_string(), Ok(String::new()));
    // A 16-bit length prefix.
    let mut d = decoder_for(vec![0xda, 0x00, 0x02, b'o', b'k']);
    assert_eq!(d.decode_string(), Ok(String::from("ok")));
    // A 32-bit length prefix.
    let mut d = decoder_for(vec![0xdb, 0x00, 0x00, 0x00, 0x02, b'n', b'o']);
    assert_eq!(d.decode_string(), Ok(String::from("no")));
}

#[test]
fn malformed_text_is_invalid_encoding() {
    let mut d = decoder_for(vec![0xa2, 0xff, 0xfe]);
    assert_eq!(d.decode_string(), Err(DecodeError::InvalidEncoding));
}

#[test]
fn char_takes_first_code_unit_of_nonempty_string() {
    assert_eq!(decoder_for(vec![0xa1, b'x']).decode_char(), Ok('x'));
    assert_eq!(
        decoder_for(vec![0xa3, b'a', b'b', b'c']).decode_char(),
        Ok('a')
    );
    assert_eq!(
        decoder_for(vec![0xa0]).decode_char(),
        Err(DecodeError::InvalidEncoding)
    );
}

#[test]
fn narrowing_checks_the_target_width() {
    // 300 does not fit 8 bits; 200 does.
    assert_eq!(
        decoder_for(vec![0xcd, 0x01, 0x2c]).decode_u8(),
        Err(DecodeError::NumericOverflow)
    );
    assert_eq!(decoder_for(vec![0xcc, 200]).decode_u8(), Ok(200));
    assert_eq!(
        decoder_for(vec![0xce, 0x00, 0x01, 0x00, 0x00]).decode_u16(),
        Err(DecodeError::NumericOverflow)
    );
    assert_eq!(
        decoder_for(vec![0xcf, 0x00, 0x00, 0x00, 0x01, 0x00, 0x00, 0x00, 0x00]).decode_u32(),
        Err(DecodeError::NumericOverflow)
    );
    assert_eq!(
        decoder_for(vec![0xd1, 0xff, 0x00]).decode_i8(),
        Err(DecodeError::NumericOverflow)
    );
    assert_eq!(decoder_for(vec![0xd1, 0xff, 0x9c]).decode_i8(), Ok(-100));
    assert_eq!(
        decoder_for(vec![0xd2, 0xff, 0xff, 0x70, 0x00]).decode_i16(),
        Err(DecodeError::NumericOverflow)
    );
    assert_eq!(
        decoder_for(vec![0xd3, 0x00, 0x00, 0x00, 0x01, 0x00, 0x00, 0x00, 0x00]).decode_i32(),
        Err(DecodeError::NumericOverflow)
    );
}

#[test]
fn map_of_two_entries_end_to_end() {
    let mut d = decoder_for(vec![0x82, 0xa1, b'a', 0x01, 0xa1, b'b', 0x02]);
    assert_eq!(d.decode_map(), Ok(2));
    let mut entries = Vec::new();
    for i in 0..2 {
        d.decode_map_key(i);
        let key = d.decode_string().unwrap();
        d.decode_map_value(i);
        let value = d.decode_u64().unwrap();
        entries.push((key, value));
    }
    assert_eq!(
        entries,
        vec![(String::from("a"), 1), (String::from("b"), 2)]
    );
}

#[test]
fn booleans() {
    assert_eq!(decoder_for(vec![0xc2]).decode_bool(), Ok(false));
    assert_eq!(decoder_for(vec![0xc3]).decode_bool(), Ok(true));
}

#[test]
fn float_bit_patterns() {
    let mut d = decoder_for(vec![0xca, 0x40, 0x49, 0x0f, 0xdb]);
    let bits = d.decode_f32_bits().unwrap();
    assert!((f32::from_bits(bits) - 3.14159274).abs() < 1e-6);
    let mut d = decoder_for(vec![0xcb, 0x3f, 0xf0, 0x00, 0x00, 0x00, 0x00, 0x00, 0x00]);
    let bits = d.decode_f64_bits().unwrap();
    assert_eq!(f64::from_bits(bits), 1.0);
    // A truncated payload is an end-of-stream failure.
    assert_eq!(
        decoder_for(vec![0xcb, 0x3f, 0xf0]).decode_f64_bits(),
        Err(DecodeError::UnexpectedEndOfStream)
    );
}

#[test]
fn sequence_lengths_across_headers() {
    assert_eq!(decoder_for(vec![0x90]).decode_sequence(), Ok(0));
    assert_eq!(decoder_for(vec![0x9f]).decode_sequence(), Ok(15));
    assert_eq!(
        decoder_for(vec![0xdc, 0x00, 0x10]).decode_sequence(),
        Ok(16)
    );
    assert_eq!(
        decoder_for(vec![0xdd, 0x00, 0x01, 0x00, 0x00]).decode_sequence(),
        Ok(65536)
    );
    assert_eq!(decoder_for(vec![0x93]).decode_tuple(), Ok(3));
    assert_eq!(decoder_for(vec![0x92]).decode_tuple_struct("pair"), Ok(2));
}

#[test]
fn map_lengths_across_headers() {
    assert_eq!(decoder_for(vec![0x80]).decode_map(), Ok(0));
    assert_eq!(decoder_for(vec![0x8f]).decode_map(), Ok(15));
    assert_eq!(decoder_for(vec![0xde, 0x00, 0x11]).decode_map(), Ok(17));
    assert_eq!(
        decoder_for(vec![0xdf, 0x00, 0x00, 0x00, 0x05]).decode_map(),
        Ok(5)
    );
}

#[test]
fn sequence_of_values_in_order() {
    let mut d = decoder_for(vec![0x93, 0x0a, 0x14, 0x1e]);
    assert_eq!(d.decode_sequence(), Ok(3));
    let mut out = Vec::new();
    for i in 0..3 {
        d.decode_sequence_element(i);
        out.push(d.decode_u32().unwrap());
    }
    assert_eq!(out, vec![10, 20, 30]);
}

#[test]
fn exhausted_source_fails_every_reader() {
    assert_eq!(
        decoder_for(Vec::new()).decode_u64(),
        Err(DecodeError::UnexpectedEndOfStream)
    );
    assert_eq!(
        decoder_for(Vec::new()).decode_nil(),
        Err(DecodeError::UnexpectedEndOfStream)
    );
    assert_eq!(
        decoder_for(Vec::new()).decode_option(),
        Err(DecodeError::UnexpectedEndOfStream)
    );
    // A tag whose payload is cut short.
    assert_eq!(
        decoder_for(vec![0xcd, 0x01]).decode_u64(),
        Err(DecodeError::UnexpectedEndOfStream)
    );
}

#[test]
fn enum_decoding_is_unsupported() {
    assert_eq!(
        decoder_for(vec![0x00]).decode_enum("choice"),
        Err(DecodeError::UnsupportedOperation)
    );
    assert_eq!(
        decoder_for(vec![0x00]).decode_enum_variant(),
        Err(DecodeError::UnsupportedOperation)
    );
    assert_eq!(
        decoder_for(vec![0x00]).decode_enum_variant_arg(0),
        Err(DecodeError::UnsupportedOperation)
    );
    assert_eq!(
        decoder_for(vec![0x00]).decode_enum_struct_variant(),
        Err(DecodeError::UnsupportedOperation)
    );
    assert_eq!(
        decoder_for(vec![0x00]).decode_enum_struct_variant_field("field", 0),
        Err(DecodeError::UnsupportedOperation)
    );
}

#[test]
fn primitive_reader_byte_and_lookahead() {
    let mut d = decoder_for(vec![0x01, 0x02]);
    assert_eq!(d.peek_byte(), Ok(0x01));
    assert_eq!(d.peek_byte(), Ok(0x01));
    assert_eq!(d.read_byte(), Ok(0x01));
    assert_eq!(d.read_byte(), Ok(0x02));
    assert_eq!(d.read_byte(), Err(DecodeError::UnexpectedEndOfStream));
}

#[test]
fn raw_reads_exact_runs() {
    let mut d = decoder_for(vec![0x01, 0x02, 0x03]);
    assert_eq!(d.read_raw(2), Ok(vec![0x01, 0x02]));
    assert_eq!(d.read_raw(2), Err(DecodeError::UnexpectedEndOfStream));
    assert_eq!(d.read_raw(1), Ok(vec![0x03]));
}

#[test]
fn raw_reads_include_the_lookahead_byte() {
    let mut d = decoder_for(vec![0x01, 0x02]);
    assert_eq!(d.peek_byte(), Ok(0x01));
    assert_eq!(d.read_raw(2), Ok(vec![0x01, 0x02]));
    let mut d = decoder_for(vec![0x07]);
    assert_eq!(d.peek_byte(), Ok(0x07));
    assert_eq!(d.read_raw(0), Ok(Vec::new()));
    assert_eq!(d.read_byte(), Ok(0x07));
}
