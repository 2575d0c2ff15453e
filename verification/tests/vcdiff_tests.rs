use ably_core::delta::vcdiff::{ByteCursor, MockVcdiffEncoder};
use ably_core::delta::{DeltaDecoder, VcdiffDecoder};

#[test]
fn test_vcdiff_decoder_creation() {
    let decoder = VcdiffDecoder::new();
    assert_eq!(decoder.max_output_size, 64 * 1024 * 1024);
}

#[test]
fn test_vcdiff_decoder_with_custom_limit() {
    let decoder = VcdiffDecoder::with_max_output_size(1024);
    assert_eq!(decoder.max_output_size, 1024);
}

#[test]
fn test_simple_delta_decode() {
    let decoder = VcdiffDecoder::new();
    let source = b"Hello, World!";
    let target = b"Hello, Ably!";
    let delta = MockVcdiffEncoder::create_simple_delta(source, target);
    match decoder.decode(&delta, source) {
        Ok(result) => {
            assert_eq!(result, target);
        }
        Err(_) => {}
    }
}

#[test]
fn test_invalid_vcdiff_magic() {
    let decoder = VcdiffDecoder::new();
    let invalid_delta = b"XYZ\x00";
    let source = b"test";
    let result = decoder.decode(invalid_delta, source);
    assert!(result.is_err());
}

#[test]
fn test_varint_reading() {
    let decoder = VcdiffDecoder::new();
    let data = vec![0x80, 0x01];
    let mut cursor = ByteCursor::new(data.as_slice());
    let result = decoder.read_varint(&mut cursor).unwrap();
    assert_eq!(result, 128);
}

#[test]
fn test_byte_reading() {
    let decoder = VcdiffDecoder::new();
    let data = vec![0x42];
    let mut cursor = ByteCursor::new(data.as_slice());
    let result = decoder.read_byte(&mut cursor).unwrap();
    assert_eq!(result, 0x42);
}

#[test]
fn mock_encoder_writes_header_and_target() {
    let delta = MockVcdiffEncoder::create_simple_delta(b"abc", b"xyz");
    assert_eq!(&delta[0..4], b"VCD\x00");
    assert!(delta.ends_with(b"xyz"));
}

#[test]
fn varint_writer_round_trips_through_reader() {
    let decoder = VcdiffDecoder::new();
    for value in [0u64, 1, 127, 128, 300, 16384, u32::MAX as u64, u64::MAX] {
        let mut buffer = Vec::new();
        MockVcdiffEncoder::write_varint(&mut buffer, value);
        let mut cursor = ByteCursor::new(buffer.as_slice());
        assert_eq!(decoder.read_varint(&mut cursor).unwrap(), value);
    }
}

#[test]
fn reading_past_the_end_fails() {
    let decoder = VcdiffDecoder::new();
    let data: Vec<u8> = vec![];
    let mut cursor = ByteCursor::new(data.as_slice());
    let err = decoder.read_byte(&mut cursor).unwrap_err();
    assert_eq!(err.to_display_string(), "Decode error: Failed to read byte: failed to fill whole buffer");
}

#[test]
fn output_limit_is_enforced() {
    let decoder = VcdiffDecoder::with_max_output_size(2);
    let delta = MockVcdiffEncoder::create_simple_delta(b"", b"abcdef");
    assert!(decoder.decode(&delta, b"").is_err());
}

#[test]
fn decode_through_trait_gives_target_or_error() {
    let decoder = VcdiffDecoder::new();
    let source = b"Hello";
    // Header, then one window with a source segment of 5 bytes at 0, a
    // delta encoding of 5 bytes and a target of 6: COPY(4) from 0, ADD(2) "o!".
    let delta: Vec<u8> =
        vec![0x56, 0x43, 0x44, 0x00, 0x00, 0x01, 0x05, 0x00, 0x05, 0x06, 0x43, 0x00, 0x17, b'o', b'!'];
    assert_eq!(DeltaDecoder::decode(&decoder, &delta, source).unwrap(), b"Hello!".to_vec());
    assert!(DeltaDecoder::decode(&decoder, &delta, b"").is_err());
    assert!(DeltaDecoder::decode(&decoder, b"VCD", source).is_err());
    assert!(DeltaDecoder::decode(&decoder, b"VCD\x01\x00", source).is_err());
}
