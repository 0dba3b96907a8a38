use chunk_codec::chunk::{Chunk, DecodeError, TextDecodeError};
use chunk_codec::chunk_type::ChunkType;
use chunk_codec::decimal::u32_to_dec;

fn rust_tag() -> ChunkType {
    ChunkType::from_str("RuSt").unwrap()
}

#[test]
fn test_round_trip_bytes() {
    let chunk = Chunk::new(rust_tag(), b"arbitrary payload \x00\x01\xff bytes".to_vec());
    let wire = chunk.as_bytes();
    let parsed = Chunk::try_from(&wire).unwrap();
    assert_eq!(parsed.length(), chunk.length());
    assert_eq!(parsed.crc(), chunk.crc());
    assert_eq!(parsed.chunk_type().bytes(), chunk.chunk_type().bytes());
    assert_eq!(parsed.chunk_data, chunk.chunk_data);
}

#[test]
fn test_empty_payload() {
    let chunk = Chunk::new(rust_tag(), Vec::new());
    assert_eq!(chunk.length(), 0);
    let wire = chunk.as_bytes();
    assert_eq!(wire.len(), 12);
    let parsed = Chunk::try_from(&wire).unwrap();
    assert_eq!(parsed.length(), 0);
    assert!(parsed.chunk_data.is_empty());
    assert_eq!(parsed.crc(), chunk.crc());
}

#[test]
fn test_crc_matches_independent_computation() {
    let payload = b"This is where your secret message will be!".to_vec();
    let chunk = Chunk::new(rust_tag(), payload);
    let mut fed: Vec<u8> = b"RuSt".to_vec();
    fed.extend_from_slice(b"This is where your secret message will be!");
    let independent = crc::Crc::<u32>::new(&crc::CRC_32_ISO_HDLC).checksum(&fed);
    assert_eq!(chunk.crc(), independent);
    assert_eq!(chunk.crc(), 2882656334);
}

#[test]
fn test_truncated_inputs() {
    for n in 0..12usize {
        let buf: Vec<u8> = vec![0xab; n];
        let r = Chunk::try_from(&buf);
        assert_eq!(r.unwrap_err(), DecodeError::StructuralError);
    }
}

#[test]
fn test_twelve_byte_buffer_is_not_structural() {
    let buf: Vec<u8> = vec![0; 12];
    match Chunk::try_from(&buf) {
        Ok(chunk) => assert_eq!(chunk.length(), 0),
        Err(e) => assert_eq!(e, DecodeError::IntegrityError),
    }
}

#[test]
fn test_trailer_bit_flips_rejected() {
    let chunk = Chunk::new(rust_tag(), b"payload".to_vec());
    let wire = chunk.as_bytes();
    for byte_in_trailer in 0..4usize {
        for bit in 0..8u8 {
            let mut tampered = wire.clone();
            let i = wire.len() - 4 + byte_in_trailer;
            tampered[i] ^= 1u8 << bit;
            let r = Chunk::try_from(&tampered);
            assert_eq!(r.unwrap_err(), DecodeError::IntegrityError);
        }
    }
}

#[test]
fn test_crc_low_byte_flip_rejected() {
    let data_length: u32 = 42;
    let message = b"This is where your secret message will be!";
    let crc: u32 = 2882656334;
    let wire: Vec<u8> = data_length
        .to_be_bytes()
        .iter()
        .chain(b"RuSt".iter())
        .chain(message.iter())
        .chain((crc ^ 1).to_be_bytes().iter())
        .copied()
        .collect();
    let r = Chunk::try_from(&wire);
    assert_eq!(r.unwrap_err(), DecodeError::IntegrityError);
}

#[test]
fn test_declared_length_not_cross_checked() {
    let chunk = Chunk::new(rust_tag(), b"actual payload".to_vec());
    let mut wire = chunk.as_bytes();
    // Overwrite the declared length field with a value that disagrees with
    // the true payload size; the CRC does not cover it, so parsing accepts
    // the buffer and stores the declared value as-is.
    let declared: u32 = 9999;
    wire[0..4].copy_from_slice(&declared.to_be_bytes());
    let parsed = Chunk::try_from(&wire).unwrap();
    assert_eq!(parsed.length(), 9999);
    assert_eq!(parsed.chunk_data, b"actual payload".to_vec());
}

#[test]
fn test_data_as_string_rejects_non_utf8() {
    let chunk = Chunk::new(rust_tag(), vec![0xff, 0xfe, 0x41]);
    assert_eq!(chunk.data_as_string().unwrap_err(), TextDecodeError);
    assert!(chunk.render().is_err());
}

#[test]
fn test_data_as_string_multibyte_utf8() {
    let chunk = Chunk::new(rust_tag(), "héllo wörld".as_bytes().to_vec());
    assert_eq!(chunk.data_as_string().unwrap(), String::from("héllo wörld"));
}

#[test]
fn test_render_line() {
    let chunk = Chunk::new(
        rust_tag(),
        b"This is where your secret message will be!".to_vec(),
    );
    assert_eq!(
        chunk.render().unwrap(),
        String::from(
            "CRC: 2882656334, Chunk type: RuSt, Chunk data: This is where your secret message will be!, Length: 42"
        )
    );
}

#[test]
fn test_chunk_type_from_str() {
    assert_eq!(rust_tag().bytes(), *b"RuSt");
    assert!(ChunkType::from_str("abc").is_none());
    assert!(ChunkType::from_str("toolong").is_none());
    assert!(ChunkType::from_str("").is_none());
}

#[test]
fn test_decimal_rendering() {
    assert_eq!(u32_to_dec(0), String::from("0"));
    assert_eq!(u32_to_dec(7), String::from("7"));
    assert_eq!(u32_to_dec(10), String::from("10"));
    assert_eq!(u32_to_dec(4294967295), String::from("4294967295"));
}
