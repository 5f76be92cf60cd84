use column_reader::block::{
    parse_header, read_header_and_get_codec_and_size, read_next_block, validate_checksum,
    BlockHeader,
};
use column_reader::bytes::ByteCursor;
use column_reader::cityhash::city_hash_128;
use column_reader::codec::{check_decoded_size, check_sizes, decompress, CompressMethod, LZ4_MAX_INPUT};
use column_reader::error::ReadError;
use column_reader::values::{read_int, read_string};

fn block_with_sizes(tag: u8, payload: &[u8], compressed: u32, decompressed: u32) -> Vec<u8> {
    let mut body = vec![tag];
    body.extend_from_slice(&compressed.to_le_bytes());
    body.extend_from_slice(&decompressed.to_le_bytes());
    body.extend_from_slice(payload);
    let checksum = city_hash_128(&body);
    let mut out = Vec::new();
    out.extend_from_slice(&(checksum as u64).to_le_bytes());
    out.extend_from_slice(&((checksum >> 64) as u64).to_le_bytes());
    out.extend_from_slice(&body);
    out
}

fn block(tag: u8, payload: &[u8], decompressed: u32) -> Vec<u8> {
    block_with_sizes(tag, payload, payload.len() as u32 + 9, decompressed)
}

#[test]
fn two_block_stream() {
    let first = block(0x02, &[0x06, b'M', b'o', b's', b'c', b'o', b'w'], 7);
    let second = block(0x02, &42u32.to_le_bytes(), 4);
    assert_eq!(first[17..21], 16u32.to_le_bytes());
    assert_eq!(second[17..21], 13u32.to_le_bytes());
    let mut stream = first.clone();
    stream.extend_from_slice(&second);
    let mut src = ByteCursor::new(stream);

    let one = read_next_block(&mut src).unwrap().unwrap();
    assert_eq!(src.position(), first.len());
    let mut values = ByteCursor::new(one);
    assert_eq!(read_string(&mut values).unwrap(), "Moscow");
    assert!(values.is_at_end());

    let two = read_next_block(&mut src).unwrap().unwrap();
    let mut values = ByteCursor::new(two);
    assert_eq!(read_int(&mut values, 4).unwrap(), 42);
    assert!(src.is_at_end());
}

#[test]
fn round_trip_uncompressed() {
    let data: Vec<u8> = (0..=255u8).collect();
    let mut src = ByteCursor::new(block(0x02, &data, data.len() as u32));
    assert_eq!(read_next_block(&mut src).unwrap().unwrap(), data);
    assert_eq!(src.position(), data.len() + 25);
}

#[test]
fn empty_uncompressed_block() {
    let mut src = ByteCursor::new(block(0x02, &[], 0));
    assert_eq!(read_next_block(&mut src).unwrap().unwrap(), Vec::<u8>::new());
    assert!(src.is_at_end());
}

#[test]
fn flipped_bit_is_checksum_mismatch() {
    let good = block(0x02, b"payload bytes", 13);
    for i in 25..good.len() {
        for bit in 0..8 {
            let mut bad = good.clone();
            bad[i] ^= 1 << bit;
            let mut src = ByteCursor::new(bad);
            assert_eq!(read_next_block(&mut src), Err(ReadError::ChecksumMismatch));
        }
    }
}

#[test]
fn flipped_stored_checksum_is_mismatch() {
    let mut bad = block(0x02, b"abc", 3);
    bad[3] ^= 0x10;
    let mut src = ByteCursor::new(bad);
    assert_eq!(read_next_block(&mut src), Err(ReadError::ChecksumMismatch));
}

#[test]
fn truncated_block_is_truncated_input() {
    let good = block(0x02, b"some column bytes", 17);
    for t in 1..good.len() {
        let mut src = ByteCursor::new(good[..t].to_vec());
        assert_eq!(read_next_block(&mut src), Err(ReadError::TruncatedInput));
    }
    let mut src = ByteCursor::new(Vec::new());
    assert_eq!(read_next_block(&mut src), Ok(None));
}

#[test]
fn size_below_header_is_truncated_input() {
    let bad = block_with_sizes(0x02, &[], 8, 0);
    let mut src = ByteCursor::new(bad);
    assert_eq!(read_next_block(&mut src), Err(ReadError::TruncatedInput));
}

#[test]
fn unknown_tag_is_unsupported_codec() {
    let mut src = ByteCursor::new(block(0x00, b"xyz", 3));
    assert_eq!(read_next_block(&mut src), Err(ReadError::UnsupportedCodec));
    let mut src = ByteCursor::new(block(0x03, b"xyz", 3));
    assert_eq!(read_next_block(&mut src), Err(ReadError::UnsupportedCodec));
}

#[test]
fn uncompressed_size_mismatch_fails() {
    let mut src = ByteCursor::new(block(0x02, b"xyz", 4));
    assert_eq!(read_next_block(&mut src), Err(ReadError::DecompressionFailed));
    let mut src = ByteCursor::new(block(0x02, b"xyz", 2));
    assert_eq!(read_next_block(&mut src), Err(ReadError::DecompressionFailed));
}

#[test]
fn codec_without_decompressor_fails() {
    let mut src = ByteCursor::new(block(0x92, b"xyz", 3));
    assert_eq!(read_next_block(&mut src), Err(ReadError::DecompressionFailed));
    let mut src = ByteCursor::new(block(0x90, &[], 0));
    assert_eq!(read_next_block(&mut src), Err(ReadError::DecompressionFailed));
}

#[test]
fn header_fields_are_little_endian() {
    let data = block_with_sizes(0x90, &[], 0x0403_0201, 0x0807_0605);
    let mut src = ByteCursor::new(data.clone());
    let header = parse_header(&mut src).unwrap();
    let stored = u128::from_le_bytes(data[..16].try_into().unwrap());
    assert_eq!(header.checksum, stored);
    assert_eq!(header.method_tag, 0x90);
    assert_eq!(header.compressed_size, 0x0403_0201);
    assert_eq!(header.decompressed_size, 0x0807_0605);
    assert_eq!(src.position(), 25);
}

#[test]
fn short_header_is_truncated_input() {
    let mut src = ByteCursor::new(vec![0u8; 24]);
    assert_eq!(parse_header(&mut src), Err(ReadError::TruncatedInput));
}

#[test]
fn header_read_stops_at_payload() {
    let data = block(0x02, b"hello", 5);
    let mut src = ByteCursor::new(data);
    let info = read_header_and_get_codec_and_size(&mut src).unwrap().unwrap();
    assert_eq!(info.compression_method, CompressMethod::NONE);
    assert_eq!(info.size_compressed_without_checksum, 14);
    assert_eq!(info.size_decompressed, 5);
    assert_eq!(src.position(), 25);
}

#[test]
fn checksum_gate_compares_before_lookup() {
    let header = BlockHeader {
        checksum: 7,
        method_tag: 0x00,
        compressed_size: 9,
        decompressed_size: 0,
    };
    assert_eq!(validate_checksum(&header, 8), Err(ReadError::ChecksumMismatch));
    assert_eq!(validate_checksum(&header, 7), Err(ReadError::UnsupportedCodec));
    let header = BlockHeader { method_tag: 0x95, ..header };
    let info = validate_checksum(&header, 7).unwrap();
    assert_eq!(info.compression_method, CompressMethod::Gorilla);
    assert_eq!(info.checksum, 7);
    assert_eq!(info.size_compressed_without_checksum, 9);
}

#[test]
fn decompress_without_compression() {
    assert_eq!(decompress(CompressMethod::NONE, vec![1, 2, 3], 3), Ok(vec![1, 2, 3]));
    assert_eq!(
        decompress(CompressMethod::NONE, vec![1, 2, 3], 5),
        Err(ReadError::DecompressionFailed)
    );
    assert_eq!(
        decompress(CompressMethod::ZSTD, vec![1, 2, 3], 3),
        Err(ReadError::DecompressionFailed)
    );
}

#[test]
fn lz4_block_round_trip() {
    let data: Vec<u8> = b"abcabcabcabcabcabcabcabcabcabc-column-data-column-data".to_vec();
    let packed = lz4_flex::block::compress(&data);
    assert_ne!(packed, data);
    let mut src = ByteCursor::new(block(0x82, &packed, data.len() as u32));
    assert_eq!(read_next_block(&mut src).unwrap().unwrap(), data);
    assert!(src.is_at_end());
}

#[test]
fn lz4_block_with_wrong_size_fails() {
    let data: Vec<u8> = b"hello hello hello hello".to_vec();
    let packed = lz4_flex::block::compress(&data);
    let mut src = ByteCursor::new(block(0x82, &packed, data.len() as u32 + 1));
    assert_eq!(read_next_block(&mut src), Err(ReadError::DecompressionFailed));
    let mut src = ByteCursor::new(block(0x82, &packed, data.len() as u32 - 1));
    assert_eq!(read_next_block(&mut src), Err(ReadError::DecompressionFailed));
}

#[test]
fn malformed_lz4_payload_fails() {
    let mut src = ByteCursor::new(block(0x82, b"xyz", 3));
    assert_eq!(read_next_block(&mut src), Err(ReadError::DecompressionFailed));
}

#[test]
fn lz4_empty_payload_fails() {
    let mut src = ByteCursor::new(block(0x82, &[], 0));
    assert_eq!(read_next_block(&mut src), Err(ReadError::DecompressionFailed));
}

#[test]
fn lz4_decompress_direct() {
    let data: Vec<u8> = vec![7u8; 100];
    let packed = lz4_flex::block::compress(&data);
    assert_eq!(decompress(CompressMethod::LZ4, packed, 100), Ok(data));
}

#[test]
fn decoded_size_is_checked() {
    assert_eq!(check_decoded_size(Some(vec![1, 2]), 2), Ok(vec![1, 2]));
    assert_eq!(check_decoded_size(Some(vec![1, 2]), 3), Err(ReadError::DecompressionFailed));
    assert_eq!(check_decoded_size(None, 0), Err(ReadError::DecompressionFailed));
}

#[test]
fn stream_ends_at_block_boundary() {
    let mut stream = block(0x02, b"ab", 2);
    stream.extend_from_slice(&block(0x02, b"cde", 3));
    let mut src = ByteCursor::new(stream.clone());
    assert_eq!(read_next_block(&mut src), Ok(Some(b"ab".to_vec())));
    assert_eq!(read_next_block(&mut src), Ok(Some(b"cde".to_vec())));
    assert_eq!(read_next_block(&mut src), Ok(None));
    assert_eq!(read_next_block(&mut src), Ok(None));
    let mut src = ByteCursor::new(stream[..stream.len() - 1].to_vec());
    assert_eq!(read_next_block(&mut src), Ok(Some(b"ab".to_vec())));
    assert_eq!(read_next_block(&mut src), Err(ReadError::TruncatedInput));
    let mut src = ByteCursor::new(Vec::new());
    assert_eq!(read_next_block(&mut src), Ok(None));
}

#[test]
fn header_check_rejects_uncompressed_size_mismatch() {
    let mut src = ByteCursor::new(block(0x02, b"xyz", 4));
    assert_eq!(
        read_header_and_get_codec_and_size(&mut src),
        Err(ReadError::DecompressionFailed)
    );
}

#[test]
fn header_check_rejects_empty_compressed_payload() {
    for tag in [0x82u8, 0x90, 0x9b] {
        let mut src = ByteCursor::new(block(tag, &[], 0));
        assert_eq!(
            read_header_and_get_codec_and_size(&mut src),
            Err(ReadError::DecompressionFailed)
        );
    }
    let mut src = ByteCursor::new(block(0x02, &[], 0));
    let info = read_header_and_get_codec_and_size(&mut src).unwrap().unwrap();
    assert_eq!(info.size_decompressed, 0);
}

#[test]
fn header_read_at_end_of_stream() {
    let data = block(0x02, b"q", 1);
    let len = data.len();
    let mut src = ByteCursor::new(data);
    src.seek(len);
    assert_eq!(read_header_and_get_codec_and_size(&mut src), Ok(None));
    assert_eq!(src.position(), len);
    src.seek(len - 1);
    assert_eq!(
        read_header_and_get_codec_and_size(&mut src),
        Err(ReadError::TruncatedInput)
    );
}

#[test]
fn declared_sizes_agreement() {
    assert!(check_sizes(CompressMethod::NONE, 9, 0));
    assert!(check_sizes(CompressMethod::NONE, 16, 7));
    assert!(!check_sizes(CompressMethod::NONE, 16, 8));
    assert!(!check_sizes(CompressMethod::LZ4, 9, 0));
    assert!(check_sizes(CompressMethod::LZ4, 10, 1000));
}

#[test]
fn oversized_lz4_payload_fails() {
    let payload = vec![0xffu8; LZ4_MAX_INPUT + 1];
    assert_eq!(
        decompress(CompressMethod::LZ4, payload, 16),
        Err(ReadError::DecompressionFailed)
    );
}
