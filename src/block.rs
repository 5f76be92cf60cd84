use vstd::prelude::*;

use crate::bytes::{le_value, ByteCursor};
use crate::cityhash::{checksum_of, city_hash_128};
use crate::codec::{check_sizes, decompress, decompressed, method_of, sizes_agree, CompressMethod};
use crate::error::ReadError;
use crate::u128_low_high::{half_base, LowHigh};

verus! {

/// Bytes of the checksum that opens each block.
pub const CHECKSUM_SIZE: usize = 16;

/// Bytes of the method tag and the two size fields that follow the checksum.
pub const HEADER_SIZE: usize = 9;

/// 256^n: one more than the largest integer that `n` bytes encode.
pub open spec fn byte_range(n: nat) -> nat
    decreases n,
{
    if n == 0 {
        1
    } else {
        256 * byte_range((n - 1) as nat)
    }
}

/// `n` bytes encode an integer below 256^n.
pub proof fn lemma_le_value_bound(s: Seq<u8>)
    ensures
        le_value(s) < byte_range(s.len()),
    decreases s.len(),
{
    if s.len() > 0 {
        lemma_le_value_bound(s.drop_first());
    }
}

/// The little-endian integer in the `n` bytes at offset `p + off` of `s`.
pub open spec fn field_at(s: Seq<u8>, p: int, off: int, n: int) -> nat {
    le_value(s.subrange(p + off, p + off + n))
}

/// The checksum stored at the start of the block at `p`: the lower half in
/// the first eight bytes, the higher half in the next eight.
pub open spec fn stored_checksum_at(s: Seq<u8>, p: int) -> int {
    field_at(s, p, 0, 8) + field_at(s, p, 8, 8) * half_base()
}

/// The compression method tag of the block at `p`.
pub open spec fn tag_at(s: Seq<u8>, p: int) -> u8 {
    s[p + 16]
}

/// The declared size of the block at `p` after its checksum.
pub open spec fn compressed_size_at(s: Seq<u8>, p: int) -> nat {
    field_at(s, p, 17, 4)
}

/// The declared size of the payload of the block at `p` once decompressed.
pub open spec fn decompressed_size_at(s: Seq<u8>, p: int) -> nat {
    field_at(s, p, 21, 4)
}

/// The offset just past the block at `p`.
pub open spec fn block_end(s: Seq<u8>, p: int) -> int {
    p + 16 + compressed_size_at(s, p)
}

/// The bytes that the checksum of the block at `p` covers: the method tag,
/// the two size fields and the compressed payload.
pub open spec fn checked_bytes(s: Seq<u8>, p: int) -> Seq<u8> {
    s.subrange(p + 16, block_end(s, p))
}

/// The compressed payload of the block at `p`.
pub open spec fn payload_at(s: Seq<u8>, p: int) -> Seq<u8> {
    s.subrange(p + 25, block_end(s, p))
}

/// The whole header of a block at `p` lies in `s`.
pub open spec fn header_fits(s: Seq<u8>, p: int) -> bool {
    0 <= p && p + 25 <= s.len()
}

/// The block at `p` declares a size of at least its own header, and all of it
/// lies in `s`.
pub open spec fn block_fits(s: Seq<u8>, p: int) -> bool {
    header_fits(s, p) && compressed_size_at(s, p) >= 9 && block_end(s, p) <= s.len()
}

/// What checking the block at `p` gives: its compression method, or the first
/// failure among truncation, a checksum mismatch, an unknown tag and declared
/// sizes that cannot agree.
pub open spec fn block_method(s: Seq<u8>, p: int) -> Result<CompressMethod, ReadError> {
    if !block_fits(s, p) {
        Err(ReadError::TruncatedInput)
    } else if checksum_of(checked_bytes(s, p)) != stored_checksum_at(s, p) {
        Err(ReadError::ChecksumMismatch)
    } else {
        match method_of(tag_at(s, p)) {
            Some(m) => if sizes_agree(
                m,
                compressed_size_at(s, p) as int,
                decompressed_size_at(s, p) as int,
            ) {
                Ok(m)
            } else {
                Err(ReadError::DecompressionFailed)
            },
            None => Err(ReadError::UnsupportedCodec),
        }
    }
}

/// What reading at `p` gives: `None` at the end of the stream, else the
/// decompressed bytes of the block there and the offset just past it, or why
/// it could not be read.
pub open spec fn next_block(s: Seq<u8>, p: int) -> Result<Option<(Seq<u8>, int)>, ReadError> {
    if p == s.len() {
        Ok(None)
    } else {
        match block_method(s, p) {
            Err(e) => Err(e),
            Ok(m) => match decompressed(m, payload_at(s, p), decompressed_size_at(s, p) as int) {
                Ok(v) => Ok(Some((v, block_end(s, p)))),
                Err(e) => Err(e),
            },
        }
    }
}

/// A block header as it stands in the stream, before any check.
#[derive(Debug, Clone, Copy, PartialEq, Eq, Structural)]
pub struct BlockHeader {
    pub checksum: u128,
    pub method_tag: u8,
    pub compressed_size: u32,
    pub decompressed_size: u32,
}

/// A block header whose checksum matched and whose method is known.
#[derive(Debug, Clone, Copy, PartialEq, Eq, Structural)]
pub struct CompressionInfo {
    pub checksum: u128,
    pub compression_method: CompressMethod,
    pub size_compressed_without_checksum: u32,
    pub size_decompressed: u32,
}

/// Reads the 25-byte header of the block at the cursor, or fails with
/// `TruncatedInput` when fewer bytes remain.
pub fn parse_header(src: &mut ByteCursor) -> (r: Result<BlockHeader, ReadError>)
    requires
        old(src).wf(),
    ensures
        final(src).wf(),
        final(src).bytes() == old(src).bytes(),
        match r {
            Ok(h) => {
                let s = old(src).bytes();
                let p = old(src).pos();
                &&& header_fits(s, p)
                &&& h.checksum == stored_checksum_at(s, p)
                &&& h.method_tag == tag_at(s, p)
                &&& h.compressed_size == compressed_size_at(s, p)
                &&& h.decompressed_size == decompressed_size_at(s, p)
                &&& final(src).pos() == p + 25
            },
            Err(e) => e == ReadError::TruncatedInput && !header_fits(old(src).bytes(), old(src).pos()),
        },
{
    let ghost s = src.bytes();
    let ghost p = src.pos();
    if src.remaining() < CHECKSUM_SIZE + HEADER_SIZE {
        return Err(ReadError::TruncatedInput);
    }
    let low = src.read_uint_le(8)?;
    let high = src.read_uint_le(8)?;
    let method_tag = src.read_u8()?;
    let compressed = src.read_uint_le(4)?;
    let decompressed = src.read_uint_le(4)?;
    proof {
        lemma_le_value_bound(s.subrange(p + 17, p + 21));
        lemma_le_value_bound(s.subrange(p + 21, p + 25));
        reveal_with_fuel(byte_range, 5);
        assert(byte_range(4) == 0x1_0000_0000);
    }
    let checksum = u128::from_halfs(high, low);
    Ok(
        BlockHeader {
            checksum,
            method_tag,
            compressed_size: compressed as u32,
            decompressed_size: decompressed as u32,
        },
    )
}

/// What the checksum gate and the method lookup make of `header`, given the
/// checksum `computed` over the block's bytes.
pub open spec fn checked_info(header: BlockHeader, computed: u128) -> Result<CompressionInfo, ReadError> {
    if computed != header.checksum {
        Err(ReadError::ChecksumMismatch)
    } else {
        match method_of(header.method_tag) {
            Some(m) => Ok(
                CompressionInfo {
                    checksum: header.checksum,
                    compression_method: m,
                    size_compressed_without_checksum: header.compressed_size,
                    size_decompressed: header.decompressed_size,
                },
            ),
            None => Err(ReadError::UnsupportedCodec),
        }
    }
}

/// Compares the checksum `computed` over a block's bytes with the one stored
/// in its header, then looks up its compression method.
pub fn validate_checksum(header: &BlockHeader, computed: u128) -> (r: Result<CompressionInfo, ReadError>)
    ensures
        r == checked_info(*header, computed),
{
    if computed != header.checksum {
        return Err(ReadError::ChecksumMismatch);
    }
    let compression_method = CompressMethod::from_u8(header.method_tag)?;
    Ok(
        CompressionInfo {
            checksum: header.checksum,
            compression_method,
            size_compressed_without_checksum: header.compressed_size,
            size_decompressed: header.decompressed_size,
        },
    )
}

/// Reads the header of the block at the cursor and checks the block's
/// checksum, method and declared sizes, leaving the cursor at the start of its
/// payload; gives `None` when the cursor stands at the end of the stream.
pub fn read_header_and_get_codec_and_size(src: &mut ByteCursor) -> (r: Result<Option<CompressionInfo>, ReadError>)
    requires
        old(src).wf(),
    ensures
        final(src).wf(),
        final(src).bytes() == old(src).bytes(),
        match r {
            Ok(None) => old(src).pos() == old(src).bytes().len() && final(src).pos() == old(src).pos(),
            Ok(Some(info)) => {
                let s = old(src).bytes();
                let p = old(src).pos();
                &&& p < s.len()
                &&& block_method(s, p) == Ok::<CompressMethod, ReadError>(info.compression_method)
                &&& info.checksum == stored_checksum_at(s, p)
                &&& info.size_compressed_without_checksum == compressed_size_at(s, p)
                &&& info.size_decompressed == decompressed_size_at(s, p)
                &&& final(src).pos() == p + 25
            },
            Err(e) => old(src).pos() < old(src).bytes().len() && block_method(
                old(src).bytes(),
                old(src).pos(),
            ) == Err::<CompressMethod, ReadError>(e),
        },
{
    if src.is_at_end() {
        return Ok(None);
    }
    let p = src.position();
    let header = parse_header(src)?;
    if (header.compressed_size as usize) < HEADER_SIZE {
        // A block that declares fewer bytes than its own header is cut short.
        return Err(ReadError::TruncatedInput);
    }
    src.seek(p + CHECKSUM_SIZE);
    let body = src.read_exact(header.compressed_size as usize)?;
    let computed = city_hash_128(body.as_slice());
    let info = validate_checksum(&header, computed)?;
    if !check_sizes(info.compression_method, info.size_compressed_without_checksum, info.size_decompressed) {
        return Err(ReadError::DecompressionFailed);
    }
    src.seek(p + CHECKSUM_SIZE + HEADER_SIZE);
    Ok(Some(info))
}

/// Reads, checks and decompresses the block at the cursor, leaving the cursor
/// just past it; gives `None` when the cursor stands at the end of the stream,
/// where a stream ends normally.
pub fn read_next_block(src: &mut ByteCursor) -> (r: Result<Option<Vec<u8>>, ReadError>)
    requires
        old(src).wf(),
    ensures
        final(src).wf(),
        final(src).bytes() == old(src).bytes(),
        match r {
            Ok(None) => next_block(old(src).bytes(), old(src).pos()) == Ok::<
                Option<(Seq<u8>, int)>,
                ReadError,
            >(None) && final(src).pos() == old(src).pos(),
            Ok(Some(v)) => next_block(old(src).bytes(), old(src).pos()) == Ok::<
                Option<(Seq<u8>, int)>,
                ReadError,
            >(Some((v@, final(src).pos()))),
            Err(e) => next_block(old(src).bytes(), old(src).pos()) == Err::<
                Option<(Seq<u8>, int)>,
                ReadError,
            >(e),
        },
{
    let info = match read_header_and_get_codec_and_size(src)? {
        Some(info) => info,
        None => return Ok(None),
    };
    let payload = src.read_exact(info.size_compressed_without_checksum as usize - HEADER_SIZE)?;
    let block = decompress(info.compression_method, payload, info.size_decompressed)?;
    Ok(Some(block))
}

} // verus!
