use vstd::prelude::*;

use crate::error::ReadError;

verus! {

/// A block's compression method, named by a one-byte tag.
#[allow(non_camel_case_types)]
#[derive(Debug, Clone, Copy, PartialEq, Eq, Structural)]
pub enum CompressMethod {
    NONE,
    LZ4,
    ZSTD,
    Multiple,
    Delta,
    T64,
    DoubleDelta,
    Gorilla,
    AES_128_GCM_SIV,
    AES_256_GCM_SIV,
    FPC,
    DeflateQpl,
    GCD,
    ZSTD_QPL,
}

/// The tag that stands for `m` in a block header.
pub open spec fn tag_of(m: CompressMethod) -> u8 {
    match m {
        CompressMethod::NONE => 0x02,
        CompressMethod::LZ4 => 0x82,
        CompressMethod::ZSTD => 0x90,
        CompressMethod::Multiple => 0x91,
        CompressMethod::Delta => 0x92,
        CompressMethod::T64 => 0x93,
        CompressMethod::DoubleDelta => 0x94,
        CompressMethod::Gorilla => 0x95,
        CompressMethod::AES_128_GCM_SIV => 0x96,
        CompressMethod::AES_256_GCM_SIV => 0x97,
        CompressMethod::FPC => 0x98,
        CompressMethod::DeflateQpl => 0x99,
        CompressMethod::GCD => 0x9a,
        CompressMethod::ZSTD_QPL => 0x9b,
    }
}

/// The method that `tag` stands for, if any.
pub open spec fn method_of(tag: u8) -> Option<CompressMethod> {
    if exists|m: CompressMethod| tag_of(m) == tag {
        Some(choose|m: CompressMethod| tag_of(m) == tag)
    } else {
        None
    }
}

/// What the LZ4 block `b` decompresses to in an output of `cap` bytes, or
/// `None` when `b` is not a well-formed LZ4 block or its output does not fit.
pub uninterp spec fn lz4_block_of(b: Seq<u8>, cap: nat) -> Option<Seq<u8>>;

/// The longest LZ4 block handed to the decoder: its length fields sum their
/// continuation bytes into a `u32`, and this many bytes of at most 255 each
/// cannot overflow it.
pub const LZ4_MAX_INPUT: usize = 16_843_009;

/// Relies on `lz4_flex::block::decompress`: the bytes that the LZ4 block `b`
/// decompresses to in an output of `cap` bytes, or an error for a malformed
/// block; a function of its arguments alone. Its safe decoder checks the room
/// left in the output before each copy and returns `OutputTooSmall` rather
/// than write past it. Its length reader adds bytes into a `u32`, which
/// overflows only on inputs longer than `LZ4_MAX_INPUT`.
#[verifier::external_body]
fn lz4_decompress(b: &[u8], cap: usize) -> (r: Option<Vec<u8>>)
    requires
        b@.len() <= LZ4_MAX_INPUT,
    ensures
        match r {
            Some(v) => lz4_block_of(b@, cap as nat) == Some(v@),
            None => lz4_block_of(b@, cap as nat) is None,
        },
{
    match lz4_flex::block::decompress(b, cap) {
        Ok(v) => Some(v),
        Err(_) => None,
    }
}

/// A decoder's output, accepted only when it has exactly `size` bytes.
pub open spec fn sized_output(decoded: Option<Seq<u8>>, size: int) -> Result<Seq<u8>, ReadError> {
    match decoded {
        Some(v) => if v.len() == size {
            Ok(v)
        } else {
            Err(ReadError::DecompressionFailed)
        },
        None => Err(ReadError::DecompressionFailed),
    }
}

/// What decompressing `payload` with method `m` into `size` bytes gives. The
/// method without compression hands the payload back when its length is
/// `size`; LZ4 decodes a non-empty payload of at most `LZ4_MAX_INPUT` bytes
/// into exactly `size` bytes; the other methods have no decompressor here.
pub open spec fn decompressed(m: CompressMethod, payload: Seq<u8>, size: int) -> Result<
    Seq<u8>,
    ReadError,
> {
    match m {
        CompressMethod::NONE => if payload.len() == size {
            Ok(payload)
        } else {
            Err(ReadError::DecompressionFailed)
        },
        CompressMethod::LZ4 => if payload.len() == 0 || payload.len() > LZ4_MAX_INPUT {
            Err(ReadError::DecompressionFailed)
        } else {
            sized_output(lz4_block_of(payload, size as nat), size)
        },
        _ => Err(ReadError::DecompressionFailed),
    }
}

impl CompressMethod {
    /// The method named by `buffer`, or `UnsupportedCodec` for a tag outside
    /// the known set.
    pub fn from_u8(buffer: u8) -> (r: Result<CompressMethod, ReadError>)
        ensures
            r == (match method_of(buffer) {
                Some(m) => Ok(m),
                None => Err(ReadError::UnsupportedCodec),
            }),
    {
        let r = match buffer {
            0x02 => Ok(CompressMethod::NONE),
            0x82 => Ok(CompressMethod::LZ4),
            0x90 => Ok(CompressMethod::ZSTD),
            0x91 => Ok(CompressMethod::Multiple),
            0x92 => Ok(CompressMethod::Delta),
            0x93 => Ok(CompressMethod::T64),
            0x94 => Ok(CompressMethod::DoubleDelta),
            0x95 => Ok(CompressMethod::Gorilla),
            0x96 => Ok(CompressMethod::AES_128_GCM_SIV),
            0x97 => Ok(CompressMethod::AES_256_GCM_SIV),
            0x98 => Ok(CompressMethod::FPC),
            0x99 => Ok(CompressMethod::DeflateQpl),
            0x9a => Ok(CompressMethod::GCD),
            0x9b => Ok(CompressMethod::ZSTD_QPL),
            _ => Err(ReadError::UnsupportedCodec),
        };
        proof {
            match r {
                Ok(m) => {
                    assert(tag_of(m) == buffer);
                    let c = choose|c: CompressMethod| tag_of(c) == buffer;
                    assert(tag_of(c) == buffer);
                    assert(c == m);
                },
                Err(_) => {
                    assert forall|m: CompressMethod| tag_of(m) != buffer by {
                        match m {
                            _ => {},
                        }
                    }
                },
            }
        }
        r
    }

    /// The tag that stands for this method in a block header.
    pub fn tag(&self) -> (r: u8)
        ensures
            r == tag_of(*self),
    {
        match self {
            CompressMethod::NONE => 0x02,
            CompressMethod::LZ4 => 0x82,
            CompressMethod::ZSTD => 0x90,
            CompressMethod::Multiple => 0x91,
            CompressMethod::Delta => 0x92,
            CompressMethod::T64 => 0x93,
            CompressMethod::DoubleDelta => 0x94,
            CompressMethod::Gorilla => 0x95,
            CompressMethod::AES_128_GCM_SIV => 0x96,
            CompressMethod::AES_256_GCM_SIV => 0x97,
            CompressMethod::FPC => 0x98,
            CompressMethod::DeflateQpl => 0x99,
            CompressMethod::GCD => 0x9a,
            CompressMethod::ZSTD_QPL => 0x9b,
        }
    }
}

/// Decompresses `payload` with method `m` into `size` bytes, or fails with
/// `DecompressionFailed`.
pub fn decompress(m: CompressMethod, payload: Vec<u8>, size: u32) -> (r: Result<Vec<u8>, ReadError>)
    ensures
        match r {
            Ok(v) => decompressed(m, payload@, size as int) == Ok::<Seq<u8>, ReadError>(v@),
            Err(e) => decompressed(m, payload@, size as int) == Err::<Seq<u8>, ReadError>(e),
        },
{
    match m {
        CompressMethod::NONE => {
            if payload.len() == size as usize {
                Ok(payload)
            } else {
                Err(ReadError::DecompressionFailed)
            }
        },
        CompressMethod::LZ4 => {
            if payload.len() == 0 || payload.len() > LZ4_MAX_INPUT {
                return Err(ReadError::DecompressionFailed);
            }
            let decoded = lz4_decompress(payload.as_slice(), size as usize);
            check_decoded_size(decoded, size)
        },
        _ => Err(ReadError::DecompressionFailed),
    }
}

/// The bytes of a decoder's output, if it gave any.
pub open spec fn view_of(decoded: Option<Vec<u8>>) -> Option<Seq<u8>> {
    match decoded {
        Some(v) => Some(v@),
        None => None,
    }
}

/// Accepts a decoder's output only when it has exactly `size` bytes.
pub fn check_decoded_size(decoded: Option<Vec<u8>>, size: u32) -> (r: Result<Vec<u8>, ReadError>)
    ensures
        match r {
            Ok(v) => sized_output(view_of(decoded), size as int) == Ok::<Seq<u8>, ReadError>(v@),
            Err(e) => sized_output(view_of(decoded), size as int) == Err::<Seq<u8>, ReadError>(e),
        },
{
    match decoded {
        Some(v) => {
            if v.len() == size as usize {
                Ok(v)
            } else {
                Err(ReadError::DecompressionFailed)
            }
        },
        None => Err(ReadError::DecompressionFailed),
    }
}

/// Whether the declared sizes of a block with method `m` agree before any
/// decompression: without compression the payload is the decompressed data
/// itself; every other method needs a non-empty payload.
pub open spec fn sizes_agree(m: CompressMethod, compressed: int, decompressed: int) -> bool {
    if m == CompressMethod::NONE {
        decompressed == compressed - 9
    } else {
        compressed > 9
    }
}

/// Checks the declared sizes of a block with method `m`, whose size after the
/// checksum is `compressed` (at least nine), against each other.
pub fn check_sizes(m: CompressMethod, compressed: u32, decompressed: u32) -> (r: bool)
    requires
        compressed >= 9,
    ensures
        r == sizes_agree(m, compressed as int, decompressed as int),
{
    match m {
        CompressMethod::NONE => decompressed == compressed - 9,
        _ => compressed > 9,
    }
}

} // verus!
