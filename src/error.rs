use vstd::prelude::*;

verus! {

/// Why a block or a value could not be read.
#[derive(Debug, Clone, Copy, PartialEq, Eq, Structural)]
pub enum ReadError {
    /// Fewer bytes are available than the declared layout requires.
    TruncatedInput,
    /// The stored checksum differs from the one computed over the block.
    ChecksumMismatch,
    /// The compression method tag is not one of the known tags.
    UnsupportedCodec,
    /// The payload passed its checksum but could not be decompressed.
    DecompressionFailed,
    /// The bytes do not encode a value of the requested type.
    InvalidEncoding,
}

} // verus!
