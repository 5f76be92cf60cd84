use vstd::prelude::*;

use crate::block::{
    block_end, block_fits, block_method, byte_range, checked_bytes, compressed_size_at, decompressed_size_at,
    header_fits, next_block, payload_at, stored_checksum_at, tag_at,
};
use crate::bytes::le_value;
use crate::cityhash::{checksum_of, cityhash_102_of, swap_halves};
use crate::codec::{method_of, tag_of, CompressMethod};
use crate::error::ReadError;
use crate::u128_low_high::half_base;

verus! {

/// The method tag names exactly one method.
pub proof fn lemma_method_of_tag(m: CompressMethod)
    ensures
        method_of(tag_of(m)) == Some(m),
{
    let c = choose|c: CompressMethod| tag_of(c) == tag_of(m);
    assert(tag_of(c) == tag_of(m));
}

/// A block cut short anywhere after its first byte and before its declared
/// end reads as `TruncatedInput`. (Cut before its first byte, the stream
/// simply ends there.)
pub proof fn lemma_truncated_block(s: Seq<u8>, p: int, t: int)
    requires
        header_fits(s, p),
        p < t < block_end(s, p),
        t <= s.len(),
    ensures
        next_block(s.subrange(0, t), p) == Err::<Option<(Seq<u8>, int)>, ReadError>(ReadError::TruncatedInput),
{
    let u = s.subrange(0, t);
    if header_fits(u, p) {
        assert(u.subrange(p + 17, p + 21) =~= s.subrange(p + 17, p + 21));
        assert(compressed_size_at(u, p) == compressed_size_at(s, p));
    }
}

/// Flipping one bit of a well-formed block's payload makes reading it fail
/// with `ChecksumMismatch`, for every flip that changes the checksum of the
/// covered bytes.
pub proof fn lemma_flipped_bit_mismatch(s: Seq<u8>, p: int, i: int, bit: u8)
    requires
        block_fits(s, p),
        checksum_of(checked_bytes(s, p)) == stored_checksum_at(s, p),
        p + 25 <= i < block_end(s, p),
        bit < 8,
        checksum_of(checked_bytes(s.update(i, s[i] ^ (1u8 << bit)), p)) != checksum_of(
            checked_bytes(s, p),
        ),
    ensures
        block_method(s.update(i, s[i] ^ (1u8 << bit)), p) == Err::<CompressMethod, ReadError>(
            ReadError::ChecksumMismatch,
        ),
        next_block(s.update(i, s[i] ^ (1u8 << bit)), p) == Err::<Option<(Seq<u8>, int)>, ReadError>(
            ReadError::ChecksumMismatch,
        ),
{
    let u = s.update(i, s[i] ^ (1u8 << bit));
    assert(u.subrange(p, p + 8) =~= s.subrange(p, p + 8));
    assert(u.subrange(p + 8, p + 16) =~= s.subrange(p + 8, p + 16));
    assert(u.subrange(p + 17, p + 21) =~= s.subrange(p + 17, p + 21));
    assert(stored_checksum_at(u, p) == stored_checksum_at(s, p));
    assert(compressed_size_at(u, p) == compressed_size_at(s, p));
}

/// A block with a matching checksum whose tag names no method reads as
/// `UnsupportedCodec`.
pub proof fn lemma_unknown_tag(s: Seq<u8>, p: int)
    requires
        block_fits(s, p),
        checksum_of(checked_bytes(s, p)) == stored_checksum_at(s, p),
        forall|m: CompressMethod| tag_of(m) != tag_at(s, p),
    ensures
        block_method(s, p) == Err::<CompressMethod, ReadError>(ReadError::UnsupportedCodec),
        next_block(s, p) == Err::<Option<(Seq<u8>, int)>, ReadError>(ReadError::UnsupportedCodec),
{
}

/// The tag zero names no method.
pub proof fn lemma_tag_zero_unknown()
    ensures
        method_of(0) is None,
{
    assert forall|m: CompressMethod| tag_of(m) != 0 by {
        match m {
            _ => {},
        }
    }
}

/// A block without compression whose decompressed size is not its compressed
/// size less the nine header bytes fails with `DecompressionFailed` as soon as
/// its header is checked, even with a matching checksum.
pub proof fn lemma_uncompressed_size_mismatch(s: Seq<u8>, p: int)
    requires
        block_fits(s, p),
        checksum_of(checked_bytes(s, p)) == stored_checksum_at(s, p),
        tag_at(s, p) == 0x02,
        decompressed_size_at(s, p) != compressed_size_at(s, p) - 9,
    ensures
        block_method(s, p) == Err::<CompressMethod, ReadError>(ReadError::DecompressionFailed),
        next_block(s, p) == Err::<Option<(Seq<u8>, int)>, ReadError>(ReadError::DecompressionFailed),
{
    lemma_method_of_tag(CompressMethod::NONE);
}

/// A block with an empty payload and a method that compresses fails with
/// `DecompressionFailed` as soon as its header is checked.
pub proof fn lemma_empty_compressed_payload(s: Seq<u8>, p: int, m: CompressMethod)
    requires
        block_fits(s, p),
        checksum_of(checked_bytes(s, p)) == stored_checksum_at(s, p),
        tag_at(s, p) == tag_of(m),
        m != CompressMethod::NONE,
        compressed_size_at(s, p) == 9,
    ensures
        block_method(s, p) == Err::<CompressMethod, ReadError>(ReadError::DecompressionFailed),
        next_block(s, p) == Err::<Option<(Seq<u8>, int)>, ReadError>(ReadError::DecompressionFailed),
{
    lemma_method_of_tag(m);
}

/// The lowest `n` bytes of `x`, least significant first.
pub open spec fn le_bytes(x: nat, n: nat) -> Seq<u8>
    decreases n,
{
    if n == 0 {
        Seq::empty()
    } else {
        seq![(x % 256) as u8] + le_bytes(x / 256, (n - 1) as nat)
    }
}

/// Reading back the `n` little-endian bytes of an integer below 256^n gives
/// the integer.
pub proof fn lemma_le_bytes(x: nat, n: nat)
    requires
        x < byte_range(n),
    ensures
        le_bytes(x, n).len() == n,
        le_value(le_bytes(x, n)) == x,
    decreases n,
{
    if n > 0 {
        let r = byte_range((n - 1) as nat);
        assert(x / 256 < r) by (nonlinear_arith)
            requires
                x < 256 * r,
        ;
        lemma_le_bytes(x / 256, (n - 1) as nat);
        let t = le_bytes(x, n);
        assert(t.drop_first() =~= le_bytes(x / 256, (n - 1) as nat));
        assert(x == x % 256 + 256 * (x / 256)) by (nonlinear_arith);
    }
}

/// The block checksum is a 128-bit value.
pub proof fn lemma_checksum_range(b: Seq<u8>)
    ensures
        0 <= checksum_of(b) < half_base() * half_base(),
{
    let h = cityhash_102_of(b) as int;
    let base = half_base();
    assert(0 <= swap_halves(cityhash_102_of(b)) < base * base) by (nonlinear_arith)
        requires
            swap_halves(cityhash_102_of(b)) == (h % base) * base + h / base,
            0 <= h < base * base,
            base > 0,
    ;
}

/// The bytes after the checksum of a block without compression that holds
/// `b`: the method tag, the two sizes and `b` itself.
pub open spec fn uncompressed_body(b: Seq<u8>) -> Seq<u8> {
    seq![0x02u8] + le_bytes((b.len() + 9) as nat, 4) + le_bytes(b.len(), 4) + b
}

/// A whole block without compression that holds `b`, led by its checksum.
pub open spec fn uncompressed_block(b: Seq<u8>) -> Seq<u8> {
    let c = checksum_of(uncompressed_body(b));
    le_bytes((c % half_base()) as nat, 8) + le_bytes((c / half_base()) as nat, 8) + uncompressed_body(b)
}

/// Reading a block without compression that holds `b`, wherever it stands in
/// a stream, gives back `b` and moves just past the block.
pub proof fn lemma_uncompressed_round_trip(pre: Seq<u8>, b: Seq<u8>, rest: Seq<u8>)
    requires
        b.len() + 9 < 0x1_0000_0000,
    ensures
        block_method(pre + uncompressed_block(b) + rest, pre.len() as int) == Ok::<
            CompressMethod,
            ReadError,
        >(CompressMethod::NONE),
        next_block(pre + uncompressed_block(b) + rest, pre.len() as int) == Ok::<
            Option<(Seq<u8>, int)>,
            ReadError,
        >(Some((b, pre.len() + uncompressed_block(b).len() as int))),
{
    let n = b.len();
    let body = uncompressed_body(b);
    let c = checksum_of(body);
    let base = half_base();
    let lo = (c % base) as nat;
    let hi = (c / base) as nat;
    let blk = uncompressed_block(b);
    let s = pre + blk + rest;
    let p = pre.len() as int;
    reveal_with_fuel(byte_range, 9);
    assert(byte_range(4) == 0x1_0000_0000);
    assert(byte_range(8) == base);
    lemma_checksum_range(body);
    assert(lo < base && hi < base && c == hi * base + lo) by (nonlinear_arith)
        requires
            0 <= c < base * base,
            base > 0,
            lo == c % base,
            hi == c / base,
    ;
    lemma_le_bytes(lo, 8);
    lemma_le_bytes(hi, 8);
    lemma_le_bytes((n + 9) as nat, 4);
    lemma_le_bytes(n, 4);
    assert(body.len() == n + 9);
    assert(blk.len() == n + 25);
    assert(s.subrange(p, p + 8) =~= le_bytes(lo, 8));
    assert(s.subrange(p + 8, p + 16) =~= le_bytes(hi, 8));
    assert(s.subrange(p + 17, p + 21) =~= le_bytes((n + 9) as nat, 4));
    assert(s.subrange(p + 21, p + 25) =~= le_bytes(n, 4));
    assert(tag_at(s, p) == 0x02);
    assert(stored_checksum_at(s, p) == c);
    assert(compressed_size_at(s, p) == n + 9);
    assert(decompressed_size_at(s, p) == n);
    assert(checked_bytes(s, p) =~= body);
    assert(payload_at(s, p) =~= b);
    lemma_method_of_tag(CompressMethod::NONE);
}

} // verus!
