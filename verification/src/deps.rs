//! The calls this library makes into other crates, each with the contract
//! that the library relies on.

use vstd::prelude::*;

verus! {

/// The Morton (Z-order) code of two 8-bit coordinates: the bits of `x` go to
/// the odd bit positions and the bits of `y` to the even ones.
pub open spec fn morton2(x: nat, y: nat) -> nat
    decreases x + y,
{
    if x == 0 && y == 0 {
        0
    } else {
        4 * morton2(x / 2, y / 2) + 2 * (x % 2) + (y % 2)
    }
}

/// `morton_encoding::morton_encode_array` on `[x, y]` with a `usize` key:
/// interleaves the bits of the two coordinates (`x` in the odd positions).
#[verifier::external_body]
pub(crate) fn morton_encode_xy(x: u8, y: u8) -> (r: usize)
    ensures
        r == morton2(x as nat, y as nat),
{
    morton_encoding::morton_encode_array::<u8, usize, 2>([x, y])
}

/// `morton_encoding::morton_decode_array` into two `u8` coordinates with a
/// `usize` key: splits the odd and even bits back into `x` and `y`. For keys
/// of 16 bits or fewer this undoes the encoding; what it gives for larger
/// keys is not stated here.
#[verifier::external_body]
pub(crate) fn morton_decode_xy(i: usize) -> (r: (u8, u8))
    ensures
        i < 0x10000 ==> morton2(r.0 as nat, r.1 as nat) == i,
{
    let [x, y]: [u8; 2] = morton_encoding::morton_decode_array::<u8, usize, 2>(i);
    (x, y)
}

/// What `seahash::hash` computes for a byte sequence.
pub uninterp spec fn seahash_of(data: Seq<u8>) -> u64;

/// `seahash::hash`: the SeaHash checksum of the bytes. The value is named,
/// not spelled out: it depends on the bytes alone.
#[verifier::external_body]
pub(crate) fn seahash(data: &[u8]) -> (r: u64)
    ensures
        r == seahash_of(data@),
{
    seahash::hash(data)
}

/// The length of a run of `0xFF` bytes at which `lz4_flex`'s block decoder
/// overflows the 32-bit counter of a literal or match length.
pub const LZ4_FF_RUN_LIMIT: usize = 16843008;

/// The `n` bytes of `s` from `i` on are all `0xFF`.
pub open spec fn ff_run_at(s: Seq<u8>, i: int, n: int) -> bool {
    forall|j: int| i <= j < i + n ==> #[trigger] s[j] == 0xFFu8
}

/// `s` holds `n` consecutive `0xFF` bytes somewhere.
pub open spec fn has_ff_run(s: Seq<u8>, n: int) -> bool {
    exists|i: int| 0 <= i && i + n <= s.len() && #[trigger] ff_run_at(s, i, n)
}

/// The bytes that an LZ4 block decodes to, or `None` where the block is malformed.
pub uninterp spec fn lz4_block_decoded(input: Seq<u8>) -> Option<Seq<u8>>;

/// The error type of `lz4_flex` block decompression.
#[verifier::external_type_specification]
#[verifier::external_body]
pub struct ExDecompressError(lz4_flex::block::DecompressError);

/// `lz4_flex::block::decompress_into`: decodes the block into the front of
/// `output`, which keeps its length, and returns the decoded length. On
/// success that front is what the block decodes to; a well-formed block
/// whose decoded bytes fit in `output` is decoded. When it fails, the reason
/// (malformed block or too small a buffer) and what was written are not
/// stated. A length in the block is the sum of a run of bytes, counted in a
/// `u32` (`read_integer`), which can overflow once a run of `0xFF` bytes
/// reaches `LZ4_FF_RUN_LIMIT`: such input is not accepted.
#[verifier::external_body]
pub(crate) fn lz4_decompress_into(input: &[u8], output: &mut Vec<u8>) -> (r: Result<usize, lz4_flex::block::DecompressError>)
    requires
        !has_ff_run(input@, LZ4_FF_RUN_LIMIT as int),
    ensures
        final(output).len() == old(output).len(),
        r matches Ok(n) ==> n <= final(output).len()
            && lz4_block_decoded(input@) == Some(final(output)@.subrange(0, n as int)),
        lz4_block_decoded(input@) matches Some(d) && d.len() <= old(output).len() ==> r is Ok,
{
    lz4_flex::block::decompress_into(input, output.as_mut_slice())
}

} // verus!
