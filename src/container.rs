use vstd::bytes::{
    lemma_auto_spec_u32_to_from_le_bytes, spec_u32_from_le_bytes, spec_u32_to_le_bytes,
    u32_from_le_bytes, u32_to_le_bytes,
};
use vstd::prelude::*;
use vstd::slice::slice_subrange;

verus! {

/// Width of the length prefix of an in-memory container.
pub const SIZE_PREFIX_LEN: usize = 4;

/// The length of a run of `0xFF` bytes from which a payload is refused:
/// `u32::MAX` is this many times 255, so a length field made of such a run
/// overflows the block decoder's `u32` sum.
pub const FF_RUN_LIMIT: usize = 16_843_009;

/// Why an in-memory container could not be made or read.
#[derive(Debug, Clone, Copy, PartialEq, Eq, Structural)]
pub enum ContainerError {
    /// The archive is longer than the `u32` length prefix can record.
    TooLarge,
    /// The container is shorter than its length prefix.
    Truncated,
    /// The compressed payload is not a valid LZ4 block for the declared length,
    /// or holds a run of `0xFF` bytes that the block decoder cannot sum.
    Corrupt,
    /// The target's `usize` is narrower than 64 bits, which the block decoder
    /// needs to keep its index sums in range.
    NarrowTarget,
    /// The payload decoded to another number of bytes than the prefix declares.
    LengthMismatch,
}

/// `lz4_flex::block::DecompressError`, the block decoder's error, carried
/// through unopened.
#[verifier::external_type_specification]
#[verifier::external_body]
pub struct ExDecompressError(lz4_flex::block::DecompressError);

/// The LZ4 block that `lz4_flex::block::compress` makes of `data`.
pub uninterp spec fn lz4_block_of(data: Seq<u8>) -> Seq<u8>;

/// The in-memory container of the archive `archive`: its length as a
/// little-endian `u32`, then the LZ4 block of its bytes.
pub open spec fn memory_container(archive: Seq<u8>) -> Seq<u8>
    recommends
        archive.len() <= u32::MAX,
{
    spec_u32_to_le_bytes(archive.len() as u32) + lz4_block_of(archive)
}

/// The length that a container's prefix declares.
pub open spec fn declared_size(container: Seq<u8>) -> nat
    recommends
        container.len() >= SIZE_PREFIX_LEN,
{
    spec_u32_from_le_bytes(container.subrange(0, SIZE_PREFIX_LEN as int)) as nat
}

/// The compressed bytes that follow a container's prefix.
pub open spec fn payload(container: Seq<u8>) -> Seq<u8>
    recommends
        container.len() >= SIZE_PREFIX_LEN,
{
    container.subrange(SIZE_PREFIX_LEN as int, container.len() as int)
}

/// The length of the run of `0xFF` bytes that ends just before index `end`.
pub open spec fn ff_run_ending(s: Seq<u8>, end: int) -> nat
    decreases end,
{
    if end <= 0 || end > s.len() {
        0
    } else if s[end - 1] == 0xFF {
        1 + ff_run_ending(s, end - 1)
    } else {
        0
    }
}

/// `s` holds `FF_RUN_LIMIT` bytes `0xFF` in a row.
pub open spec fn has_long_ff_run(s: Seq<u8>) -> bool {
    exists|end: int| 0 <= end <= s.len() && #[trigger] ff_run_ending(s, end) >= FF_RUN_LIMIT
}

/// What decoding settles to, given the declared length and the block
/// decoder's outcome.
pub open spec fn settled(declared: nat, decoded: Option<Seq<u8>>) -> Result<Seq<u8>, ContainerError> {
    match decoded {
        None => Err(ContainerError::Corrupt),
        Some(data) => if data.len() == declared {
            Ok(data)
        } else {
            Err(ContainerError::LengthMismatch)
        },
    }
}

/// The tar stream that an in-memory container decodes to, or why it does not.
pub open spec fn decoded_container(container: Seq<u8>) -> Result<Seq<u8>, ContainerError> {
    if container.len() < SIZE_PREFIX_LEN {
        Err(ContainerError::Truncated)
    } else if usize::MAX != u64::MAX {
        Err(ContainerError::NarrowTarget)
    } else if has_long_ff_run(payload(container)) {
        Err(ContainerError::Corrupt)
    } else {
        settled(
            declared_size(container),
            lz4_decoded_of(payload(container), declared_size(container)),
        )
    }
}

/// A decoding result as bytes.
pub open spec fn result_view(r: Result<Vec<u8>, ContainerError>) -> Result<Seq<u8>, ContainerError> {
    match r {
        Ok(v) => Ok(v@),
        Err(e) => Err(e),
    }
}

/// `container` is a well-formed encoding of `archive`: its prefix declares
/// the archive's length and its payload is the LZ4 block of the archive.
pub open spec fn encodes(container: Seq<u8>, archive: Seq<u8>) -> bool {
    &&& container.len() >= SIZE_PREFIX_LEN
    &&& declared_size(container) == archive.len()
    &&& payload(container) == lz4_block_of(archive)
}

/// Relies on `lz4_flex::block::compress`: the LZ4 block of all of `data`,
/// which depends on the bytes alone and always holds at least the token of
/// its last sequence.
#[verifier::external_body]
fn lz4_compress_block(data: &[u8]) -> (r: Vec<u8>)
    ensures
        r@ == lz4_block_of(data@),
        r@.len() >= 1,
{
    lz4_flex::block::compress(data)
}

/// The outcome of `lz4_flex::block::decompress` on `block` with an output
/// buffer of `capacity` bytes: the decoded bytes, or `None` for an error.
pub uninterp spec fn lz4_decoded_of(block: Seq<u8>, capacity: nat) -> Option<Seq<u8>>;

/// Relies on `lz4_flex::block::decompress`. It fills a buffer of `capacity`
/// bytes and truncates it to what was written, so its result depends on its
/// arguments alone and is never longer than `capacity`; and it inverts
/// `lz4_flex::block::compress` when `capacity` is the uncompressed length.
/// The decoder sums the bytes of each length field into a `u32` without an
/// overflow check, which panics in a build with overflow checks once a run of
/// `0xFF` bytes is long enough; a block without a long run of `0xFF` keeps
/// every such sum in range, and a 64-bit `usize` keeps every other index sum
/// and the buffer of `capacity` bytes in range.
#[verifier::external_body]
fn lz4_decompress_block(block: &[u8], capacity: u32) -> (r: Result<
    Vec<u8>,
    lz4_flex::block::DecompressError,
>)
    requires
        !has_long_ff_run(block@),
        usize::MAX == u64::MAX,
    ensures
        match lz4_decoded_of(block@, capacity as nat) {
            Some(data) => r is Ok && r->Ok_0@ == data,
            None => r is Err,
        },
        r is Ok ==> r->Ok_0@.len() <= capacity,
        forall|data: Seq<u8>|
            #![trigger lz4_block_of(data)]
            lz4_block_of(data) == block@ && data.len() == capacity ==> r is Ok && r->Ok_0@
                == data,
{
    lz4_flex::block::decompress(block, capacity as usize)
}

/// Packs a tar stream into an in-memory container: the stream's length as a
/// little-endian `u32`, then its LZ4 block. A stream too long for the prefix
/// is refused.
pub fn encode_memory_container(archive: &[u8]) -> (r: Result<Vec<u8>, ContainerError>)
    ensures
        archive@.len() > u32::MAX <==> r == Err::<Vec<u8>, ContainerError>(
            ContainerError::TooLarge,
        ),
        archive@.len() <= u32::MAX ==> r is Ok && r->Ok_0@ == memory_container(archive@),
        r is Ok ==> r->Ok_0@.len() > SIZE_PREFIX_LEN,
{
    if archive.len() > 0xffff_ffffusize {
        return Err(ContainerError::TooLarge);
    }
    let mut out = u32_to_le_bytes(archive.len() as u32);
    let block = lz4_compress_block(archive);
    out.extend_from_slice(block.as_slice());
    assert(out@ =~= memory_container(archive@));
    Ok(out)
}

/// Settles what the block decoder returned for a container whose prefix
/// declares `declared` bytes: the decoded bytes when there are exactly that
/// many, `LengthMismatch` when there are not, `Corrupt` when decoding failed.
pub fn settle_decoded(declared: u32, decoded: Option<Vec<u8>>) -> (r: Result<Vec<u8>, ContainerError>)
    ensures
        match decoded {
            None => r == Err::<Vec<u8>, ContainerError>(ContainerError::Corrupt),
            Some(v) => if v@.len() == declared as nat {
                r == Ok::<Vec<u8>, ContainerError>(v)
            } else {
                r == Err::<Vec<u8>, ContainerError>(ContainerError::LengthMismatch)
            },
        },
{
    match decoded {
        None => Err(ContainerError::Corrupt),
        Some(v) => if v.len() == declared as usize {
            Ok(v)
        } else {
            Err(ContainerError::LengthMismatch)
        },
    }
}

/// Whether `block` holds `FF_RUN_LIMIT` bytes `0xFF` in a row.
pub fn find_long_ff_run(block: &[u8]) -> (r: bool)
    ensures
        r == has_long_ff_run(block@),
{
    let mut run: usize = 0;
    let mut i: usize = 0;
    while i < block.len()
        invariant
            i <= block@.len(),
            run == ff_run_ending(block@, i as int),
            forall|end: int| 0 <= end <= i ==> #[trigger] ff_run_ending(block@, end) < FF_RUN_LIMIT,
        decreases block@.len() - i,
    {
        if block[i] == 0xFF {
            run = run + 1;
        } else {
            run = 0;
        }
        i = i + 1;
        if run >= FF_RUN_LIMIT {
            assert(ff_run_ending(block@, i as int) >= FF_RUN_LIMIT);
            return true;
        }
    }
    false
}

/// Unpacks an in-memory container into the tar stream it holds. The result
/// is exactly as long as the prefix declares. A container shorter than the
/// prefix is `Truncated`. A payload that the block decoder rejects, or that
/// holds `FF_RUN_LIMIT` bytes `0xFF` in a row (on which the decoder's length
/// sums would overflow), is `Corrupt`. On a target whose `usize` is narrower
/// than 64 bits every container long enough to hold a prefix is `NarrowTarget`.
pub fn decode_memory_container(container: &[u8]) -> (r: Result<Vec<u8>, ContainerError>)
    ensures
        result_view(r) == decoded_container(container@),
        container@.len() < SIZE_PREFIX_LEN <==> r == Err::<Vec<u8>, ContainerError>(
            ContainerError::Truncated,
        ),
        r is Ok ==> r->Ok_0@.len() == declared_size(container@),
        forall|archive: Seq<u8>|
            #![trigger encodes(container@, archive)]
            encodes(container@, archive) && !has_long_ff_run(payload(container@)) && usize::MAX
                == u64::MAX ==> r is Ok
                && r->Ok_0@ == archive,
{
    if container.len() < SIZE_PREFIX_LEN {
        return Err(ContainerError::Truncated);
    }
    let declared = u32_from_le_bytes(slice_subrange(container, 0, SIZE_PREFIX_LEN));
    let block = slice_subrange(container, SIZE_PREFIX_LEN, container.len());
    if (usize::MAX as u64) != u64::MAX {
        return Err(ContainerError::NarrowTarget);
    }
    if find_long_ff_run(block) {
        return Err(ContainerError::Corrupt);
    }
    let decoded = match lz4_decompress_block(block, declared) {
        Ok(v) => Some(v),
        Err(_) => None,
    };
    settle_decoded(declared, decoded)
}

/// Round trip: the container that `encode_memory_container` makes of an
/// archive is a well-formed encoding of that archive, so
/// `decode_memory_container` gives the archive back, byte for byte, unless
/// the payload holds `FF_RUN_LIMIT` bytes `0xFF` in a row or the target is
/// narrower than 64 bits.
pub proof fn lemma_memory_round_trip(archive: Seq<u8>)
    requires
        archive.len() <= u32::MAX,
    ensures
        encodes(memory_container(archive), archive),
{
    lemma_auto_spec_u32_to_from_le_bytes();
    let c = memory_container(archive);
    let prefix = spec_u32_to_le_bytes(archive.len() as u32);
    assert(c.subrange(0, SIZE_PREFIX_LEN as int) =~= prefix);
    assert(payload(c) =~= lz4_block_of(archive));
}

/// A damaged length prefix is caught: changing any byte of the prefix of an
/// archive's container makes it declare another length, so decoding it can
/// never give back the archive it was made from.
pub proof fn lemma_prefix_damage_detected(archive: Seq<u8>, i: int, b: u8)
    requires
        archive.len() <= u32::MAX,
        0 <= i < SIZE_PREFIX_LEN,
        b != memory_container(archive)[i],
    ensures
        declared_size(memory_container(archive).update(i, b)) != archive.len(),
        !encodes(memory_container(archive).update(i, b), archive),
{
    lemma_auto_spec_u32_to_from_le_bytes();
    let c = memory_container(archive);
    let d = c.update(i, b);
    let prefix = spec_u32_to_le_bytes(archive.len() as u32);
    let damaged = d.subrange(0, SIZE_PREFIX_LEN as int);
    assert(c.subrange(0, SIZE_PREFIX_LEN as int) =~= prefix);
    if declared_size(d) == archive.len() {
        assert(spec_u32_from_le_bytes(damaged) == archive.len() as u32);
        assert(spec_u32_to_le_bytes(spec_u32_from_le_bytes(damaged)) == damaged);
        assert(damaged[i] == b);
        assert(prefix[i] == c[i]);
    }
}

} // verus!
