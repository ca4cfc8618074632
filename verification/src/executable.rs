//! The trailer that marks an executable carrying an embedded archive, and the
//! checks made before the archive is unpacked.

use vstd::prelude::*;
use crate::server_config::{ServerCacheMode, ServerRunConfig};
use crate::size_format::{bytes_to_readable_size, readable_size};
use crate::text::{cat3, same_result};

verus! {

/// The eight bytes `CASKXV2Z` that end a packed executable.
pub open spec fn magic_number() -> Seq<u8> {
    seq![0x43u8, 0x41u8, 0x53u8, 0x4Bu8, 0x58u8, 0x56u8, 0x32u8, 0x5Au8]
}

/// The eight bytes of `n`, least significant first, as `u64::to_le_bytes` gives them.
pub open spec fn le_bytes(n: u64) -> Seq<u8> {
    seq![
        (n & 0xff) as u8,
        ((n >> 8u64) & 0xff) as u8,
        ((n >> 16u64) & 0xff) as u8,
        ((n >> 24u64) & 0xff) as u8,
        ((n >> 32u64) & 0xff) as u8,
        ((n >> 40u64) & 0xff) as u8,
        ((n >> 48u64) & 0xff) as u8,
        ((n >> 56u64) & 0xff) as u8,
    ]
}

/// The number whose little-endian bytes are `b[0..8]`, as `u64::from_le_bytes` reads them.
pub open spec fn le_value(b: Seq<u8>) -> u64 {
    (b[0] as u64) | ((b[1] as u64) << 8u64) | ((b[2] as u64) << 16u64) | ((b[3] as u64) << 24u64)
        | ((b[4] as u64) << 32u64) | ((b[5] as u64) << 40u64) | ((b[6] as u64) << 48u64)
        | ((b[7] as u64) << 56u64)
}

/// The trailer for an embedded archive of `size` bytes: the size, then the magic number.
pub open spec fn tail_of(size: u64) -> Seq<u8> {
    le_bytes(size) + magic_number()
}

/// What the last sixteen bytes `tail` of an executable say: the size of the
/// embedded archive, when they end with the magic number.
pub open spec fn read_tail_spec(tail: Seq<u8>) -> Option<u64> {
    if tail.subrange(8, 16) == magic_number() {
        Some(le_value(tail))
    } else {
        None
    }
}

/// The trailer to append after an archive of `size` bytes.
pub fn encode_tail(size: u64) -> (r: Vec<u8>)
    ensures
        r@ == tail_of(size),
{
    let mut out: Vec<u8> = Vec::new();
    out.push((size & 0xff) as u8);
    out.push(((size >> 8u64) & 0xff) as u8);
    out.push(((size >> 16u64) & 0xff) as u8);
    out.push(((size >> 24u64) & 0xff) as u8);
    out.push(((size >> 32u64) & 0xff) as u8);
    out.push(((size >> 40u64) & 0xff) as u8);
    out.push(((size >> 48u64) & 0xff) as u8);
    out.push(((size >> 56u64) & 0xff) as u8);
    out.push(0x43u8);
    out.push(0x41u8);
    out.push(0x53u8);
    out.push(0x4Bu8);
    out.push(0x58u8);
    out.push(0x56u8);
    out.push(0x32u8);
    out.push(0x5Au8);
    assert(out@ =~= tail_of(size));
    out
}

/// Reads the last sixteen bytes of an executable: the archive size when the
/// magic number is there, `None` when it is not.
pub fn read_tail(tail: &[u8]) -> (r: Option<u64>)
    requires
        tail@.len() == 16,
    ensures
        r == read_tail_spec(tail@),
{
    let magic_ok = tail[8] == 0x43u8 && tail[9] == 0x41u8 && tail[10] == 0x53u8 && tail[11] == 0x4Bu8
        && tail[12] == 0x58u8 && tail[13] == 0x56u8 && tail[14] == 0x32u8 && tail[15] == 0x5Au8;
    proof {
        if tail@.subrange(8, 16) == magic_number() {
            assert(tail@.subrange(8, 16)[0] == tail@[8]);
            assert(tail@.subrange(8, 16)[1] == tail@[9]);
            assert(tail@.subrange(8, 16)[2] == tail@[10]);
            assert(tail@.subrange(8, 16)[3] == tail@[11]);
            assert(tail@.subrange(8, 16)[4] == tail@[12]);
            assert(tail@.subrange(8, 16)[5] == tail@[13]);
            assert(tail@.subrange(8, 16)[6] == tail@[14]);
            assert(tail@.subrange(8, 16)[7] == tail@[15]);
        }
        if magic_ok {
            assert(tail@.subrange(8, 16) =~= magic_number());
        }
    }
    if !magic_ok {
        return None;
    }
    let v: u64 = (tail[0] as u64) | ((tail[1] as u64) << 8u64) | ((tail[2] as u64) << 16u64)
        | ((tail[3] as u64) << 24u64) | ((tail[4] as u64) << 32u64) | ((tail[5] as u64) << 40u64)
        | ((tail[6] as u64) << 48u64) | ((tail[7] as u64) << 56u64);
    Some(v)
}

/// Reading back the trailer written for an archive gives its size.
pub proof fn law_tail_round_trip(size: u64)
    ensures
        read_tail_spec(tail_of(size)) == Some(size),
{
    let t = tail_of(size);
    assert(t.subrange(8, 16) =~= magic_number());
    let b0 = (size & 0xff) as u8;
    let b1 = ((size >> 8u64) & 0xff) as u8;
    let b2 = ((size >> 16u64) & 0xff) as u8;
    let b3 = ((size >> 24u64) & 0xff) as u8;
    let b4 = ((size >> 32u64) & 0xff) as u8;
    let b5 = ((size >> 40u64) & 0xff) as u8;
    let b6 = ((size >> 48u64) & 0xff) as u8;
    let b7 = ((size >> 56u64) & 0xff) as u8;
    assert(t[0] == b0 && t[1] == b1 && t[2] == b2 && t[3] == b3);
    assert(t[4] == b4 && t[5] == b5 && t[6] == b6 && t[7] == b7);
    assert(((b0 as u64) | ((b1 as u64) << 8u64) | ((b2 as u64) << 16u64) | ((b3 as u64) << 24u64)
        | ((b4 as u64) << 32u64) | ((b5 as u64) << 40u64) | ((b6 as u64) << 48u64)
        | ((b7 as u64) << 56u64)) == size) by (bit_vector)
        requires
            b0 == (size & 0xff) as u8,
            b1 == ((size >> 8u64) & 0xff) as u8,
            b2 == ((size >> 16u64) & 0xff) as u8,
            b3 == ((size >> 24u64) & 0xff) as u8,
            b4 == ((size >> 32u64) & 0xff) as u8,
            b5 == ((size >> 40u64) & 0xff) as u8,
            b6 == ((size >> 48u64) & 0xff) as u8,
            b7 == ((size >> 56u64) & 0xff) as u8;
}

/// A trailer whose last eight bytes are not the magic number is refused.
pub proof fn law_tail_needs_magic(tail: Seq<u8>)
    requires
        tail.len() == 16,
        tail.subrange(8, 16) != magic_number(),
    ensures
        read_tail_spec(tail) is None,
{
}

/// Where the embedded archive begins, counted back from the end of the
/// executable: before its bytes and the sixteen-byte trailer. The size is
/// taken as a signed 64-bit number (sizes from 2^63 on wrap around to
/// negative values); the sizes for which the subtraction itself overflows
/// are left out.
pub fn embedded_offset(file_size: u64) -> (r: i64)
    requires
        !(0x7fff_ffff_ffff_fff0 < file_size < 0x8000_0000_0000_0000),
    ensures
        r as int == if file_size < 0x8000_0000_0000_0000 {
            -16 - (file_size as int)
        } else {
            -16 - (file_size as int - 0x1_0000_0000_0000_0000)
        },
{
    if file_size <= 0x7fff_ffff_ffff_fff0 {
        -16 - (file_size as i64)
    } else {
        let y = (file_size - 0x8000_0000_0000_0000) as i64;
        0x7fff_ffff_ffff_fff0 - y
    }
}

/// The verdict on unpacking `total_file_size` bytes under `config`: in fill
/// mode the archive must fit in the configured memory limit.
pub open spec fn memory_check_verdict(total_file_size: u64, mode: ServerCacheMode, max_memory: u64) -> Result<(), Seq<char>> {
    if mode == ServerCacheMode::Fill && total_file_size > max_memory {
        Err("Cannot not use cache fill mode, the total size of the embedded files ("@
            + readable_size(total_file_size as nat)
            + ") exceeds the configured max-memory ("@
            + readable_size(max_memory as nat)
            + "). Extraction cannot proceed."@)
    } else {
        Ok(())
    }
}

/// Checks, before unpacking, that an archive of `total_file_size` bytes may
/// be held in memory as the cache mode asks.
pub fn preventive_memory_check(total_file_size: u64, config: &ServerRunConfig) -> (r: Result<(), String>)
    ensures
        same_result(r, memory_check_verdict(total_file_size, config.cache.mode, config.cache.max_memory)),
{
    match config.cache.mode {
        ServerCacheMode::Fill => {
            if total_file_size > config.cache.max_memory {
                let total = bytes_to_readable_size(total_file_size);
                let max = bytes_to_readable_size(config.cache.max_memory);
                let a = cat3("Cannot not use cache fill mode, the total size of the embedded files (", total.as_str(),
                    ") exceeds the configured max-memory (");
                let b = cat3(a.as_str(), max.as_str(), "). Extraction cannot proceed.");
                return Err(b);
            }
            Ok(())
        },
        ServerCacheMode::Hits => Ok(()),
    }
}

} // verus!
