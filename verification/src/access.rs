//! Checked access to buffers: plain 32-bit words, and where an atomic word may stand.
use vstd::prelude::*;

use crate::errors::AccessError;
use crate::mem;

verus! {

/// Reads a little-endian 32-bit word, or nothing where it reaches past the buffer.
pub fn read_u32_le(buf: &[u8], offset: usize) -> (value: Option<u32>)
    ensures
        value is Some <==> offset + 4 <= buf@.len(),
        value matches Some(v) ==> v == mem::u32_at(buf@, offset as int),
{
    let len: usize = buf.len();
    match offset.checked_add(4) {
        Some(end) => {
            if end <= len {
                Some(mem::le_u32(buf, offset))
            } else {
                None
            }
        },
        None => None,
    }
}

/// Writes a little-endian 32-bit word.
pub fn write_u32_le(buf: &mut [u8], offset: usize, value: u32) -> (result: Result<(), AccessError>)
    ensures
        result == (if offset + 4 > usize::MAX {
            Err::<(), AccessError>(AccessError::WordWriteOverflow)
        } else if offset + 4 > old(buf)@.len() {
            Err(
                AccessError::WordWriteOutOfBounds {
                    offset,
                    end: (offset + 4) as usize,
                    len: old(buf)@.len() as usize,
                },
            )
        } else {
            Ok(())
        }),
        final(buf)@ == (if result is Ok {
            mem::put(old(buf)@, offset as int, mem::u32_bytes(value))
        } else {
            old(buf)@
        }),
{
    let len: usize = buf.len();
    match offset.checked_add(4) {
        Some(end) => {
            if end > len {
                return Err(AccessError::WordWriteOutOfBounds { offset, end, len });
            }
            let bytes: Vec<u8> = mem::u32_to_le(value);
            let ghost before = buf@;
            proof {
                crate::mem::lemma_bytes_len32(value);
            }
            buf[offset] = bytes[0];
            buf[offset + 1] = bytes[1];
            buf[offset + 2] = bytes[2];
            buf[offset + 3] = bytes[3];
            proof {
                reveal(mem::put);
                assert(buf@ =~= mem::put(before, offset as int, mem::u32_bytes(value)));
            }
            Ok(())
        },
        None => Err(AccessError::WordWriteOverflow),
    }
}

/// The outcome of placing an atomic word of `size` bytes at `offset` in a buffer of `len`
/// bytes that starts at address `base`.
pub open spec fn atomic_place(size: int, base: usize, len: usize, offset: usize) -> Result<
    usize,
    AccessError,
> {
    let wide = size == 8;
    if offset + size > usize::MAX {
        Err(AccessError::AtomicOverflow { wide })
    } else if offset + size > len {
        Err(AccessError::AtomicOutOfBounds { wide, offset, end: (offset + size) as usize, len })
    } else if (base + offset) % size != 0 {
        Err(AccessError::AtomicMisaligned { wide })
    } else {
        Ok(offset)
    }
}

/// Whether an atomic 64-bit word may stand at `offset` in a buffer of `len` bytes at
/// address `base`.  Hands `offset` back where it may.
pub fn atomic_u64_offset(base: usize, len: usize, offset: usize) -> (place: Result<usize, AccessError>)
    requires
        base + len <= usize::MAX,
    ensures
        place == atomic_place(8, base, len, offset),
{
    match offset.checked_add(8) {
        None => Err(AccessError::AtomicOverflow { wide: true }),
        Some(end) => {
            if end > len {
                Err(AccessError::AtomicOutOfBounds { wide: true, offset, end, len })
            } else if (base + offset) % 8 != 0 {
                Err(AccessError::AtomicMisaligned { wide: true })
            } else {
                Ok(offset)
            }
        },
    }
}

/// Whether an atomic 32-bit word may stand at `offset` in a buffer of `len` bytes at
/// address `base`.  Hands `offset` back where it may.
pub fn atomic_u32_offset(base: usize, len: usize, offset: usize) -> (place: Result<usize, AccessError>)
    requires
        base + len <= usize::MAX,
    ensures
        place == atomic_place(4, base, len, offset),
{
    match offset.checked_add(4) {
        None => Err(AccessError::AtomicOverflow { wide: false }),
        Some(end) => {
            if end > len {
                Err(AccessError::AtomicOutOfBounds { wide: false, offset, end, len })
            } else if (base + offset) % 4 != 0 {
                Err(AccessError::AtomicMisaligned { wide: false })
            } else {
                Ok(offset)
            }
        },
    }
}

/// Law: an atomic word may stand exactly where it lies within the buffer and at an address that
/// is a multiple of its size.
pub proof fn atomic_words_are_inside_and_aligned(size: int, base: usize, len: usize, offset: usize)
    requires
        size == 4 || size == 8,
        base + len <= usize::MAX,
    ensures
        ({
            let place = atomic_place(size, base, len, offset);
            let wide = size == 8;
            &&& place is Ok <==> offset + size <= len && (base + offset) % size == 0
            &&& place matches Ok(at) ==> at == offset
            &&& offset + size <= len && (base + offset) % size != 0 ==> place == Err::<usize, AccessError>(
                AccessError::AtomicMisaligned { wide },
            )
            &&& len < offset + size <= usize::MAX ==> place == Err::<usize, AccessError>(
                AccessError::AtomicOutOfBounds { wide, offset, end: (offset + size) as usize, len },
            )
            &&& offset + size > usize::MAX ==> place == Err::<usize, AccessError>(AccessError::AtomicOverflow { wide })
        }),
{
}

} // verus!
