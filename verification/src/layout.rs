//! Byte layout of the bus: a header with the client table, then a ring of event slots.
use vstd::arithmetic::{power, power2};
use vstd::bits;
use vstd::prelude::*;

use crate::errors::BusError;

verus! {

pub const WORD_ALIGN: usize = 8;

pub const CACHE_LINE_SIZE: usize = 64;

/// Number of slots of the ring.  A subscriber that falls behind for a moment still finds
/// the newest `NUM_SLOTS` events.
pub const NUM_SLOTS: usize = 16384;

pub const NUM_SLOTS_U64: u64 = 16384;

/// Largest serialized event, in bytes.
pub const MAX_PAYLOAD: usize = 4096;

/// Marks a mapping as a bus of this library ("RUSTEVBU").
pub const SHM_MAGIC: u64 = 0x5255535445564255;

/// Layout version.  It goes up when the header or the slot layout changes.
pub const SHM_LAYOUT_VERSION: u32 = 1;

/// Period at which publishers and subscribers refresh their heartbeat.
pub const SHM_HEARTBEAT_INTERVAL_MS: u64 = 1_000;

/// Age beyond which a heartbeat counts as left behind by a crash.
pub const SHM_CLIENT_STALE_TIMEOUT_MS: u64 = SHM_HEARTBEAT_INTERVAL_MS * 30;

/// Longest wait for the write lock.
pub const WRITE_LOCK_TIMEOUT_MS: u64 = 2_000;

pub const CLIENT_ROLE_EMPTY: u32 = 0;

pub const CLIENT_ROLE_PUBLISHER: u32 = 1;

pub const CLIENT_ROLE_SUBSCRIBER: u32 = 2;

pub const CLIENT_SLOTS: usize = 128;

pub const C_ROLE: usize = 0;

pub const C_PID: usize = C_ROLE + 4;

pub const C_REFCOUNT: usize = C_PID + 4;

pub const C_RESERVED: usize = C_REFCOUNT + 4;

pub const C_INSTANCE_ID: usize = 16;

pub const C_HEARTBEAT_MS: usize = C_INSTANCE_ID + 8;

pub const CLIENT_SLOT_USED: usize = C_HEARTBEAT_MS + 8;

pub const CLIENT_SLOT_SIZE: usize = 64;

pub const H_MAGIC: usize = 0;

pub const H_LAYOUT_VERSION: usize = H_MAGIC + 8;

pub const H_HEADER_SIZE_FIELD: usize = H_LAYOUT_VERSION + 4;

pub const H_SLOT_SIZE_FIELD: usize = H_HEADER_SIZE_FIELD + 4;

pub const H_NUM_SLOTS_FIELD: usize = H_SLOT_SIZE_FIELD + 4;

pub const H_MAX_PAYLOAD_FIELD: usize = H_NUM_SLOTS_FIELD + 4;

pub const H_WRITE_LOCK: usize = H_MAX_PAYLOAD_FIELD + 4;

pub const H_WRITE_SEQ: usize = 32;

pub const H_EPOCH: usize = H_WRITE_SEQ + 8;

pub const H_OWNER_PID: usize = H_EPOCH + 8;

pub const H_CLIENT_SLOTS_FIELD: usize = H_OWNER_PID + 4;

pub const H_CLIENT_SLOT_SIZE_FIELD: usize = H_CLIENT_SLOTS_FIELD + 4;

pub const H_CLIENT_TABLE: usize = 64;

pub const HEADER_USED: usize = 8256;

pub const HEADER_SIZE: usize = 8256;

/// Sequence word of a slot that holds no event.
pub const SLOT_SEQ_INVALID: u64 = 0;

pub const S_SEQ: usize = 0;

pub const S_SIZE: usize = S_SEQ + 8;

pub const S_DATA: usize = S_SIZE + 4;

pub const SLOT_OVERHEAD: usize = S_DATA;

pub const SLOT_SIZE: usize = 4112;

pub const SHM_TOTAL: usize = 67_379_264;

/// Longest name that every platform takes for a mapping.
pub const SHM_MAX_NAME: usize = 31;

/// `value` rounded up to a multiple of `align`.
pub open spec fn aligned_up(value: int, align: int) -> int {
    ((value + align - 1) / align) * align
}

/// Offset of the slot that holds sequence number `seq`.
pub open spec fn slot_offset(seq: u64) -> int {
    HEADER_SIZE + (seq % NUM_SLOTS_U64) * SLOT_SIZE
}

/// Offset of entry `index` of the client table.
pub open spec fn client_offset(index: int) -> int {
    H_CLIENT_TABLE + index * CLIENT_SLOT_SIZE
}

/// Masks the bits below `align` off `value + align - 1`.  With a power of two for `align` that
/// rounds `value` up to the next multiple of it.
pub fn align_up(value: usize, align: usize) -> (rounded: usize)
    requires
        align > 0,
        value + align <= usize::MAX,
    ensures
        rounded == ((value + align - 1) as usize) & !((align - 1) as usize),
        power2::is_pow2(align as int) ==> {
            &&& rounded == aligned_up(value as int, align as int)
            &&& rounded as int % align as int == 0
            &&& value <= rounded < value + align
        },
{
    let top: usize = value + align - 1;
    let mask: usize = align - 1;
    proof {
        if power2::is_pow2(align as int) {
            lemma_masked(top, align);
            lemma_align(value as int, align as int);
        }
    }
    top & !mask
}

/// Masking the bits below a power of two off a number is taking off its remainder.
proof fn lemma_masked(top: usize, align: usize)
    requires
        align > 0,
        power2::is_pow2(align as int),
    ensures
        top & !((align - 1) as usize) == (top as int / align as int) * align,
{
    let mask = (align - 1) as usize;
    power2::is_pow2_equiv(align as int);
    let n = choose|n: nat| power::pow(2, n) == align as int;
    assert(power2::pow2(n) == align);
    if n >= usize::BITS {
        lemma_usize_bits();
        if n > usize::BITS {
            power2::lemma_pow2_strictly_increases(usize::BITS as nat, n);
        }
    }
    bits::lemma_usize_low_bits_mask_is_mod(top, n);
    assert(top & mask == top % align);
    assert(top & !mask == top - (top & mask)) by (bit_vector);
    vstd::arithmetic::div_mod::lemma_fundamental_div_mod(top as int, align as int);
    vstd::arithmetic::mul::lemma_mul_is_commutative(align as int, top as int / align as int);
}

/// No word reaches two to the number of its bits.
proof fn lemma_usize_bits()
    ensures
        power2::pow2(usize::BITS as nat) > usize::MAX,
{
    power2::lemma2_to64();
}

proof fn lemma_align(value: int, align: int)
    requires
        align > 0,
        value >= 0,
    ensures
        aligned_up(value, align) % align == 0,
        value <= aligned_up(value, align) < value + align,
{
    vstd::arithmetic::div_mod::lemma_fundamental_div_mod(value + align - 1, align);
    vstd::arithmetic::mul::lemma_mul_is_commutative(align, (value + align - 1) / align);
    vstd::arithmetic::div_mod::lemma_mod_multiples_basic((value + align - 1) / align, align);
}

/// Start of the slot that holds sequence number `seq`.
pub fn slot_base(seq: u64) -> (base: Option<usize>)
    ensures
        base == Some(slot_offset(seq) as usize),
        HEADER_SIZE <= slot_offset(seq) <= SHM_TOTAL - SLOT_SIZE,
{
    let index: usize = (seq % NUM_SLOTS_U64) as usize;
    Some(HEADER_SIZE + index * SLOT_SIZE)
}

/// Start of entry `index` of the client table.
pub fn client_slot_base(index: usize) -> (base: Result<usize, BusError>)
    ensures
        base == (if index < CLIENT_SLOTS {
            Ok::<usize, BusError>(client_offset(index as int) as usize)
        } else {
            Err(BusError::ClientIndex { index })
        }),
{
    if index >= CLIENT_SLOTS {
        return Err(BusError::ClientIndex { index });
    }
    Ok(H_CLIENT_TABLE + index * CLIENT_SLOT_SIZE)
}

/// Offset of the field `field` of entry `index` of the client table.
pub fn client_slot_field(index: usize, field: usize) -> (offset: Result<usize, BusError>)
    ensures
        offset == (if index >= CLIENT_SLOTS {
            Err::<usize, BusError>(BusError::ClientIndex { index })
        } else if client_offset(index as int) + field > usize::MAX {
            Err(BusError::ClientOffsetOverflow)
        } else {
            Ok((client_offset(index as int) + field) as usize)
        }),
{
    match client_slot_base(index) {
        Ok(base) => match base.checked_add(field) {
            Some(offset) => Ok(offset),
            None => Err(BusError::ClientOffsetOverflow),
        },
        Err(error) => Err(error),
    }
}

/// Law: the sizes and offsets are those that the fields and the alignments call for, and
/// every atomic word stands at a multiple of its size.
pub proof fn layout_is_aligned()
    ensures
        C_INSTANCE_ID == aligned_up(C_RESERVED + 4, WORD_ALIGN as int),
        CLIENT_SLOT_SIZE == aligned_up(CLIENT_SLOT_USED as int, CACHE_LINE_SIZE as int),
        H_WRITE_SEQ == aligned_up(H_WRITE_LOCK + 4, WORD_ALIGN as int),
        H_CLIENT_TABLE == aligned_up(H_CLIENT_SLOT_SIZE_FIELD + 4, CACHE_LINE_SIZE as int),
        HEADER_USED == H_CLIENT_TABLE + CLIENT_SLOTS * CLIENT_SLOT_SIZE,
        HEADER_SIZE == aligned_up(HEADER_USED as int, CACHE_LINE_SIZE as int),
        SLOT_SIZE == aligned_up(SLOT_OVERHEAD + MAX_PAYLOAD, WORD_ALIGN as int),
        SHM_TOTAL == HEADER_SIZE + NUM_SLOTS * SLOT_SIZE,
        HEADER_SIZE >= HEADER_USED,
        S_DATA + MAX_PAYLOAD <= SLOT_SIZE,
        H_MAGIC % 8 == 0,
        H_WRITE_LOCK % 4 == 0,
        H_WRITE_SEQ % 8 == 0,
        H_EPOCH % 8 == 0,
        H_CLIENT_TABLE % CACHE_LINE_SIZE == 0,
        forall|i: int|
            #![trigger client_offset(i)]
            0 <= i < CLIENT_SLOTS ==> {
                &&& (client_offset(i) + C_ROLE) % 4 == 0
                &&& (client_offset(i) + C_PID) % 4 == 0
                &&& (client_offset(i) + C_REFCOUNT) % 4 == 0
                &&& (client_offset(i) + C_INSTANCE_ID) % 8 == 0
                &&& (client_offset(i) + C_HEARTBEAT_MS) % 8 == 0
            },
        forall|seq: u64| (#[trigger] slot_offset(seq) + S_SEQ) % 8 == 0,
{
}

/// Law: the slots of two sequence numbers are the same slot where the numbers agree modulo
/// the number of slots, and share no byte otherwise.  No slot reaches into the header or
/// past the end of the mapping.
pub proof fn slots_share_no_byte(a: u64, b: u64)
    ensures
        HEADER_SIZE <= slot_offset(a),
        slot_offset(a) + SLOT_SIZE <= SHM_TOTAL,
        a % NUM_SLOTS_U64 == b % NUM_SLOTS_U64 ==> slot_offset(a) == slot_offset(b),
        a % NUM_SLOTS_U64 != b % NUM_SLOTS_U64 ==> slot_offset(a) + SLOT_SIZE <= slot_offset(b)
            || slot_offset(b) + SLOT_SIZE <= slot_offset(a),
{
}

/// Law: numbers that follow each other have slots that follow each other; the slot after the
/// last one is the first, right behind the header.
pub proof fn slots_follow_each_other(seq: u64)
    requires
        seq < u64::MAX,
    ensures
        slot_offset(0) == 8_256,
        slot_offset((seq + 1) as u64) == slot_offset(seq) + 4_112 || slot_offset(seq) + 4_112 == SHM_TOTAL
            && slot_offset((seq + 1) as u64) == 8_256,
{
}

/// Law: entries of the client table follow each other behind the first line of the header.
pub proof fn entries_follow_each_other(index: int)
    ensures
        client_offset(0) == 64,
        client_offset(index + 1) == client_offset(index) + 64,
{
}

/// Law: rounding up gives the least multiple that is not less.
pub proof fn rounding_up_gives_the_least_multiple(value: int, align: int, other: int)
    requires
        align > 0,
        value >= 0,
    ensures
        aligned_up(value, align) % align == 0,
        value <= aligned_up(value, align),
        other >= value && other % align == 0 ==> aligned_up(value, align) <= other,
{
    lemma_align(value, align);
    if other >= value && other % align == 0 && other < aligned_up(value, align) {
        let k = other / align;
        let j = (value + align - 1) / align;
        vstd::arithmetic::div_mod::lemma_fundamental_div_mod(other, align);
        assert(other == align * k);
        assert(j * align - k * align < align);
        assert(k >= j) by (nonlinear_arith)
            requires
                j * align - align * k < align,
                align > 0,
        ;
        assert(align * k >= j * align) by (nonlinear_arith)
            requires
                k >= j,
                align > 0,
        ;
    }
}

} // verus!
