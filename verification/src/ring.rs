//! The ring of event slots: publishing an event, and reading one while others publish.
use vstd::prelude::*;

use crate::clients;
use crate::clients::ShmemClientRegistration;
use crate::errors::BusError;
use crate::header;
use crate::image;
use crate::image::{BusImage, StoreOp};
use crate::layout;
use crate::layout::{
    HEADER_SIZE, H_WRITE_SEQ, MAX_PAYLOAD, NUM_SLOTS_U64, SHM_TOTAL, SLOT_SEQ_INVALID, SLOT_SIZE, S_DATA,
    S_SEQ, S_SIZE, WRITE_LOCK_TIMEOUT_MS,
};
use crate::mem;
use crate::timing::WRITE_LOCK_BACKOFF_US;

verus! {

broadcast use crate::mem::group_mem;

/// The event that a mapping holds under number `seq`, if it holds one.
pub open spec fn slot_event(m: Seq<u8>, seq: u64) -> Option<Seq<u8>> {
    let o = layout::slot_offset(seq);
    let size = mem::u32_at(m, o + S_SIZE);
    if o + S_DATA > m.len() || mem::u64_at(m, o + S_SEQ) != seq || size == 0 || size > MAX_PAYLOAD || o + S_DATA
        + size > m.len() {
        None
    } else {
        Some(m.subrange(o + S_DATA, o + S_DATA + size))
    }
}

/// A read of a slot, before anything was read.
pub struct SlotRead {
    pub seq: u64,
    /// Where the sequence word of the slot stands.
    pub seq_offset: usize,
}

/// A read of a slot that holds the wanted event.
pub struct SizedSlotRead {
    pub seq: u64,
    pub seq_offset: usize,
    /// Where the size of the event stands.
    pub size_offset: usize,
}

/// A read of a slot whose event has a valid size.
pub struct FilledSlotRead {
    pub seq: u64,
    /// Where the sequence word stands, to be read once more.
    pub seq_offset: usize,
    /// Where the event starts.
    pub data_offset: usize,
    /// How long the event is.
    pub len: usize,
}

impl SlotRead {
    /// The start of a read of the event with number `seq`.
    pub open spec fn at(seq: u64) -> SlotRead {
        SlotRead { seq, seq_offset: (layout::slot_offset(seq) + S_SEQ) as usize }
    }

    /// What follows the sequence word: nothing, unless it is the wanted number.
    pub open spec fn after_sequence(self, slot_seq: u64) -> Option<SizedSlotRead> {
        if slot_seq == self.seq {
            Some(
                SizedSlotRead {
                    seq: self.seq,
                    seq_offset: self.seq_offset,
                    size_offset: (self.seq_offset - S_SEQ + S_SIZE) as usize,
                },
            )
        } else {
            None
        }
    }

    /// Starts to read the event with number `seq`.
    pub fn begin(seq: u64) -> (read: SlotRead)
        ensures
            read == SlotRead::at(seq),
            read.seq_offset == layout::slot_offset(seq) + S_SEQ,
    {
        let index: usize = (seq % NUM_SLOTS_U64) as usize;
        SlotRead { seq, seq_offset: HEADER_SIZE + index * SLOT_SIZE + S_SEQ }
    }

    /// Takes the sequence word.  The slot is read on only where it is the wanted number.
    pub fn sequence(self, slot_seq: u64) -> (next: Option<SizedSlotRead>)
        requires
            self.seq_offset + S_SIZE <= usize::MAX,
        ensures
            next == self.after_sequence(slot_seq),
    {
        if slot_seq != self.seq {
            None
        } else {
            Some(
                SizedSlotRead {
                    seq: self.seq,
                    seq_offset: self.seq_offset,
                    size_offset: self.seq_offset - S_SEQ + S_SIZE,
                },
            )
        }
    }
}

impl SizedSlotRead {
    /// What follows the size: nothing, unless an event of that size can be.
    pub open spec fn after_size(self, size: u32) -> Option<FilledSlotRead> {
        if 1 <= size <= MAX_PAYLOAD {
            Some(
                FilledSlotRead {
                    seq: self.seq,
                    seq_offset: self.seq_offset,
                    data_offset: (self.size_offset - S_SIZE + S_DATA) as usize,
                    len: size as usize,
                },
            )
        } else {
            None
        }
    }

    /// Takes the size.  The slot is read on only where an event of that size can be.
    pub fn size(self, size: u32) -> (next: Option<FilledSlotRead>)
        requires
            self.size_offset + 4 <= usize::MAX,
        ensures
            next == self.after_size(size),
    {
        if size == 0 || size as usize > MAX_PAYLOAD {
            None
        } else {
            Some(
                FilledSlotRead {
                    seq: self.seq,
                    seq_offset: self.seq_offset,
                    data_offset: self.size_offset + 4,
                    len: size as usize,
                },
            )
        }
    }
}

impl FilledSlotRead {
    /// What comes of the bytes: the event, unless the sequence word changed meanwhile.
    pub open spec fn after_confirm(self, payload: Seq<u8>, slot_seq: u64) -> Option<Seq<u8>> {
        if slot_seq == self.seq {
            Some(payload)
        } else {
            None
        }
    }

    /// Takes the bytes of the event and the sequence word read once more.  A writer that
    /// used the slot again in between has changed the word, and the bytes are dropped.
    pub fn confirm(self, payload: Vec<u8>, slot_seq: u64) -> (event: Option<Vec<u8>>)
        ensures
            match event {
                Some(bytes) => self.after_confirm(payload@, slot_seq) == Some(bytes@) && bytes == payload,
                None => self.after_confirm(payload@, slot_seq) is None,
            },
    {
        if slot_seq != self.seq {
            None
        } else {
            Some(payload)
        }
    }
}

fn copy_range(buf: &[u8], start: usize, end: usize) -> (bytes: Vec<u8>)
    requires
        start <= end <= buf@.len(),
    ensures
        bytes@ == buf@.subrange(start as int, end as int),
{
    let mut bytes: Vec<u8> = Vec::new();
    let mut i: usize = start;
    while i < end
        invariant
            start <= i <= end <= buf@.len(),
            bytes@ == buf@.subrange(start as int, i as int),
        decreases end - i,
    {
        bytes.push(buf[i]);
        i = i + 1;
        assert(bytes@ =~= buf@.subrange(start as int, i as int));
    }
    bytes
}

/// Reads the event with number `seq` from a mapping that nobody writes to meanwhile.
pub fn read_slot(buf: &[u8], seq: u64) -> (event: Option<Vec<u8>>)
    ensures
        (match event {
            Some(bytes) => Some(bytes@),
            None => None,
        }) == slot_event(buf@, seq),
{
    let len: usize = buf.len();
    let read = SlotRead::begin(seq);
    let seq_offset: usize = read.seq_offset;
    if seq_offset + S_DATA > len {
        return None;
    }
    match read.sequence(mem::le_u64(buf, seq_offset)) {
        None => None,
        Some(sized) => {
            let size_offset: usize = sized.size_offset;
            match sized.size(mem::le_u32(buf, size_offset)) {
                None => None,
                Some(filled) => {
                    let start: usize = filled.data_offset;
                    let end: usize = start + filled.len;
                    if end > len {
                        return None;
                    }
                    let payload: Vec<u8> = copy_range(buf, start, end);
                    filled.confirm(payload, mem::le_u64(buf, seq_offset))
                },
            }
        },
    }
}

/// The stores of publishing `payload` under number `seq`.  The slot is marked invalid before
/// anything in it changes and carries its new number only when it is complete; the number
/// of the last event goes up last.
pub open spec fn publish_ops(
    client: ShmemClientRegistration,
    now_ms: u64,
    seq: u64,
    payload: Seq<u8>,
) -> Seq<StoreOp> {
    let o = layout::slot_offset(seq);
    seq![
        clients::heartbeat_op(client, now_ms),
        StoreOp::AtomicU64 { offset: o + S_SEQ, word: SLOT_SEQ_INVALID, seq_cst: true },
        StoreOp::PlainU32 { offset: o + S_SIZE, value: payload.len() as u32 },
        StoreOp::Bytes { offset: o + S_DATA, bytes: payload },
        StoreOp::AtomicU64 { offset: o + S_SEQ, word: seq, seq_cst: false },
        StoreOp::AtomicU64 { offset: H_WRITE_SEQ as int, word: seq, seq_cst: false },
    ]
}

/// Whether an event of `len` bytes can be published at all.
pub open spec fn payload_verdict(len: nat) -> Result<(), BusError> {
    if len == 0 {
        Err(BusError::EmptyPayload)
    } else if len > MAX_PAYLOAD {
        Err(BusError::PayloadTooLarge { len: len as usize })
    } else {
        Ok(())
    }
}

/// Checks that an event of `len` bytes can be published at all.  This comes before the write
/// lock is taken.
pub fn check_payload(len: usize) -> (result: Result<(), BusError>)
    ensures
        result == payload_verdict(len as nat),
{
    if len == 0 {
        Err(BusError::EmptyPayload)
    } else if len > MAX_PAYLOAD {
        Err(BusError::PayloadTooLarge { len })
    } else {
        Ok(())
    }
}

/// What publishing answers.
pub open spec fn publish_verdict(m: Seq<u8>, client: ShmemClientRegistration, len: nat) -> Result<
    u64,
    BusError,
> {
    match payload_verdict(len) {
        Err(error) => Err(error),
        Ok(_) => match clients::heartbeat_verdict(clients::table(m), client) {
            Err(error) => Err(error),
            Ok(_) => if header::write_seq(m) == u64::MAX {
                Err(BusError::SequenceOverflow)
            } else {
                Ok((header::write_seq(m) + 1) as u64)
            },
        },
    }
}

/// Publishes an event and answers its number.  A publisher whose entry in the client table
/// is no longer its own publishes nothing.  The caller holds the write lock.
pub fn write_payload_to_shmem(
    im: &mut BusImage,
    client: &ShmemClientRegistration,
    payload: &Vec<u8>,
    now_ms: u64,
) -> (result: Result<u64, BusError>)
    requires
        old(im).wf(),
    ensures
        final(im).wf(),
        final(im).base() == old(im).base(),
        result == publish_verdict(old(im).mem(), *client, payload@.len()),
        final(im).plan() == old(im).plan() + (match result {
            Ok(seq) => publish_ops(*client, now_ms, seq, payload@),
            Err(BusError::SequenceOverflow) => seq![clients::heartbeat_op(*client, now_ms)],
            Err(_) => seq![],
        }),
        result matches Ok(seq) ==> {
            &&& final(im).mem() == image::replay(old(im).mem(), publish_ops(*client, now_ms, seq, payload@))
            &&& header::write_seq(final(im).mem()) == seq
            &&& final(im).mem().len() >= SHM_TOTAL ==> slot_event(final(im).mem(), seq) == Some(payload@)
        },
        result is Err && !(result matches Err(BusError::SequenceOverflow)) ==> *final(im) == *old(im),
{
    let ghost p = im.plan();
    let ghost m = im.mem();
    let ghost b = im.base();
    match check_payload(payload.len()) {
        Err(error) => {
            assert(im.plan() =~= p + Seq::<StoreOp>::empty());
            return Err(error);
        },
        Ok(_) => {},
    }
    match clients::update_client_heartbeat(im, client, now_ms) {
        Err(error) => {
            assert(im.plan() =~= p + Seq::<StoreOp>::empty());
            return Err(error);
        },
        Ok(_) => {},
    }
    let current: u64 = im.load_u64(H_WRITE_SEQ);
    match current.checked_add(1) {
        None => {
            assert(im.plan() =~= p + seq![clients::heartbeat_op(*client, now_ms)]);
            Err(BusError::SequenceOverflow)
        },
        Some(seq) => {
            let index: usize = (seq % NUM_SLOTS_U64) as usize;
            let base: usize = HEADER_SIZE + index * SLOT_SIZE;
            im.store_u64(base + S_SEQ, SLOT_SEQ_INVALID, true);
            im.store_plain_u32(base + S_SIZE, payload.len() as u32);
            im.store_bytes(base + S_DATA, copy_range(payload.as_slice(), 0, payload.len()));
            im.store_u64(base + S_SEQ, seq, false);
            im.store_u64(H_WRITE_SEQ, seq, false);
            proof {
                assert(payload@.subrange(0, payload@.len() as int) =~= payload@);
                let ops = publish_ops(*client, now_ms, seq, payload@);
                assert(im.plan() =~= p + ops);
                image::lemma_replay_add(b, p, ops);
            }
            Ok(seq)
        },
    }
}

/// What to do about the write lock after one attempt to take it.
#[derive(Debug, PartialEq, Eq)]
pub enum LockStep {
    /// The lock is taken.
    Acquired,
    /// Waiting took too long.
    TimedOut,
    /// Try again after this many microseconds.
    Retry { backoff_us: u64 },
}

/// Decides what follows an attempt to take the write lock, `waited_ms` after the first.
pub fn acquire_shmem_write_lock(taken: bool, waited_ms: u64) -> (step: LockStep)
    ensures
        step == (if taken {
            LockStep::Acquired
        } else if waited_ms >= WRITE_LOCK_TIMEOUT_MS {
            LockStep::TimedOut
        } else {
            LockStep::Retry { backoff_us: WRITE_LOCK_BACKOFF_US }
        }),
{
    if taken {
        LockStep::Acquired
    } else if waited_ms >= WRITE_LOCK_TIMEOUT_MS {
        LockStep::TimedOut
    } else {
        LockStep::Retry { backoff_us: WRITE_LOCK_BACKOFF_US }
    }
}

/// Checks that a mapping is large enough to be a bus.
pub fn check_mapping_size(actual: usize, writable: bool) -> (result: Result<(), BusError>)
    ensures
        result == (if actual < SHM_TOTAL {
            Err::<(), BusError>(BusError::MappingTooSmall { writable, actual })
        } else {
            Ok(())
        }),
{
    if actual < SHM_TOTAL {
        Err(BusError::MappingTooSmall { writable, actual })
    } else {
        Ok(())
    }
}

} // verus!
