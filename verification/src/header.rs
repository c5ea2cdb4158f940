//! The bus header: what makes a mapping a bus, and how a bus starts over.
use vstd::prelude::*;

use crate::clients;
use crate::clients::{Probe, ShmemClientRegistration};
use crate::errors::{BusError, LayoutFields};
use crate::image::{BusImage, StoreOp};
use crate::layout;
use crate::layout::{
    CLIENT_ROLE_PUBLISHER, CLIENT_SLOTS, CLIENT_SLOT_SIZE, C_HEARTBEAT_MS, C_INSTANCE_ID, C_PID, C_REFCOUNT,
    C_ROLE, HEADER_SIZE, H_CLIENT_SLOTS_FIELD, H_CLIENT_SLOT_SIZE_FIELD, H_CLIENT_TABLE, H_EPOCH, H_HEADER_SIZE_FIELD, H_LAYOUT_VERSION, H_MAGIC,
    H_MAX_PAYLOAD_FIELD, H_NUM_SLOTS_FIELD, H_OWNER_PID, H_SLOT_SIZE_FIELD, H_WRITE_LOCK,
    H_WRITE_SEQ, MAX_PAYLOAD, NUM_SLOTS, SHM_LAYOUT_VERSION, SHM_MAGIC, SHM_TOTAL, SLOT_SIZE,
};
use crate::mem;

verus! {

broadcast use crate::mem::group_mem;

/// The sizes that the header of a mapping records.
pub open spec fn recorded_layout(m: Seq<u8>) -> LayoutFields {
    LayoutFields {
        version: mem::u32_at(m, H_LAYOUT_VERSION as int),
        header_size: mem::u32_at(m, H_HEADER_SIZE_FIELD as int),
        slot_size: mem::u32_at(m, H_SLOT_SIZE_FIELD as int),
        num_slots: mem::u32_at(m, H_NUM_SLOTS_FIELD as int),
        max_payload: mem::u32_at(m, H_MAX_PAYLOAD_FIELD as int),
        client_slots: mem::u32_at(m, H_CLIENT_SLOTS_FIELD as int),
        client_slot_size: mem::u32_at(m, H_CLIENT_SLOT_SIZE_FIELD as int),
    }
}

/// The sizes of this library.
pub open spec fn own_layout() -> LayoutFields {
    LayoutFields {
        version: SHM_LAYOUT_VERSION,
        header_size: HEADER_SIZE as u32,
        slot_size: SLOT_SIZE as u32,
        num_slots: NUM_SLOTS as u32,
        max_payload: MAX_PAYLOAD as u32,
        client_slots: CLIENT_SLOTS as u32,
        client_slot_size: CLIENT_SLOT_SIZE as u32,
    }
}

/// Whether a mapping is a bus that this library can use.
pub open spec fn compatible(m: Seq<u8>) -> bool {
    &&& mem::u64_at(m, H_MAGIC as int) == SHM_MAGIC
    &&& recorded_layout(m) == own_layout()
}

/// The number of the last event that was published.
pub open spec fn write_seq(m: Seq<u8>) -> u64 {
    mem::u64_at(m, H_WRITE_SEQ as int)
}

/// The epoch of the bus.  It changes whenever the bus starts over.
pub open spec fn epoch(m: Seq<u8>) -> u64 {
    mem::u64_at(m, H_EPOCH as int)
}

/// The word of the write lock.
pub open spec fn lock_word(m: Seq<u8>) -> u32 {
    mem::u32_at(m, H_WRITE_LOCK as int)
}

/// A bus that just started: usable, nothing published, nobody registered.
pub open spec fn just_started(m: Seq<u8>, new_epoch: u64, owner_pid: u32) -> bool {
    &&& compatible(m)
    &&& write_seq(m) == 0
    &&& epoch(m) == new_epoch
    &&& mem::u32_at(m, H_OWNER_PID as int) == owner_pid
    &&& clients::table(m) == no_clients()
}

/// A client table that nobody is in.
pub open spec fn no_clients() -> Seq<clients::ClientSlot> {
    Seq::new(CLIENT_SLOTS as nat, |i: int| clients::empty_client())
}

/// Every byte of the ring that the image covers is zero.  The ring ends at `SHM_TOTAL`, even
/// in a longer mapping.
pub open spec fn ring_is_blank(m: Seq<u8>) -> bool {
    forall|i: int| HEADER_SIZE <= i < m.len() && i < SHM_TOTAL ==> #[trigger] m[i] == 0
}

/// Whether an error says rightly why a mapping is no bus of this layout: its magic number is
/// another, or else the sizes that it records are.
pub open spec fn refuses(m: Seq<u8>, shm_name: Seq<char>, error: BusError) -> bool {
    let found_magic = mem::u64_at(m, H_MAGIC as int);
    &&& !compatible(m)
    &&& if found_magic != SHM_MAGIC {
        error matches BusError::MagicMismatch { name, magic } && name@ == shm_name && magic == found_magic
    } else {
        error matches BusError::LayoutMismatch { name, found } && name@ == shm_name && found == recorded_layout(m)
    }
}

/// Checks that a mapping is a bus of this layout.
pub fn validate_shmem_header(im: &BusImage, shm_name: &str) -> (result: Result<(), BusError>)
    requires
        im.wf(),
    ensures
        result is Ok <==> compatible(im.mem()),
        result matches Err(error) ==> refuses(im.mem(), shm_name@, error),
{
    let magic: u64 = im.load_u64(H_MAGIC);
    if magic != SHM_MAGIC {
        return Err(BusError::MagicMismatch { name: shm_name.to_owned(), magic });
    }
    let found = LayoutFields {
        version: im.load_u32(H_LAYOUT_VERSION),
        header_size: im.load_u32(H_HEADER_SIZE_FIELD),
        slot_size: im.load_u32(H_SLOT_SIZE_FIELD),
        num_slots: im.load_u32(H_NUM_SLOTS_FIELD),
        max_payload: im.load_u32(H_MAX_PAYLOAD_FIELD),
        client_slots: im.load_u32(H_CLIENT_SLOTS_FIELD),
        client_slot_size: im.load_u32(H_CLIENT_SLOT_SIZE_FIELD),
    };
    if found.version != SHM_LAYOUT_VERSION || found.header_size != HEADER_SIZE as u32 || found.slot_size
        != SLOT_SIZE as u32 || found.num_slots != NUM_SLOTS as u32 || found.max_payload != MAX_PAYLOAD as u32
        || found.client_slots != CLIENT_SLOTS as u32 || found.client_slot_size != CLIENT_SLOT_SIZE as u32 {
        return Err(BusError::LayoutMismatch { name: shm_name.to_owned(), found });
    }
    Ok(())
}

/// The number of the last event, and the epoch.
pub fn read_header(im: &BusImage) -> (header: (u64, u64))
    requires
        im.wf(),
    ensures
        header == (write_seq(im.mem()), epoch(im.mem())),
{
    (im.load_u64(H_WRITE_SEQ), im.load_u64(H_EPOCH))
}

/// The epoch of a bus that a process starts at `nanos`.
pub open spec fn epoch_number(nanos: u64, pid: u32) -> u64 {
    nanos ^ ((pid as u64) << 17u64) ^ 0x9E37_79B9_7F4A_7C15u64
}

/// A new epoch from the time in nanoseconds and the process.
pub fn new_bus_epoch(nanos: u64, pid: u32) -> (new_epoch: u64)
    ensures
        new_epoch == epoch_number(nanos, pid),
        new_epoch == nanos ^ ((pid as u64) << 17u64) ^ 0x9E37_79B9_7F4A_7C15u64,
{
    nanos ^ ((pid as u64) << 17u64) ^ 0x9E37_79B9_7F4A_7C15u64
}

/// A new client instance number from the time in nanoseconds, the process and the role.
pub fn new_client_instance_id(nanos: u64, pid: u32, role: u32) -> (instance_id: u64)
    ensures
        instance_id == instance_number(nanos, pid, role),
        instance_id == nanos ^ ((pid as u64) << 17u64) ^ ((role as u64) << 56u64) ^ 0xD6E8_FD9A_7A4C_15F3u64,
{
    nanos ^ ((pid as u64) << 17u64) ^ ((role as u64) << 56u64) ^ 0xD6E8_FD9A_7A4C_15F3u64
}

/// The instance number of a client of a process that starts at `nanos`.
pub open spec fn instance_number(nanos: u64, pid: u32, role: u32) -> u64 {
    nanos ^ ((pid as u64) << 17u64) ^ ((role as u64) << 56u64) ^ 0xD6E8_FD9A_7A4C_15F3u64
}

/// Law: two clients of different processes or roles that start at the same instant get
/// different instance numbers, as long as the role is one of the bus's own.
pub proof fn instance_numbers_differ(nanos: u64, pid_a: u32, role_a: u32, pid_b: u32, role_b: u32)
    requires
        role_a <= 2,
        role_b <= 2,
        pid_a != pid_b || role_a != role_b,
    ensures
        instance_number(nanos, pid_a, role_a) != instance_number(nanos, pid_b, role_b),
{
    assert(nanos ^ ((pid_a as u64) << 17u64) ^ ((role_a as u64) << 56u64) ^ 0xD6E8_FD9A_7A4C_15F3u64 != nanos
        ^ ((pid_b as u64) << 17u64) ^ ((role_b as u64) << 56u64) ^ 0xD6E8_FD9A_7A4C_15F3u64) by (bit_vector)
        requires
            role_a <= 2,
            role_b <= 2,
            pid_a != pid_b || role_a != role_b,
    ;
}

/// The stores that clear the first `n` entries of the client table.
pub open spec fn clear_all_ops(n: int) -> Seq<StoreOp>
    decreases n,
{
    if n <= 0 {
        seq![]
    } else {
        clear_all_ops(n - 1) + clients::clear_ops(n - 1)
    }
}

/// The stores that write a header.
pub open spec fn init_ops(keep_write_lock: bool, new_epoch: u64, owner_pid: u32) -> Seq<StoreOp> {
    seq![
        StoreOp::AtomicU64 { offset: H_MAGIC as int, word: SHM_MAGIC, seq_cst: false },
        StoreOp::PlainU32 { offset: H_LAYOUT_VERSION as int, value: SHM_LAYOUT_VERSION },
        StoreOp::PlainU32 { offset: H_HEADER_SIZE_FIELD as int, value: HEADER_SIZE as u32 },
        StoreOp::PlainU32 { offset: H_SLOT_SIZE_FIELD as int, value: SLOT_SIZE as u32 },
        StoreOp::PlainU32 { offset: H_NUM_SLOTS_FIELD as int, value: NUM_SLOTS as u32 },
        StoreOp::PlainU32 { offset: H_MAX_PAYLOAD_FIELD as int, value: MAX_PAYLOAD as u32 },
        StoreOp::PlainU32 { offset: H_CLIENT_SLOTS_FIELD as int, value: CLIENT_SLOTS as u32 },
        StoreOp::PlainU32 { offset: H_CLIENT_SLOT_SIZE_FIELD as int, value: CLIENT_SLOT_SIZE as u32 },
    ] + (if keep_write_lock {
        seq![]
    } else {
        seq![StoreOp::AtomicU32 { offset: H_WRITE_LOCK as int, value: 0 }]
    }) + seq![
        StoreOp::AtomicU64 { offset: H_WRITE_SEQ as int, word: 0, seq_cst: false },
        StoreOp::AtomicU64 { offset: H_EPOCH as int, word: new_epoch, seq_cst: false },
        StoreOp::PlainU32 { offset: H_OWNER_PID as int, value: owner_pid },
    ] + clear_all_ops(CLIENT_SLOTS as int)
}

/// Writes a header, and empties the client table.  The write lock is released unless
/// `keep_write_lock` says that the caller holds it.
pub fn initialize_header_buf(im: &mut BusImage, keep_write_lock: bool, new_epoch: u64, owner_pid: u32)
    requires
        old(im).wf(),
    ensures
        final(im).wf(),
        final(im).base() == old(im).base(),
        final(im).plan() == old(im).plan() + init_ops(keep_write_lock, new_epoch, owner_pid),
        mem::same_outside(old(im).mem(), final(im).mem(), 0, HEADER_SIZE as int),
        just_started(final(im).mem(), new_epoch, owner_pid),
        lock_word(final(im).mem()) == (if keep_write_lock {
            lock_word(old(im).mem())
        } else {
            0
        }),
{
    let ghost m0 = im.mem();
    let ghost b0 = im.base();
    let ghost p0 = im.plan();
    im.store_u64(H_MAGIC, SHM_MAGIC, false);
    im.store_plain_u32(H_LAYOUT_VERSION, SHM_LAYOUT_VERSION);
    im.store_plain_u32(H_HEADER_SIZE_FIELD, HEADER_SIZE as u32);
    im.store_plain_u32(H_SLOT_SIZE_FIELD, SLOT_SIZE as u32);
    im.store_plain_u32(H_NUM_SLOTS_FIELD, NUM_SLOTS as u32);
    im.store_plain_u32(H_MAX_PAYLOAD_FIELD, MAX_PAYLOAD as u32);
    im.store_plain_u32(H_CLIENT_SLOTS_FIELD, CLIENT_SLOTS as u32);
    im.store_plain_u32(H_CLIENT_SLOT_SIZE_FIELD, CLIENT_SLOT_SIZE as u32);
    if !keep_write_lock {
        im.store_u32(H_WRITE_LOCK, 0);
    }
    im.store_u64(H_WRITE_SEQ, 0, false);
    im.store_u64(H_EPOCH, new_epoch, false);
    im.store_plain_u32(H_OWNER_PID, owner_pid);
    let ghost m1 = im.mem();
    let ghost p1 = im.plan();
    assert(forall|i: int| HEADER_SIZE <= i < m0.len() ==> m0[i] == #[trigger] m1[i]);
    assert(p1 + clear_all_ops(CLIENT_SLOTS as int) =~= p0 + init_ops(keep_write_lock, new_epoch, owner_pid));
    let mut index: usize = 0;
    assert(im.plan() =~= p1 + clear_all_ops(0));
    while index < CLIENT_SLOTS
        invariant
            im.wf(),
            im.base() == b0,
            index <= CLIENT_SLOTS,
            im.plan() == p1 + clear_all_ops(index as int),
            clients::only_clients_changed(m1, im.mem()),
            forall|j: int| 0 <= j < index ==> #[trigger] clients::table(im.mem())[j] == clients::empty_client(),
        decreases CLIENT_SLOTS - index,
    {
        let ghost t = clients::table(im.mem());
        let _ = clients::clear_client_slot(im, index);
        assert(forall|j: int| 0 <= j < index ==> #[trigger] clients::table(im.mem())[j] == t[j]);
        assert(im.plan() =~= p1 + clear_all_ops(index + 1));
        index = index + 1;
    }
    proof {
        assert(clients::table(im.mem()) =~= no_clients());
        mem::lemma_same_outside_words(m1, im.mem(), 64, HEADER_SIZE as int);
        assert forall|i: int| HEADER_SIZE <= i < m0.len() implies #[trigger] m0[i] == im.mem()[i] by {
            assert(m1[i] == im.mem()[i]);
        }
    }
}

/// The stores that blank a new mapping and make it a bus.
pub open spec fn overwrite_ops(new_epoch: u64, owner_pid: u32) -> Seq<StoreOp> {
    seq![StoreOp::Zero { offset: 0, len: SHM_TOTAL as nat }] + init_ops(false, new_epoch, owner_pid)
}

/// Makes a new mapping a bus.  Everything is blanked first, so that no slot holds an event
/// before the header says that there is a bus.
pub fn overwrite_shmem_contents(im: &mut BusImage, new_epoch: u64, owner_pid: u32)
    requires
        old(im).wf(),
    ensures
        final(im).wf(),
        final(im).base() == old(im).base(),
        final(im).plan() == old(im).plan() + overwrite_ops(new_epoch, owner_pid),
        just_started(final(im).mem(), new_epoch, owner_pid),
        lock_word(final(im).mem()) == 0,
        ring_is_blank(final(im).mem()),
{
    let ghost p = im.plan();
    im.store_zeros(0, SHM_TOTAL);
    let ghost m = im.mem();
    assert(forall|i: int| 0 <= i < m.len() && i < SHM_TOTAL ==> #[trigger] m[i] == 0);
    initialize_header_buf(im, false, new_epoch, owner_pid);
    assert(im.plan() =~= p + overwrite_ops(new_epoch, owner_pid));
    assert forall|i: int| HEADER_SIZE <= i < im.mem().len() && i < SHM_TOTAL implies #[trigger] im.mem()[i] == 0 by {
        assert(m[i] == 0);
    }
}

/// The stores that start a bus over under its write lock.
pub open spec fn reset_ops(new_epoch: u64, owner_pid: u32) -> Seq<StoreOp> {
    seq![
        StoreOp::Zero { offset: 0, len: H_WRITE_LOCK as nat },
        StoreOp::Zero { offset: H_WRITE_SEQ as int, len: (SHM_TOTAL - H_WRITE_SEQ) as nat },
    ] + init_ops(true, new_epoch, owner_pid)
}

/// Starts a bus over.  The write lock keeps its value throughout, so that no other process
/// slips in between and sees half a header.  A bus ends at `SHM_TOTAL`: what a longer mapping
/// holds past that stays as it is.
pub fn reset_bus_contents_under_lock(im: &mut BusImage, new_epoch: u64, owner_pid: u32)
    requires
        old(im).wf(),
    ensures
        final(im).wf(),
        final(im).base() == old(im).base(),
        final(im).plan() == old(im).plan() + reset_ops(new_epoch, owner_pid),
        just_started(final(im).mem(), new_epoch, owner_pid),
        lock_word(final(im).mem()) == lock_word(old(im).mem()),
        ring_is_blank(final(im).mem()),
{
    let ghost p = im.plan();
    im.store_zeros(0, H_WRITE_LOCK);
    im.store_zeros(H_WRITE_SEQ, SHM_TOTAL - H_WRITE_SEQ);
    let ghost m = im.mem();
    assert(forall|i: int| HEADER_SIZE <= i < m.len() && i < SHM_TOTAL ==> #[trigger] m[i] == 0);
    initialize_header_buf(im, true, new_epoch, owner_pid);
    assert(im.plan() =~= p + reset_ops(new_epoch, owner_pid));
    assert forall|i: int| HEADER_SIZE <= i < im.mem().len() && i < SHM_TOTAL implies #[trigger] im.mem()[i] == 0 by {
        assert(m[i] == 0);
    }
}

/// The client table that a publisher finds once it took over an existing bus: cleaned, or
/// empty where nobody was left.
pub open spec fn taken_over(m: Seq<u8>, probe: Probe) -> Seq<clients::ClientSlot> {
    if probe.live(clients::table(m)) == 0 {
        no_clients()
    } else {
        probe.cleaned(clients::table(m))
    }
}

/// Takes over an existing bus for a publisher.  The entries that were left behind are
/// cleared; where that leaves nobody, the bus starts over; then the publisher is entered.
/// `found` is what was observed when the table was first looked through, `entered` what was
/// observed on registration.  The caller holds the write lock.
pub fn claim_for_publisher_locked(
    im: &mut BusImage,
    instance_id: u64,
    new_epoch: u64,
    found: &Probe,
    entered: &Probe,
) -> (result: Result<ShmemClientRegistration, BusError>)
    requires
        old(im).wf(),
    ensures
        final(im).wf(),
        final(im).base() == old(im).base(),
        (clients::table(final(im).mem()), result) == clients::registered(
            entered.cleaned(taken_over(old(im).mem(), *found)),
            CLIENT_ROLE_PUBLISHER,
            instance_id,
            entered.now_ms,
            entered.pid,
        ),
        found.live(clients::table(old(im).mem())) > 0 ==> clients::only_clients_changed(
            old(im).mem(),
            final(im).mem(),
        ),
        found.live(clients::table(old(im).mem())) == 0 ==> {
            &&& compatible(final(im).mem())
            &&& write_seq(final(im).mem()) == 0
            &&& epoch(final(im).mem()) == new_epoch
            &&& mem::u32_at(final(im).mem(), H_OWNER_PID as int) == found.pid
            &&& ring_is_blank(final(im).mem())
        },
        lock_word(final(im).mem()) == lock_word(old(im).mem()),
        final(im).plan() == old(im).plan() + found.cleanup_ops(
            clients::table(old(im).mem()),
            CLIENT_SLOTS as int,
        ) + (if found.live(clients::table(old(im).mem())) == 0 {
            reset_ops(new_epoch, found.pid)
        } else {
            seq![]
        }) + entered.cleanup_ops(taken_over(old(im).mem(), *found), CLIENT_SLOTS as int)
            + clients::register_ops(
            entered.cleaned(taken_over(old(im).mem(), *found)),
            CLIENT_ROLE_PUBLISHER,
            instance_id,
            entered.now_ms,
            entered.pid,
        ),
{
    let ghost m0 = im.mem();
    let active: usize = clients::cleanup_stale_clients_locked(im, found);
    let ghost p1 = im.plan();
    proof {
        mem::lemma_same_outside_words(m0, im.mem(), 64, HEADER_SIZE as int);
    }
    if active == 0 {
        reset_bus_contents_under_lock(im, new_epoch, found.pid);
    } else {
        assert(im.plan() =~= p1 + Seq::<StoreOp>::empty());
    }
    let ghost m1 = im.mem();
    let result = clients::register_client_locked(im, CLIENT_ROLE_PUBLISHER, instance_id, entered);
    proof {
        mem::lemma_same_outside_words(m1, im.mem(), 64, HEADER_SIZE as int);
        if active == 0 {
            assert forall|i: int| HEADER_SIZE <= i < im.mem().len() && i < SHM_TOTAL implies #[trigger] im.mem()[i]
                == 0 by {
                assert(m1[i] == 0);
            }
        } else {
            assert forall|i: int| 0 <= i < m0.len() && !(64 <= i < HEADER_SIZE) implies #[trigger] m0[i]
                == im.mem()[i] by {
                assert(m1[i] == m0[i]);
            }
        }
    }
    result
}

/// A word of the header, by where it stands and how it is to be read.
#[derive(Debug, Clone, Copy, PartialEq, Eq)]
pub enum HeaderWord {
    Atomic32 { offset: usize },
    Atomic64 { offset: usize },
    Plain32 { offset: usize },
}

impl HeaderWord {
    /// Whether the word is the same in both memories.
    pub open spec fn agrees(self, m: Seq<u8>, n: Seq<u8>) -> bool {
        match self {
            HeaderWord::Atomic32 { offset } => mem::u32_at(m, offset as int) == mem::u32_at(n, offset as int),
            HeaderWord::Atomic64 { offset } => mem::u64_at(m, offset as int) == mem::u64_at(n, offset as int),
            HeaderWord::Plain32 { offset } => mem::u32_at(m, offset as int) == mem::u32_at(n, offset as int),
        }
    }
}

/// The words of entry `i` of the client table.
pub open spec fn client_words(i: int) -> Seq<HeaderWord> {
    let o = layout::client_offset(i);
    seq![
        HeaderWord::Atomic32 { offset: (o + C_ROLE) as usize },
        HeaderWord::Atomic32 { offset: (o + C_PID) as usize },
        HeaderWord::Atomic32 { offset: (o + C_REFCOUNT) as usize },
        HeaderWord::Atomic64 { offset: (o + C_INSTANCE_ID) as usize },
        HeaderWord::Atomic64 { offset: (o + C_HEARTBEAT_MS) as usize },
    ]
}

/// The words of the header before the client table.
pub open spec fn fixed_words() -> Seq<HeaderWord> {
    seq![
        HeaderWord::Atomic64 { offset: H_MAGIC },
        HeaderWord::Plain32 { offset: H_LAYOUT_VERSION },
        HeaderWord::Plain32 { offset: H_HEADER_SIZE_FIELD },
        HeaderWord::Plain32 { offset: H_SLOT_SIZE_FIELD },
        HeaderWord::Plain32 { offset: H_NUM_SLOTS_FIELD },
        HeaderWord::Plain32 { offset: H_MAX_PAYLOAD_FIELD },
        HeaderWord::Atomic32 { offset: H_WRITE_LOCK },
        HeaderWord::Atomic64 { offset: H_WRITE_SEQ },
        HeaderWord::Atomic64 { offset: H_EPOCH },
        HeaderWord::Plain32 { offset: H_OWNER_PID },
        HeaderWord::Plain32 { offset: H_CLIENT_SLOTS_FIELD },
        HeaderWord::Plain32 { offset: H_CLIENT_SLOT_SIZE_FIELD },
    ]
}

/// The words of the header up to entry `n` of the client table.
pub open spec fn words_before(n: int) -> Seq<HeaderWord>
    decreases n,
{
    if n <= 0 {
        fixed_words()
    } else {
        words_before(n - 1) + client_words(n - 1)
    }
}

/// The words of the header, in order.
pub fn header_words() -> (words: Vec<HeaderWord>)
    ensures
        words@ == words_before(CLIENT_SLOTS as int),
{
    let mut words: Vec<HeaderWord> = Vec::new();
    words.push(HeaderWord::Atomic64 { offset: H_MAGIC });
    words.push(HeaderWord::Plain32 { offset: H_LAYOUT_VERSION });
    words.push(HeaderWord::Plain32 { offset: H_HEADER_SIZE_FIELD });
    words.push(HeaderWord::Plain32 { offset: H_SLOT_SIZE_FIELD });
    words.push(HeaderWord::Plain32 { offset: H_NUM_SLOTS_FIELD });
    words.push(HeaderWord::Plain32 { offset: H_MAX_PAYLOAD_FIELD });
    words.push(HeaderWord::Atomic32 { offset: H_WRITE_LOCK });
    words.push(HeaderWord::Atomic64 { offset: H_WRITE_SEQ });
    words.push(HeaderWord::Atomic64 { offset: H_EPOCH });
    words.push(HeaderWord::Plain32 { offset: H_OWNER_PID });
    words.push(HeaderWord::Plain32 { offset: H_CLIENT_SLOTS_FIELD });
    words.push(HeaderWord::Plain32 { offset: H_CLIENT_SLOT_SIZE_FIELD });
    assert(words@ =~= words_before(0));
    let mut index: usize = 0;
    while index < CLIENT_SLOTS
        invariant
            index <= CLIENT_SLOTS,
            words@ == words_before(index as int),
        decreases CLIENT_SLOTS - index,
    {
        let o: usize = H_CLIENT_TABLE + index * CLIENT_SLOT_SIZE;
        words.push(HeaderWord::Atomic32 { offset: o + C_ROLE });
        words.push(HeaderWord::Atomic32 { offset: o + C_PID });
        words.push(HeaderWord::Atomic32 { offset: o + C_REFCOUNT });
        words.push(HeaderWord::Atomic64 { offset: o + C_INSTANCE_ID });
        words.push(HeaderWord::Atomic64 { offset: o + C_HEARTBEAT_MS });
        assert(words@ =~= words_before(index as int) + client_words(index as int));
        index = index + 1;
    }
    words
}

proof fn lemma_client_words(n: int, i: int, k: int)
    requires
        0 <= i < n,
        0 <= k < 5,
    ensures
        words_before(n).contains(client_words(i)[k]),
    decreases n,
{
    let before = words_before(n - 1);
    let own = client_words(n - 1);
    if i == n - 1 {
        assert((before + own)[before.len() + k] == own[k]);
    } else {
        lemma_client_words(n - 1, i, k);
        let j = choose|j: int| 0 <= j < before.len() && before[j] == client_words(i)[k];
        assert((before + own)[j] == client_words(i)[k]);
    }
}

proof fn lemma_fixed_words(n: int, k: int)
    requires
        0 <= n,
        0 <= k < fixed_words().len(),
    ensures
        words_before(n).contains(fixed_words()[k]),
    decreases n,
{
    if n > 0 {
        lemma_fixed_words(n - 1, k);
        let before = words_before(n - 1);
        let j = choose|j: int| 0 <= j < before.len() && before[j] == fixed_words()[k];
        assert((before + client_words(n - 1))[j] == fixed_words()[k]);
    } else {
        assert(fixed_words().contains(fixed_words()[k]));
    }
}

/// Law: what the rules read of a header is in its words.  Two memories that agree on them have
/// the same layout, number of the last event, epoch, owner, write lock and client table.
pub proof fn header_is_its_words(m: Seq<u8>, n: Seq<u8>)
    requires
        forall|w: HeaderWord| #[trigger] words_before(CLIENT_SLOTS as int).contains(w) ==> w.agrees(m, n),
    ensures
        mem::u64_at(m, H_MAGIC as int) == mem::u64_at(n, H_MAGIC as int),
        recorded_layout(m) == recorded_layout(n),
        write_seq(m) == write_seq(n),
        epoch(m) == epoch(n),
        mem::u32_at(m, H_OWNER_PID as int) == mem::u32_at(n, H_OWNER_PID as int),
        lock_word(m) == lock_word(n),
        clients::table(m) == clients::table(n),
{
    assert forall|k: int| 0 <= k < fixed_words().len() implies (#[trigger] fixed_words()[k]).agrees(m, n) by {
        lemma_fixed_words(CLIENT_SLOTS as int, k);
    }
    assert(fixed_words()[0].agrees(m, n) && fixed_words()[1].agrees(m, n) && fixed_words()[2].agrees(m, n)
        && fixed_words()[3].agrees(m, n) && fixed_words()[4].agrees(m, n) && fixed_words()[5].agrees(m, n)
        && fixed_words()[6].agrees(m, n) && fixed_words()[7].agrees(m, n) && fixed_words()[8].agrees(m, n)
        && fixed_words()[9].agrees(m, n) && fixed_words()[10].agrees(m, n) && fixed_words()[11].agrees(m, n));
    assert forall|i: int| 0 <= i < CLIENT_SLOTS implies clients::table(m)[i] == #[trigger] clients::table(n)[i] by {
        let own = client_words(i);
        lemma_client_words(CLIENT_SLOTS as int, i, 0);
        lemma_client_words(CLIENT_SLOTS as int, i, 1);
        lemma_client_words(CLIENT_SLOTS as int, i, 2);
        lemma_client_words(CLIENT_SLOTS as int, i, 3);
        lemma_client_words(CLIENT_SLOTS as int, i, 4);
        assert(own[0].agrees(m, n) && own[1].agrees(m, n) && own[2].agrees(m, n) && own[3].agrees(m, n)
            && own[4].agrees(m, n));
    }
    assert(clients::table(m) =~= clients::table(n));
}

/// Law: a mapping is a bus of this layout exactly if its magic number and each of the seven
/// sizes that it records are the right ones, at their places; any other value of any of them
/// makes it none.
pub proof fn every_size_counts(m: Seq<u8>)
    ensures
        compatible(m) <==> {
            &&& mem::u64_at(m, 0) == 0x5255_5354_4556_4255
            &&& mem::u32_at(m, 8) == 1
            &&& mem::u32_at(m, 12) == 8_256
            &&& mem::u32_at(m, 16) == 4_112
            &&& mem::u32_at(m, 20) == 16_384
            &&& mem::u32_at(m, 24) == 4_096
            &&& mem::u32_at(m, 52) == 128
            &&& mem::u32_at(m, 56) == 64
        },
        recorded_layout(m).version == mem::u32_at(m, 8),
        recorded_layout(m).header_size == mem::u32_at(m, 12),
        recorded_layout(m).slot_size == mem::u32_at(m, 16),
        recorded_layout(m).num_slots == mem::u32_at(m, 20),
        recorded_layout(m).max_payload == mem::u32_at(m, 24),
        recorded_layout(m).client_slots == mem::u32_at(m, 52),
        recorded_layout(m).client_slot_size == mem::u32_at(m, 56),
        lock_word(m) == mem::u32_at(m, 28),
        write_seq(m) == mem::u64_at(m, 32),
        epoch(m) == mem::u64_at(m, 40),
{
}

/// Law: a mapping that is refused is refused for its magic number where that is another one,
/// and else for its sizes, which the error names; a bus of this layout is never refused.
pub proof fn refusals_name_what_was_found(m: Seq<u8>, shm_name: Seq<char>, error: BusError)
    requires
        refuses(m, shm_name, error),
    ensures
        !compatible(m),
        mem::u64_at(m, 0) != 0x5255_5354_4556_4255 ==> match error {
            BusError::MagicMismatch { name, magic } => name@ == shm_name && magic == mem::u64_at(m, 0),
            _ => false,
        },
        mem::u64_at(m, 0) == 0x5255_5354_4556_4255 ==> match error {
            BusError::LayoutMismatch { name, found } => name@ == shm_name && found == recorded_layout(m),
            _ => false,
        },
{
}

/// Law: a bus that just started can be used, has no event and no client, and carries its new
/// epoch and owner.
pub proof fn started_bus_is_empty(m: Seq<u8>, new_epoch: u64, owner_pid: u32, i: int)
    requires
        just_started(m, new_epoch, owner_pid),
        0 <= i < CLIENT_SLOTS,
    ensures
        compatible(m),
        mem::u64_at(m, 32) == 0,
        mem::u64_at(m, 40) == new_epoch,
        mem::u32_at(m, 48) == owner_pid,
        clients::table(m)[i] == (clients::ClientSlot {
            role: 0,
            pid: 0,
            refcount: 0,
            instance_id: 0,
            heartbeat_ms: 0,
        }),
{
    assert(clients::table(m)[i] == no_clients()[i]);
}

/// Law: the table that a publisher finds when it takes over a bus is the cleaned one where that
/// leaves a client, and an empty one otherwise.
pub proof fn takeover_keeps_live_clients(m: Seq<u8>, probe: Probe, i: int)
    requires
        0 <= i < CLIENT_SLOTS,
    ensures
        taken_over(m, probe).len() == CLIENT_SLOTS,
        probe.live(clients::table(m)) > 0 ==> taken_over(m, probe)[i] == probe.cleaned(clients::table(m))[i],
        probe.live(clients::table(m)) == 0 ==> taken_over(m, probe)[i].role == 0,
{
}

/// Whether a store leaves the word of the write lock alone.
pub open spec fn spares_lock(op: StoreOp) -> bool {
    op.start() + op.data().len() <= 28 || 32 <= op.start()
}

proof fn lemma_clear_all(n: int)
    requires
        0 <= n <= CLIENT_SLOTS,
    ensures
        forall|k: int|
            0 <= k < clear_all_ops(n).len() ==> {
                &&& 64 <= (#[trigger] clear_all_ops(n)[k]).start()
                &&& clear_all_ops(n)[k].start() + clear_all_ops(n)[k].data().len() <= HEADER_SIZE
            },
    decreases n,
{
    if n > 0 {
        lemma_clear_all(n - 1);
        let front = clear_all_ops(n - 1);
        assert forall|k: int| 0 <= k < clear_all_ops(n).len() implies 64 <= (#[trigger] clear_all_ops(
            n,
        )[k]).start() && clear_all_ops(n)[k].start() + clear_all_ops(n)[k].data().len() <= HEADER_SIZE by {
            if k < front.len() {
                assert(clear_all_ops(n)[k] == front[k]);
            } else {
                assert(clear_all_ops(n)[k] == clients::clear_ops(n - 1)[k - front.len()]);
            }
        }
    }
}

/// Law: a bus that starts over under its write lock never touches the lock, so that nobody
/// slips in meanwhile.
pub proof fn reset_never_touches_the_lock(new_epoch: u64, owner_pid: u32, k: int)
    requires
        0 <= k < reset_ops(new_epoch, owner_pid).len(),
    ensures
        spares_lock(reset_ops(new_epoch, owner_pid)[k]),
{
    let clears = clear_all_ops(CLIENT_SLOTS as int);
    lemma_clear_all(CLIENT_SLOTS as int);
    let ops = reset_ops(new_epoch, owner_pid);
    if k >= 13 {
        assert(ops[k] == clears[k - 13]);
    }
}

/// Law: two buses that start at different times in one process, or at the same time in two
/// processes, have different epochs; and so have clients their instance numbers.
pub proof fn epochs_and_instances_differ(
    nanos_a: u64,
    nanos_b: u64,
    pid_a: u32,
    pid_b: u32,
    role: u32,
)
    requires
        nanos_a != nanos_b && pid_a == pid_b || nanos_a == nanos_b && pid_a != pid_b,
    ensures
        epoch_number(nanos_a, pid_a) != epoch_number(nanos_b, pid_b),
        instance_number(nanos_a, pid_a, role) != instance_number(nanos_b, pid_b, role),
{
    assert(nanos_a ^ ((pid_a as u64) << 17u64) ^ 0x9E37_79B9_7F4A_7C15u64 != nanos_b ^ ((pid_b as u64) << 17u64)
        ^ 0x9E37_79B9_7F4A_7C15u64) by (bit_vector)
        requires
            nanos_a != nanos_b && pid_a == pid_b || nanos_a == nanos_b && pid_a != pid_b,
    ;
    assert(nanos_a ^ ((pid_a as u64) << 17u64) ^ ((role as u64) << 56u64) ^ 0xD6E8_FD9A_7A4C_15F3u64 != nanos_b ^ ((
    pid_b as u64) << 17u64) ^ ((role as u64) << 56u64) ^ 0xD6E8_FD9A_7A4C_15F3u64) by (bit_vector)
        requires
            nanos_a != nanos_b && pid_a == pid_b || nanos_a == nanos_b && pid_a != pid_b,
    ;
}

/// Law: the words of a header that other processes change while it is read are read atomically:
/// the magic number, the write lock, the number of the last event, the epoch, and every word of
/// every client.
pub proof fn changing_words_are_read_atomically(i: int)
    requires
        0 <= i < CLIENT_SLOTS,
    ensures
        ({
            let words = words_before(CLIENT_SLOTS as int);
            let o = 64 + 64 * i;
            &&& words.contains(HeaderWord::Atomic64 { offset: 0 })
            &&& words.contains(HeaderWord::Atomic32 { offset: 28 })
            &&& words.contains(HeaderWord::Atomic64 { offset: 32 })
            &&& words.contains(HeaderWord::Atomic64 { offset: 40 })
            &&& words.contains(HeaderWord::Atomic32 { offset: o as usize })
            &&& words.contains(HeaderWord::Atomic32 { offset: (o + 4) as usize })
            &&& words.contains(HeaderWord::Atomic32 { offset: (o + 8) as usize })
            &&& words.contains(HeaderWord::Atomic64 { offset: (o + 16) as usize })
            &&& words.contains(HeaderWord::Atomic64 { offset: (o + 24) as usize })
        }),
{
    let n = CLIENT_SLOTS as int;
    lemma_fixed_words(n, 0);
    lemma_fixed_words(n, 6);
    lemma_fixed_words(n, 7);
    lemma_fixed_words(n, 8);
    lemma_client_words(n, i, 0);
    lemma_client_words(n, i, 1);
    lemma_client_words(n, i, 2);
    lemma_client_words(n, i, 3);
    lemma_client_words(n, i, 4);
}

/// Law: a bus is blanked before its header is written: the first stores blank the whole bus, but
/// for the write lock where that is held, and every later store stays within the header.
pub proof fn bus_is_blanked_first(new_epoch: u64, owner_pid: u32, i: int, k: int)
    requires
        0 <= i < SHM_TOTAL,
    ensures
        ({
            let new = overwrite_ops(new_epoch, owner_pid);
            let again = reset_ops(new_epoch, owner_pid);
            let blanks = |op: StoreOp| op is Zero && op.start() <= i < op.start() + op.data().len();
            &&& blanks(new[0])
            &&& !(28 <= i < 32) ==> blanks(again[0]) || blanks(again[1])
            &&& 1 <= k < new.len() ==> 0 <= new[k].start() && new[k].start() + new[k].data().len() <= 8_256
            &&& 2 <= k < again.len() ==> 0 <= again[k].start() && again[k].start() + again[k].data().len() <= 8_256
        }),
{
    let clears = clear_all_ops(CLIENT_SLOTS as int);
    lemma_clear_all(CLIENT_SLOTS as int);
    let new = overwrite_ops(new_epoch, owner_pid);
    let again = reset_ops(new_epoch, owner_pid);
    if 13 <= k < new.len() {
        assert(new[k] == clears[k - 13]);
    }
    if 13 <= k < again.len() {
        assert(again[k] == clears[k - 13]);
    }
}

} // verus!
