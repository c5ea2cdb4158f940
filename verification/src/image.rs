//! A local image of a mapping that records the stores made to it.
//!
//! The rules of the bus read from an image and write to it.  Every write is recorded, in
//! order and with the strength it needs, so that the mapping itself can be brought to the
//! same state by the same stores.
use vstd::prelude::*;

use crate::layout::HEADER_SIZE;
use crate::mem;

verus! {

broadcast use crate::mem::group_mem;

/// One store into a mapping.
#[derive(Debug)]
pub enum Store {
    /// An atomic 32-bit store with release strength.
    AtomicU32 { offset: usize, value: u32 },
    /// An atomic 64-bit store, sequentially consistent where `seq_cst` says so, else with
    /// release strength.
    AtomicU64 { offset: usize, word: u64, seq_cst: bool },
    /// A plain little-endian 32-bit store.
    PlainU32 { offset: usize, value: u32 },
    /// A plain copy of bytes.
    Bytes { offset: usize, bytes: Vec<u8> },
    /// A run of zero bytes.
    Zero { offset: usize, len: usize },
}

/// What a store does, as a mathematical value.
pub enum StoreOp {
    AtomicU32 { offset: int, value: u32 },
    AtomicU64 { offset: int, word: u64, seq_cst: bool },
    PlainU32 { offset: int, value: u32 },
    Bytes { offset: int, bytes: Seq<u8> },
    Zero { offset: int, len: nat },
}

impl View for Store {
    type V = StoreOp;

    open spec fn view(&self) -> StoreOp {
        match *self {
            Store::AtomicU32 { offset, value } => StoreOp::AtomicU32 { offset: offset as int, value },
            Store::AtomicU64 { offset, word, seq_cst } => StoreOp::AtomicU64 {
                offset: offset as int,
                word,
                seq_cst,
            },
            Store::PlainU32 { offset, value } => StoreOp::PlainU32 { offset: offset as int, value },
            Store::Bytes { offset, bytes } => StoreOp::Bytes { offset: offset as int, bytes: bytes@ },
            Store::Zero { offset, len } => StoreOp::Zero { offset: offset as int, len: len as nat },
        }
    }
}

impl StoreOp {
    /// First byte that the store writes.
    pub open spec fn start(self) -> int {
        match self {
            StoreOp::AtomicU32 { offset, .. } => offset,
            StoreOp::AtomicU64 { offset, .. } => offset,
            StoreOp::PlainU32 { offset, .. } => offset,
            StoreOp::Bytes { offset, .. } => offset,
            StoreOp::Zero { offset, .. } => offset,
        }
    }

    /// The bytes that the store writes.
    pub open spec fn data(self) -> Seq<u8> {
        match self {
            StoreOp::AtomicU32 { value, .. } => mem::u32_bytes(value),
            StoreOp::AtomicU64 { word, .. } => mem::u64_bytes(word),
            StoreOp::PlainU32 { value, .. } => mem::u32_bytes(value),
            StoreOp::Bytes { bytes, .. } => bytes,
            StoreOp::Zero { len, .. } => Seq::new(len, |i: int| 0u8),
        }
    }

    /// Whether another process sees the store as a whole or not at all.
    pub open spec fn is_atomic(self) -> bool {
        self is AtomicU32 || self is AtomicU64
    }
}

/// `m` after the store `op`.
pub open spec fn apply(m: Seq<u8>, op: StoreOp) -> Seq<u8> {
    mem::put(m, op.start(), op.data())
}

/// `m` after the stores `ops`, first to last.
pub open spec fn replay(m: Seq<u8>, ops: Seq<StoreOp>) -> Seq<u8>
    decreases ops.len(),
{
    if ops.len() == 0 {
        m
    } else {
        apply(replay(m, ops.drop_last()), ops.last())
    }
}

pub broadcast proof fn lemma_replay_push(m: Seq<u8>, ops: Seq<StoreOp>, op: StoreOp)
    ensures
        #[trigger] replay(m, ops.push(op)) == apply(replay(m, ops), op),
{
    assert(ops.push(op).drop_last() =~= ops);
}

pub broadcast proof fn lemma_replay_len(m: Seq<u8>, ops: Seq<StoreOp>)
    ensures
        #[trigger] replay(m, ops).len() == m.len(),
    decreases ops.len(),
{
    if ops.len() > 0 {
        lemma_replay_len(m, ops.drop_last());
    }
}

/// Stores replay piece by piece.
pub proof fn lemma_replay_add(m: Seq<u8>, a: Seq<StoreOp>, b: Seq<StoreOp>)
    ensures
        replay(m, a + b) == replay(replay(m, a), b),
    decreases b.len(),
{
    if b.len() == 0 {
        assert(a + b =~= a);
    } else {
        lemma_replay_add(m, a, b.drop_last());
        assert((a + b).drop_last() =~= a + b.drop_last());
    }
}

/// Law: an image of the first bytes of a mapping stays an image of its first bytes.  The
/// stores that an image recorded bring every mapping that starts with the image's old
/// bytes to one that starts with its new bytes.
pub proof fn replay_keeps_prefix(m: Seq<u8>, n: int, ops: Seq<StoreOp>)
    requires
        0 <= n <= m.len(),
    ensures
        replay(m, ops).take(n) == replay(m.take(n), ops),
    decreases ops.len(),
{
    if ops.len() > 0 {
        replay_keeps_prefix(m, n, ops.drop_last());
        lemma_replay_len(m, ops.drop_last());
        lemma_replay_len(m.take(n), ops.drop_last());
        let a = replay(m, ops.drop_last());
        let b = replay(m.take(n), ops.drop_last());
        let op = ops.last();
        assert forall|i: int| 0 <= i < n implies apply(a, op).take(n)[i] == #[trigger] apply(b, op)[i] by {
            assert(a.take(n)[i] == b[i]);
            assert(apply(a, op)[i] == apply(a, op).take(n)[i]);
        }
        assert(apply(a, op).take(n) =~= apply(b, op));
    }
}

fn write_bytes(v: &mut Vec<u8>, offset: usize, d: &Vec<u8>)
    requires
        offset + d@.len() <= usize::MAX,
    ensures
        final(v)@ == mem::put(old(v)@, offset as int, d@),
{
    let ghost before = v@;
    let mut i: usize = 0;
    while i < d.len() && offset + i < v.len()
        invariant
            offset + d@.len() <= usize::MAX,
            i <= d@.len(),
            v@.len() == before.len(),
            v@ =~= mem::put(before, offset as int, d@.take(i as int)),
        decreases d@.len() - i,
    {
        v.set(offset + i, d[i]);
        i = i + 1;
    }
    assert(v@ =~= mem::put(before, offset as int, d@));
}

fn write_zeros(v: &mut Vec<u8>, offset: usize, len: usize)
    requires
        offset + len <= usize::MAX,
    ensures
        final(v)@ == mem::put(old(v)@, offset as int, Seq::new(len as nat, |i: int| 0u8)),
{
    let ghost before = v@;
    let mut i: usize = 0;
    while i < len && offset + i < v.len()
        invariant
            offset + len <= usize::MAX,
            i <= len,
            v@.len() == before.len(),
            v@ =~= mem::put(before, offset as int, Seq::new(i as nat, |k: int| 0u8)),
        decreases len - i,
    {
        v.set(offset + i, 0u8);
        i = i + 1;
    }
    assert(v@ =~= mem::put(before, offset as int, Seq::new(len as nat, |k: int| 0u8)));
}

/// An image of a mapping, or of the first part of it that holds the header.
pub struct BusImage {
    bytes: Vec<u8>,
    stores: Vec<Store>,
    base: Ghost<Seq<u8>>,
}

impl BusImage {
    /// The bytes of the image as they are now.
    pub closed spec fn mem(self) -> Seq<u8> {
        self.bytes@
    }

    /// The bytes that the image was made from.
    pub closed spec fn base(self) -> Seq<u8> {
        self.base@
    }

    /// The stores made since, first to last.
    pub closed spec fn plan(self) -> Seq<StoreOp> {
        self.stores@.map_values(|s: Store| s@)
    }

    /// The image holds a header, and its bytes are what its stores made of those it began
    /// with.
    pub open spec fn wf(self) -> bool {
        &&& self.mem().len() >= HEADER_SIZE
        &&& self.mem() == replay(self.base(), self.plan())
    }

    /// An image of a mapping that begins with `bytes`, or nothing where `bytes` cannot hold
    /// the header.
    pub fn new(bytes: Vec<u8>) -> (image: Option<BusImage>)
        ensures
            image is Some <==> bytes@.len() >= HEADER_SIZE,
            image matches Some(im) ==> im.wf() && im.mem() == bytes@ && im.base() == bytes@ && im.plan()
                == Seq::<StoreOp>::empty(),
    {
        if bytes.len() < HEADER_SIZE {
            None
        } else {
            let ghost base = bytes@;
            let image = BusImage { bytes, stores: Vec::new(), base: Ghost(base) };
            assert(image.plan() =~= Seq::<StoreOp>::empty());
            Some(image)
        }
    }

    /// The bytes of the image.
    pub fn bytes(&self) -> (bytes: &Vec<u8>)
        ensures
            bytes@ == self.mem(),
    {
        &self.bytes
    }

    /// The recorded stores, for the mapping to receive.
    pub fn into_stores(self) -> (stores: Vec<Store>)
        ensures
            stores@.map_values(|s: Store| s@) == self.plan(),
    {
        self.stores
    }

    /// Reads the 32-bit word at `offset`.
    pub fn load_u32(&self, offset: usize) -> (value: u32)
        requires
            offset + 4 <= self.mem().len(),
        ensures
            value == mem::u32_at(self.mem(), offset as int),
    {
        mem::le_u32(self.bytes.as_slice(), offset)
    }

    /// Reads the 64-bit word at `offset`.
    pub fn load_u64(&self, offset: usize) -> (value: u64)
        requires
            offset + 8 <= self.mem().len(),
        ensures
            value == mem::u64_at(self.mem(), offset as int),
    {
        mem::le_u64(self.bytes.as_slice(), offset)
    }

    /// Records `store` after its bytes went into the image.
    fn record(&mut self, store: Store)
        requires
            old(self).mem() == apply(replay(old(self).base(), old(self).plan()), store@),
        ensures
            final(self).mem() == old(self).mem(),
            final(self).base() == old(self).base(),
            final(self).plan() == old(self).plan().push(store@),
            final(self).mem() == replay(final(self).base(), final(self).plan()),
    {
        broadcast use lemma_replay_push;

        let ghost before = *self;
        self.stores.push(store);
        assert(self.plan() =~= before.plan().push(store@));
    }

    /// Stores a 32-bit word, atomically.
    pub fn store_u32(&mut self, offset: usize, value: u32)
        requires
            old(self).wf(),
            offset + 4 <= usize::MAX,
        ensures
            final(self).wf(),
            final(self).base() == old(self).base(),
            final(self).plan() == old(self).plan().push(
                StoreOp::AtomicU32 { offset: offset as int, value },
            ),
            final(self).mem() == mem::put(old(self).mem(), offset as int, mem::u32_bytes(value)),
    {
        write_bytes(&mut self.bytes, offset, &mem::u32_to_le(value));
        self.record(Store::AtomicU32 { offset, value });
    }

    /// Stores a 64-bit word, atomically.
    pub fn store_u64(&mut self, offset: usize, value: u64, seq_cst: bool)
        requires
            old(self).wf(),
            offset + 8 <= usize::MAX,
        ensures
            final(self).wf(),
            final(self).base() == old(self).base(),
            final(self).plan() == old(self).plan().push(
                StoreOp::AtomicU64 { offset: offset as int, word: value, seq_cst },
            ),
            final(self).mem() == mem::put(old(self).mem(), offset as int, mem::u64_bytes(value)),
    {
        write_bytes(&mut self.bytes, offset, &mem::u64_to_le(value));
        self.record(Store::AtomicU64 { offset, word: value, seq_cst });
    }

    /// Stores a 32-bit word, byte by byte.
    pub fn store_plain_u32(&mut self, offset: usize, value: u32)
        requires
            old(self).wf(),
            offset + 4 <= usize::MAX,
        ensures
            final(self).wf(),
            final(self).base() == old(self).base(),
            final(self).plan() == old(self).plan().push(
                StoreOp::PlainU32 { offset: offset as int, value },
            ),
            final(self).mem() == mem::put(old(self).mem(), offset as int, mem::u32_bytes(value)),
    {
        write_bytes(&mut self.bytes, offset, &mem::u32_to_le(value));
        self.record(Store::PlainU32 { offset, value });
    }

    /// Copies `bytes` to `offset`.
    pub fn store_bytes(&mut self, offset: usize, bytes: Vec<u8>)
        requires
            old(self).wf(),
            offset + bytes@.len() <= usize::MAX,
        ensures
            final(self).wf(),
            final(self).base() == old(self).base(),
            final(self).plan() == old(self).plan().push(
                StoreOp::Bytes { offset: offset as int, bytes: bytes@ },
            ),
            final(self).mem() == mem::put(old(self).mem(), offset as int, bytes@),
    {
        write_bytes(&mut self.bytes, offset, &bytes);
        self.record(Store::Bytes { offset, bytes });
    }

    /// Zeroes `len` bytes from `offset` on.
    pub fn store_zeros(&mut self, offset: usize, len: usize)
        requires
            old(self).wf(),
            offset + len <= usize::MAX,
        ensures
            final(self).wf(),
            final(self).base() == old(self).base(),
            final(self).plan() == old(self).plan().push(
                StoreOp::Zero { offset: offset as int, len: len as nat },
            ),
            final(self).mem() == mem::put(
                old(self).mem(),
                offset as int,
                Seq::new(len as nat, |i: int| 0u8),
            ),
    {
        write_zeros(&mut self.bytes, offset, len);
        self.record(Store::Zero { offset, len });
    }
}

/// Law: a store writes its bytes where it starts, as far as the mapping goes, and nothing else.
pub proof fn stores_write_only_their_bytes(m: Seq<u8>, op: StoreOp, i: int)
    requires
        0 <= i < m.len(),
    ensures
        apply(m, op).len() == m.len(),
        op.start() <= i < op.start() + op.data().len() ==> apply(m, op)[i] == op.data()[i - op.start()],
        i < op.start() || op.start() + op.data().len() <= i ==> apply(m, op)[i] == m[i],
{
}

/// Law: a store of a word leaves that word, a store of bytes leaves those bytes, and a store of
/// zeros leaves zeros.
pub proof fn stores_leave_what_they_wrote(m: Seq<u8>, offset: int, value: u32, word: u64, bytes: Seq<u8>, strong: bool)
    requires
        0 <= offset,
        offset + 8 <= m.len(),
        offset + bytes.len() <= m.len(),
    ensures
        mem::u32_at(apply(m, StoreOp::AtomicU32 { offset, value }), offset) == value,
        mem::u32_at(apply(m, StoreOp::PlainU32 { offset, value }), offset) == value,
        mem::u64_at(apply(m, StoreOp::AtomicU64 { offset, word, seq_cst: strong }), offset) == word,
        apply(m, StoreOp::Bytes { offset, bytes }).subrange(offset, offset + bytes.len()) == bytes,
        forall|i: int|
            offset <= i < offset + bytes.len() ==> #[trigger] apply(m, StoreOp::Zero { offset, len: bytes.len() })[i]
                == 0,
{
    assert(apply(m, StoreOp::Bytes { offset, bytes }).subrange(offset, offset + bytes.len()) =~= bytes);
}

} // verus!
