//! Laws of the ring: what subscribers can find, whatever publishers do at the same time.
use vstd::prelude::*;

use crate::clients;
use crate::clients::ShmemClientRegistration;
use crate::errors::BusError;
use crate::header;
use crate::image;
use crate::image::StoreOp;
use crate::layout;
use crate::layout::{
    CLIENT_SLOTS, HEADER_SIZE, H_EPOCH, H_WRITE_SEQ, MAX_PAYLOAD, NUM_SLOTS, NUM_SLOTS_U64,
    SHM_TOTAL, SLOT_SEQ_INVALID, SLOT_SIZE, S_DATA, S_SEQ, S_SIZE,
};
use crate::mem;
use crate::ring;

verus! {

broadcast use {crate::mem::group_mem, crate::image::lemma_replay_len};

/// Where a bus stands in the stores that are made to it.
pub struct Traffic {
    /// Number of the last event at the time from which on the stores are followed.
    pub first: u64,
    /// The events published since, oldest first.
    pub log: Seq<Seq<u8>>,
    /// How far the event that is being published has come.
    pub stage: int,
    /// Size of the event that is being published.
    pub size: u32,
    /// The event that is being published.
    pub payload: Seq<u8>,
}

impl Traffic {
    /// Number of the newest event that a slot carries.
    pub open spec fn newest(self) -> int {
        self.first + self.log.len()
    }

    /// Number of the next event.
    pub open spec fn next_seq(self) -> u64 {
        (self.newest() + 1) as u64
    }

    /// Whether a store stays within the header and off the number of the last event.  The
    /// stores of registration, release and heartbeats are of this kind.
    pub open spec fn is_header_store(op: StoreOp) -> bool {
        ||| 0 <= op.start() && op.start() + op.data().len() <= H_WRITE_SEQ
        ||| H_EPOCH <= op.start() && op.start() + op.data().len() <= HEADER_SIZE
    }

    /// Where the bus stands after one more store, if that store may come next.  Publishers
    /// hold the write lock, so their stores never mix; header stores may come at any time.
    pub open spec fn step(self, op: StoreOp) -> Option<Traffic> {
        let o = layout::slot_offset(self.next_seq());
        if Self::is_header_store(op) {
            Some(self)
        } else if self.stage == 0 {
            if self.newest() < u64::MAX && op == (StoreOp::AtomicU64 {
                offset: o + S_SEQ,
                word: SLOT_SEQ_INVALID,
                seq_cst: true,
            }) {
                Some(Traffic { stage: 1, ..self })
            } else {
                None
            }
        } else if self.stage == 1 {
            match op {
                StoreOp::PlainU32 { offset, value } => if offset == o + S_SIZE && 1 <= value <= MAX_PAYLOAD {
                    Some(Traffic { stage: 2, size: value, ..self })
                } else {
                    None
                },
                _ => None,
            }
        } else if self.stage == 2 {
            match op {
                StoreOp::Bytes { offset, bytes } => if offset == o + S_DATA && bytes.len() == self.size {
                    Some(Traffic { stage: 3, payload: bytes, ..self })
                } else {
                    None
                },
                _ => None,
            }
        } else if self.stage == 3 {
            if op == (StoreOp::AtomicU64 { offset: o + S_SEQ, word: self.next_seq(), seq_cst: false }) {
                Some(Traffic { stage: 4, log: self.log.push(self.payload), ..self })
            } else {
                None
            }
        } else {
            if op == (StoreOp::AtomicU64 {
                offset: H_WRITE_SEQ as int,
                word: self.newest() as u64,
                seq_cst: false,
            }) {
                Some(Traffic { stage: 0, ..self })
            } else {
                None
            }
        }
    }

    /// Where the bus stands after the stores `ops`, if they may come in this order.
    pub open spec fn run(self, ops: Seq<StoreOp>) -> Option<Traffic>
        decreases ops.len(),
    {
        if ops.len() == 0 {
            Some(self)
        } else {
            match self.run(ops.drop_last()) {
                Some(t) => t.step(ops.last()),
                None => None,
            }
        }
    }

    /// The slot at ring position `k` is consistent with the traffic.
    pub open spec fn slot_ok(self, m: Seq<u8>, k: int) -> bool {
        let o = HEADER_SIZE + k * SLOT_SIZE;
        let word = mem::u64_at(m, o + S_SEQ);
        &&& word <= self.newest()
        &&& word != 0 ==> word % NUM_SLOTS_U64 == k
        &&& word > self.first ==> {
            let event = self.log[word - self.first - 1];
            &&& mem::u32_at(m, o + S_SIZE) == event.len()
            &&& m.subrange(o + S_DATA, o + S_DATA + event.len()) == event
        }
    }

    /// A bus in this state of traffic: every slot is invalid, older than what is followed, or
    /// holds exactly the event published under its number, and the newest events are all
    /// there.
    pub open spec fn holds(self, m: Seq<u8>) -> bool {
        &&& m.len() == SHM_TOTAL
        &&& 0 <= self.stage <= 4
        &&& self.newest() <= u64::MAX
        &&& 1 <= self.stage <= 3 ==> self.newest() < u64::MAX
        &&& self.stage == 4 ==> self.log.len() > 0
        &&& forall|i: int| 0 <= i < self.log.len() ==> 1 <= (#[trigger] self.log[i]).len() <= MAX_PAYLOAD
        &&& header::write_seq(m) == self.newest() - (if self.stage == 4 {
            1int
        } else {
            0
        })
        &&& forall|k: int| 0 <= k < NUM_SLOTS ==> #[trigger] self.slot_ok(m, k)
        &&& forall|seq: u64|
            self.first < seq <= self.newest() && self.newest() - NUM_SLOTS + (if 1 <= self.stage <= 3 {
                1int
            } else {
                0
            }) < seq ==> mem::u64_at(m, #[trigger] layout::slot_offset(seq) + S_SEQ) == seq
        &&& 1 <= self.stage <= 3 ==> {
            let o = layout::slot_offset(self.next_seq());
            &&& mem::u64_at(m, o + S_SEQ) == SLOT_SEQ_INVALID
            &&& self.stage >= 2 ==> mem::u32_at(m, o + S_SIZE) == self.size && 1 <= self.size <= MAX_PAYLOAD
            &&& self.stage >= 3 ==> self.payload.len() == self.size && m.subrange(
                o + S_DATA,
                o + S_DATA + self.size,
            ) == self.payload
        }
    }
}

/// The position of a number in the ring.
proof fn lemma_position(seq: u64, k: int)
    requires
        0 <= k < NUM_SLOTS,
    ensures
        0 <= (seq % NUM_SLOTS_U64) < NUM_SLOTS,
        layout::slot_offset(seq) == HEADER_SIZE + (seq % NUM_SLOTS_U64) * SLOT_SIZE,
        k != seq % NUM_SLOTS_U64 ==> HEADER_SIZE + k * SLOT_SIZE + SLOT_SIZE <= layout::slot_offset(seq)
            || layout::slot_offset(seq) + SLOT_SIZE <= HEADER_SIZE + k * SLOT_SIZE,
        HEADER_SIZE + k * SLOT_SIZE + SLOT_SIZE <= SHM_TOTAL,
{
}

/// Two numbers less than one round apart stand in different slots.
proof fn lemma_apart(a: u64, b: u64)
    requires
        0 < b - a < NUM_SLOTS,
    ensures
        a % NUM_SLOTS_U64 != b % NUM_SLOTS_U64,
{
}

/// A store into the slot of the next event leaves the other slots alone.
proof fn lemma_other_slots(m: Seq<u8>, t: Traffic, op: StoreOp)
    requires
        t.holds(m),
        t.newest() < u64::MAX,
        layout::slot_offset(t.next_seq()) <= op.start(),
        op.start() + op.data().len() <= layout::slot_offset(t.next_seq()) + SLOT_SIZE,
    ensures
        header::write_seq(image::apply(m, op)) == header::write_seq(m),
        forall|k: int|
            0 <= k < NUM_SLOTS && k != t.next_seq() % NUM_SLOTS_U64 ==> #[trigger] t.slot_ok(
                image::apply(m, op),
                k,
            ),
        forall|seq: u64|
            t.first < seq <= t.newest() && t.newest() + 1 - NUM_SLOTS < seq ==> mem::u64_at(
                image::apply(m, op),
                #[trigger] layout::slot_offset(seq) + S_SEQ,
            ) == seq,
{
    let n = image::apply(m, op);
    let s = t.next_seq();
    lemma_position(s, 0);
    assert forall|k: int| 0 <= k < NUM_SLOTS && k != s % NUM_SLOTS_U64 implies #[trigger] t.slot_ok(n, k) by {
        assert(t.slot_ok(m, k));
        lemma_position(s, k);
    }
    assert forall|seq: u64| t.first < seq <= t.newest() && t.newest() + 1 - NUM_SLOTS < seq implies mem::u64_at(
        n,
        #[trigger] layout::slot_offset(seq) + S_SEQ,
    ) == seq by {
        lemma_apart(seq, s);
        lemma_position(seq, 0);
        lemma_position(s, (seq % NUM_SLOTS_U64) as int);
        assert(mem::u64_at(m, layout::slot_offset(seq) + S_SEQ) == seq);
    }
}

/// Law: every store that may come next keeps the bus consistent.
pub proof fn traffic_keeps_the_bus(m: Seq<u8>, t: Traffic, op: StoreOp)
    requires
        t.holds(m),
        t.step(op) is Some,
    ensures
        t.step(op)->0.holds(image::apply(m, op)),
{
    let n = image::apply(m, op);
    let u = t.step(op)->0;
    let s = t.next_seq();
    let p = (s % NUM_SLOTS_U64) as int;
    lemma_position(s, 0);
    if Traffic::is_header_store(op) {
        assert forall|k: int| 0 <= k < NUM_SLOTS implies #[trigger] u.slot_ok(n, k) by {
            assert(t.slot_ok(m, k));
            lemma_position(s, k);
        }
        assert forall|seq: u64|
            u.first < seq <= u.newest() && u.newest() - NUM_SLOTS + (if 1 <= u.stage <= 3 {
                1int
            } else {
                0
            }) < seq implies mem::u64_at(n, #[trigger] layout::slot_offset(seq) + S_SEQ) == seq by {
            lemma_position(seq, 0);
        }
    } else if t.stage == 4 {
        assert forall|k: int| 0 <= k < NUM_SLOTS implies #[trigger] u.slot_ok(n, k) by {
            assert(t.slot_ok(m, k));
            lemma_position(s, k);
        }
        assert forall|seq: u64|
            u.first < seq <= u.newest() && u.newest() - NUM_SLOTS < seq implies mem::u64_at(
            n,
            #[trigger] layout::slot_offset(seq) + S_SEQ,
        ) == seq by {
            lemma_position(seq, 0);
        }
    } else {
        lemma_other_slots(m, t, op);
        assert(t.slot_ok(m, p));
        assert forall|k: int| 0 <= k < NUM_SLOTS implies #[trigger] u.slot_ok(n, k) by {
            if k != p {
                assert(t.slot_ok(n, k));
            }
        }
        assert forall|seq: u64|
            u.first < seq <= u.newest() && u.newest() - NUM_SLOTS + (if 1 <= u.stage <= 3 {
                1int
            } else {
                0
            }) < seq implies mem::u64_at(n, #[trigger] layout::slot_offset(seq) + S_SEQ) == seq by {
            if seq <= t.newest() {
                assert(mem::u64_at(n, layout::slot_offset(seq) + S_SEQ) == seq);
            }
        }
    }
}

/// Law: stores that may come in their order keep the bus consistent, all together.
pub proof fn run_keeps_the_bus(m: Seq<u8>, t: Traffic, ops: Seq<StoreOp>)
    requires
        t.holds(m),
        t.run(ops) is Some,
    ensures
        t.run(ops)->0.holds(image::replay(m, ops)),
    decreases ops.len(),
{
    if ops.len() > 0 {
        run_keeps_the_bus(m, t, ops.drop_last());
        traffic_keeps_the_bus(image::replay(m, ops.drop_last()), t.run(ops.drop_last())->0, ops.last());
    }
}

/// Law: the stores of a publisher may come one after another, and leave one more event in
/// the log.
pub proof fn publishing_is_traffic(
    t: Traffic,
    client: ShmemClientRegistration,
    now_ms: u64,
    payload: Seq<u8>,
)
    requires
        t.stage == 0,
        t.newest() < u64::MAX,
        client.slot_index < CLIENT_SLOTS,
        1 <= payload.len() <= MAX_PAYLOAD,
    ensures
        t.run(ring::publish_ops(client, now_ms, t.next_seq(), payload)) == Some(
            (Traffic {
                first: t.first,
                log: t.log.push(payload),
                stage: 0,
                size: payload.len() as u32,
                payload,
            }),
        ),
{
    let ops = ring::publish_ops(client, now_ms, t.next_seq(), payload);
    reveal_with_fuel(Traffic::run, 8);
    assert(ops.drop_last() =~= ops.take(5));
    assert(ops.take(5).drop_last() =~= ops.take(4));
    assert(ops.take(4).drop_last() =~= ops.take(3));
    assert(ops.take(3).drop_last() =~= ops.take(2));
    assert(ops.take(2).drop_last() =~= ops.take(1));
    assert(ops.take(1).drop_last() =~= ops.take(0));
    lemma_position(t.next_seq(), 0);
    assert(Traffic::is_header_store(ops[0]));
}

/// Law: a bus that started anew is consistent, with no event in it, whoever is registered.
pub proof fn blank_bus_is_consistent(m: Seq<u8>)
    requires
        m.len() == SHM_TOTAL,
        header::write_seq(m) == 0,
        header::ring_is_blank(m),
    ensures
        (Traffic { first: 0, log: Seq::empty(), stage: 0, size: 0, payload: Seq::empty() }).holds(m),
{
    let t = Traffic { first: 0, log: Seq::empty(), stage: 0, size: 0, payload: Seq::empty() };
    assert forall|k: int| 0 <= k < NUM_SLOTS implies #[trigger] t.slot_ok(m, k) by {
        reveal(mem::u64_at);
    }
}

/// Law: the newest events are kept.  As long as no event is being published, each of the
/// last `NUM_SLOTS` events reads back exactly as it was published.
pub proof fn newest_events_are_kept(m: Seq<u8>, t: Traffic, seq: u64)
    requires
        t.holds(m),
        t.stage == 0,
        t.first < seq <= t.newest(),
        t.newest() - NUM_SLOTS < seq,
    ensures
        ring::slot_event(m, seq) == Some(t.log[seq - t.first - 1]),
{
    lemma_position(seq, 0);
    assert(t.slot_ok(m, (seq % NUM_SLOTS_U64) as int));
    assert(mem::u64_at(m, layout::slot_offset(seq) + S_SEQ) == seq);
}

/// Law: an event that was overwritten is not mistaken for another one, and one that is not
/// published yet is not found.
pub proof fn other_events_are_not_found(m: Seq<u8>, t: Traffic, seq: u64)
    requires
        t.holds(m),
        t.stage == 0,
        t.first <= seq <= t.newest() - NUM_SLOTS || seq > t.newest(),
    ensures
        ring::slot_event(m, seq) is None,
{
    lemma_position(seq, 0);
    let k = (seq % NUM_SLOTS_U64) as int;
    assert(t.slot_ok(m, k));
    if seq <= t.newest() {
        let gap = t.newest() - seq;
        let late = (seq + (gap / NUM_SLOTS as int) * NUM_SLOTS) as u64;
        assert(late % NUM_SLOTS_U64 == k);
        assert(t.newest() - NUM_SLOTS < late <= t.newest());
        assert(layout::slot_offset(late) == layout::slot_offset(seq));
        assert(mem::u64_at(m, layout::slot_offset(late) + S_SEQ) == late);
    }
}

/// Law: what clients store when they register, release or beat comes at any time without
/// touching an event or the number of the last one.
pub proof fn client_stores_are_header_stores(
    t: Seq<clients::ClientSlot>,
    probe: clients::Probe,
    role: u32,
    instance_id: u64,
    client: ShmemClientRegistration,
    now_ms: u64,
)
    requires
        t.len() == CLIENT_SLOTS,
        client.slot_index < CLIENT_SLOTS,
    ensures
        forall|j: int|
            0 <= j < probe.cleanup_ops(t, CLIENT_SLOTS as int).len() ==> Traffic::is_header_store(
                #[trigger] probe.cleanup_ops(t, CLIENT_SLOTS as int)[j],
            ),
        forall|j: int|
            0 <= j < clients::register_ops(t, role, instance_id, probe.now_ms, probe.pid).len()
                ==> Traffic::is_header_store(
                #[trigger] clients::register_ops(t, role, instance_id, probe.now_ms, probe.pid)[j],
            ),
        forall|j: int|
            0 <= j < clients::release_ops(t, client, now_ms).len() ==> Traffic::is_header_store(
                #[trigger] clients::release_ops(t, client, now_ms)[j],
            ),
        Traffic::is_header_store(clients::heartbeat_op(client, now_ms)),
{
    lemma_cleanup_ops(t, probe, CLIENT_SLOTS as int);
    lemma_scan_bounds(t, role, instance_id, 0);
}

proof fn lemma_scan_bounds(t: Seq<clients::ClientSlot>, role: u32, instance_id: u64, i: int)
    requires
        0 <= i <= t.len(),
    ensures
        i <= clients::first_own(t, role, instance_id, i) <= t.len(),
        i <= clients::first_free(t, i) <= t.len(),
    decreases t.len() - i,
{
    if i < t.len() {
        lemma_scan_bounds(t, role, instance_id, i + 1);
    }
}

proof fn lemma_cleanup_ops(t: Seq<clients::ClientSlot>, probe: clients::Probe, n: int)
    requires
        0 <= n <= CLIENT_SLOTS,
    ensures
        forall|j: int|
            0 <= j < probe.cleanup_ops(t, n).len() ==> Traffic::is_header_store(
                #[trigger] probe.cleanup_ops(t, n)[j],
            ),
    decreases n,
{
    if n > 0 {
        lemma_cleanup_ops(t, probe, n - 1);
        let head = probe.cleanup_ops(t, n - 1);
        assert forall|j: int| 0 <= j < probe.cleanup_ops(t, n).len() implies Traffic::is_header_store(
            #[trigger] probe.cleanup_ops(t, n)[j],
        ) by {
            if j < head.len() {
                assert(probe.cleanup_ops(t, n)[j] == head[j]);
            } else {
                assert(probe.cleanup_ops(t, n)[j] == clients::clear_ops(n - 1)[j - head.len()]);
            }
        }
    }
}

/// What a mapping may look like to another process while the stores `ops` are made to it:
/// the first `at` of them are done, and the next one may be under way.  An atomic store is
/// seen as a whole; any other store may be seen byte by byte.
pub open spec fn visible(m: Seq<u8>, ops: Seq<StoreOp>, at: int, seen: Seq<u8>) -> bool {
    let before = image::replay(m, ops.take(at));
    &&& 0 <= at <= ops.len()
    &&& seen.len() == before.len()
    &&& if at == ops.len() {
        seen == before
    } else {
        let after = image::apply(before, ops[at]);
        if ops[at].is_atomic() {
            seen == before || seen == after
        } else {
            forall|i: int|
                0 <= i < seen.len() ==> (#[trigger] seen[i] == before[i] || seen[i] == after[i])
        }
    }
}

/// One look at a mapping while stores are made to it.
pub struct Sight {
    /// How many stores were done.
    pub at: int,
    /// What the mapping looked like.
    pub mem: Seq<u8>,
}

proof fn lemma_replay_step(m: Seq<u8>, ops: Seq<StoreOp>, a: int)
    requires
        0 <= a < ops.len(),
    ensures
        image::replay(m, ops.take(a + 1)) == image::apply(image::replay(m, ops.take(a)), ops[a]),
{
    assert(ops.take(a + 1).drop_last() =~= ops.take(a));
}

/// What is known of a run after its first `a` stores.
proof fn lemma_run_prefix(m: Seq<u8>, t: Traffic, ops: Seq<StoreOp>, a: int)
    requires
        t.holds(m),
        t.run(ops) is Some,
        0 <= a <= ops.len(),
    ensures
        t.run(ops.take(a)) is Some,
        t.run(ops.take(a))->0.holds(image::replay(m, ops.take(a))),
        t.run(ops.take(a))->0.first == t.first,
        t.run(ops.take(a))->0.newest() <= t.run(ops)->0.newest(),
        t.run(ops.take(a))->0.log == t.run(ops)->0.log.take(t.run(ops.take(a))->0.log.len() as int),
        a < ops.len() ==> t.run(ops.take(a + 1)) == t.run(ops.take(a))->0.step(ops[a]) && t.run(
            ops.take(a + 1),
        ) is Some,
    decreases ops.len() - a,
{
    lemma_run_first(t, ops);
    if a == ops.len() {
        assert(ops.take(a) =~= ops);
        run_keeps_the_bus(m, t, ops);
        assert(t.run(ops)->0.log =~= t.run(ops)->0.log.take(t.run(ops)->0.log.len() as int));
    } else {
        lemma_run_prefix(m, t, ops, a + 1);
        assert(ops.take(a + 1).drop_last() =~= ops.take(a));
        assert(t.run(ops.take(a + 1)) == t.run(ops.take(a))->0.step(ops[a]));
        lemma_run_first(t, ops.take(a));
        run_keeps_the_bus(m, t, ops.take(a));
        let x = t.run(ops.take(a))->0;
        let y = t.run(ops.take(a + 1))->0;
        assert(x.log =~= y.log.take(x.log.len() as int));
        assert(x.log =~= t.run(ops)->0.log.take(x.log.len() as int));
    }
}

proof fn lemma_run_first(t: Traffic, ops: Seq<StoreOp>)
    requires
        t.run(ops) is Some,
    ensures
        t.run(ops)->0.first == t.first,
    decreases ops.len(),
{
    if ops.len() > 0 {
        lemma_run_first(t, ops.drop_last());
    }
}

/// The bytes of the slot at `o` are the same in both memories.
spec fn same_slot(a: Seq<u8>, b: Seq<u8>, o: int) -> bool {
    &&& a.len() == b.len()
    &&& forall|i: int| o <= i < o + SLOT_SIZE ==> #[trigger] a[i] == b[i]
}

proof fn lemma_word_of_bytes(a: Seq<u8>, b: Seq<u8>, o: int)
    requires
        0 <= o,
        o + 8 <= a.len(),
        a.len() == b.len(),
        forall|i: int| o <= i < o + 8 ==> #[trigger] a[i] == b[i],
    ensures
        mem::u64_at(a, o) == mem::u64_at(b, o),
{
    reveal(mem::u64_at);
}

/// One store either leaves a slot alone, or invalidates it, fills it while it is invalid, or
/// gives it a number that is newer than all before.
proof fn lemma_one_store(m: Seq<u8>, t: Traffic, op: StoreOp, seq: u64)
    requires
        t.holds(m),
        t.step(op) is Some,
    ensures
        ({
            let o = layout::slot_offset(seq);
            let n = image::apply(m, op);
            ||| same_slot(m, n, o)
            ||| mem::u64_at(n, o) == 0
            ||| mem::u64_at(m, o) == 0 && mem::u64_at(n, o) > t.newest() && op.start() == o && op.data().len() == 8
        }),
        op.is_atomic() || mem::u64_at(m, layout::slot_offset(seq)) == 0 || same_slot(
            m,
            image::apply(m, op),
            layout::slot_offset(seq),
        ),
        t.newest() <= t.step(op)->0.newest(),
        !op.is_atomic() ==> forall|i: int|
            layout::slot_offset(seq) <= i < layout::slot_offset(seq) + 8 ==> #[trigger] image::apply(m, op)[i]
                == m[i],
        op.is_atomic() ==> forall|i: int|
            layout::slot_offset(seq) + 8 <= i < layout::slot_offset(seq) + SLOT_SIZE ==> #[trigger] image::apply(
                m,
                op,
            )[i] == m[i],
{
    let o = layout::slot_offset(seq);
    let s = t.next_seq();
    lemma_position(seq, 0);
    lemma_position(s, (seq % NUM_SLOTS_U64) as int);
    if seq % NUM_SLOTS_U64 == s % NUM_SLOTS_U64 {
        assert(o == layout::slot_offset(s));
    }
}

/// From a moment at which a slot carries a number on, it either stays as it was, or never
/// carries that number again.
proof fn lemma_slot_history(m: Seq<u8>, t: Traffic, ops: Seq<StoreOp>, seq: u64, a: int, b: int)
    requires
        t.holds(m),
        t.run(ops) is Some,
        seq != 0,
        0 <= a <= b <= ops.len(),
        mem::u64_at(image::replay(m, ops.take(a)), layout::slot_offset(seq)) == seq,
    ensures
        ({
            let word = mem::u64_at(image::replay(m, ops.take(b)), layout::slot_offset(seq));
            ||| word == 0
            ||| word > seq
            ||| same_slot(
                image::replay(m, ops.take(a)),
                image::replay(m, ops.take(b)),
                layout::slot_offset(seq),
            )
        }),
        seq <= t.run(ops.take(b))->0.newest(),
    decreases b - a,
{
    lemma_position(seq, 0);
    lemma_run_prefix(m, t, ops, b);
    if a == b {
        assert(t.run(ops.take(b))->0.slot_ok(
            image::replay(m, ops.take(b)),
            (seq % NUM_SLOTS_U64) as int,
        ));
    } else {
        lemma_slot_history(m, t, ops, seq, a, b - 1);
        lemma_run_prefix(m, t, ops, b - 1);
        lemma_replay_step(m, ops, b - 1);
        let before = image::replay(m, ops.take(b - 1));
        let after = image::replay(m, ops.take(b));
        let x = t.run(ops.take(b - 1))->0;
        lemma_one_store(before, x, ops[b - 1], seq);
        if same_slot(before, after, layout::slot_offset(seq)) {
            lemma_word_of_bytes(before, after, layout::slot_offset(seq));
        }
    }
}

/// A number that was seen in a slot is there either before or after the store under way.
proof fn lemma_number_seen(m: Seq<u8>, t: Traffic, ops: Seq<StoreOp>, seq: u64, x: Sight) -> (b: int)
    requires
        t.holds(m),
        t.run(ops) is Some,
        visible(m, ops, x.at, x.mem),
        mem::u64_at(x.mem, layout::slot_offset(seq)) == seq,
    ensures
        x.at <= b <= x.at + 1,
        b <= ops.len(),
        mem::u64_at(image::replay(m, ops.take(b)), layout::slot_offset(seq)) == seq,
        b == x.at + 1 ==> mem::u64_at(image::replay(m, ops.take(x.at)), layout::slot_offset(seq)) != seq,
{
    let o = layout::slot_offset(seq);
    let before = image::replay(m, ops.take(x.at));
    lemma_position(seq, 0);
    if mem::u64_at(before, o) == seq {
        x.at
    } else {
        assert(x.at < ops.len());
        lemma_replay_step(m, ops, x.at);
        lemma_run_prefix(m, t, ops, x.at);
        lemma_one_store(before, t.run(ops.take(x.at))->0, ops[x.at], seq);
        if !ops[x.at].is_atomic() {
            assert forall|i: int| o <= i < o + 8 implies #[trigger] x.mem[i] == before[i] by {
                assert(image::apply(before, ops[x.at])[i] == before[i]);
            }
            lemma_word_of_bytes(x.mem, before, o);
        }
        x.at + 1
    }
}

/// A byte that was seen in a slot between two sights of its number is the byte that was
/// there at the first.
proof fn lemma_byte_seen(
    m: Seq<u8>,
    t: Traffic,
    ops: Seq<StoreOp>,
    seq: u64,
    x: Sight,
    from: int,
    lo: int,
    hi: int,
    i: int,
)
    requires
        t.holds(m),
        t.run(ops) is Some,
        seq != 0,
        visible(m, ops, x.at, x.mem),
        0 <= from <= x.at <= hi <= ops.len(),
        from <= lo <= from + 1,
        lo <= hi,
        mem::u64_at(image::replay(m, ops.take(lo)), layout::slot_offset(seq)) == seq,
        mem::u64_at(image::replay(m, ops.take(hi)), layout::slot_offset(seq)) == seq,
        lo == from + 1 ==> mem::u64_at(image::replay(m, ops.take(from)), layout::slot_offset(seq)) != seq,
        layout::slot_offset(seq) + 8 <= i < layout::slot_offset(seq) + SLOT_SIZE,
    ensures
        x.mem[i] == image::replay(m, ops.take(lo))[i],
{
    let o = layout::slot_offset(seq);
    lemma_position(seq, 0);
    lemma_run_prefix(m, t, ops, x.at);
    let before = image::replay(m, ops.take(x.at));
    if x.at < ops.len() {
        lemma_replay_step(m, ops, x.at);
        lemma_one_store(before, t.run(ops.take(x.at))->0, ops[x.at], seq);
    }
    if x.at < lo {
        // The store under way gives the slot its number, and nothing else changes in it.
        let after = image::replay(m, ops.take(lo));
        assert(ops[x.at].is_atomic()) by {
            if !ops[x.at].is_atomic() {
                assert forall|k: int| o <= k < o + 8 implies #[trigger] before[k] == after[k] by {
                    assert(image::apply(before, ops[x.at])[k] == before[k]);
                }
                lemma_word_of_bytes(before, after, o);
            }
        }
        assert(image::apply(before, ops[x.at])[i] == before[i]);
    } else {
        lemma_slot_history(m, t, ops, seq, lo, x.at);
        lemma_slot_history(m, t, ops, seq, lo, hi);
        let start = image::replay(m, ops.take(lo));
        if !same_slot(start, before, o) {
            lemma_gone_for_good(m, t, ops, seq, lo, x.at, hi);
        }
        lemma_word_of_bytes(start, before, o);
        assert(start[i] == before[i]);
        if x.at < ops.len() {
            if ops[x.at].is_atomic() {
                assert(image::apply(before, ops[x.at])[i] == before[i]);
            } else {
                assert(same_slot(before, image::apply(before, ops[x.at]), o));
                assert(before[i] == image::apply(before, ops[x.at])[i]);
            }
        }
    }
}

/// A number that a slot lost does not come back.
proof fn lemma_gone_for_good(
    m: Seq<u8>,
    t: Traffic,
    ops: Seq<StoreOp>,
    seq: u64,
    lo: int,
    at: int,
    hi: int,
)
    requires
        t.holds(m),
        t.run(ops) is Some,
        seq != 0,
        0 <= lo <= at <= hi <= ops.len(),
        mem::u64_at(image::replay(m, ops.take(lo)), layout::slot_offset(seq)) == seq,
        ({
            let word = mem::u64_at(image::replay(m, ops.take(at)), layout::slot_offset(seq));
            word == 0 || word > seq
        }),
    ensures
        ({
            let word = mem::u64_at(image::replay(m, ops.take(hi)), layout::slot_offset(seq));
            word == 0 || word > seq
        }),
    decreases hi - at,
{
    if at < hi {
        lemma_gone_for_good(m, t, ops, seq, lo, at, hi - 1);
        lemma_slot_history(m, t, ops, seq, lo, hi - 1);
        lemma_run_prefix(m, t, ops, hi - 1);
        lemma_replay_step(m, ops, hi - 1);
        lemma_position(seq, 0);
        let before = image::replay(m, ops.take(hi - 1));
        let after = image::replay(m, ops.take(hi));
        let o = layout::slot_offset(seq);
        lemma_one_store(before, t.run(ops.take(hi - 1))->0, ops[hi - 1], seq);
        if same_slot(before, after, o) {
            lemma_word_of_bytes(before, after, o);
        }
    }
}

/// What a reader saw of a slot: its number, then the bytes from the size on, then its number
/// once more.  The looks come in this order; each byte may come from a look of its own, in
/// any order among the bytes.
pub struct SlotSights {
    pub first: Sight,
    pub bytes: Seq<Sight>,
    pub second: Sight,
}

impl SlotSights {
    /// The bytes that were seen.
    pub open spec fn seen(self, seq: u64) -> Seq<u8> {
        Seq::new(
            self.bytes.len(),
            |i: int| self.bytes[i].mem[layout::slot_offset(seq) + S_SIZE + i],
        )
    }

    /// The size that was seen.
    pub open spec fn size(self, seq: u64) -> u32 {
        mem::u32_at(self.seen(seq), 0)
    }

    /// The event that was seen.
    pub open spec fn event(self, seq: u64) -> Seq<u8> {
        self.seen(seq).subrange(4, 4 + self.size(seq))
    }

    /// The looks were taken in order while the stores `ops` were made.
    pub open spec fn taken(self, m: Seq<u8>, ops: Seq<StoreOp>) -> bool {
        &&& visible(m, ops, self.first.at, self.first.mem)
        &&& visible(m, ops, self.second.at, self.second.mem)
        &&& self.first.at <= self.second.at
        &&& forall|i: int|
            0 <= i < self.bytes.len() ==> visible(m, ops, (#[trigger] self.bytes[i]).at, self.bytes[i].mem)
                && self.first.at <= self.bytes[i].at <= self.second.at
    }

    /// Every byte was read: the size, and where it is that of an event, as many bytes more.
    pub open spec fn complete(self, seq: u64) -> bool {
        &&& self.bytes.len() >= 4
        &&& 1 <= self.size(seq) <= MAX_PAYLOAD ==> self.bytes.len() == 4 + self.size(seq)
    }

    /// The byte that was seen at `offset` of the mapping.
    pub open spec fn byte(self, seq: u64, offset: int) -> u8 {
        self.seen(seq)[offset - layout::slot_offset(seq) - S_SIZE]
    }

    /// What a reader that goes by these looks ends with: it takes each word and the bytes from
    /// where the read so far sends it.
    pub open spec fn outcome(self, seq: u64) -> Option<Seq<u8>> {
        let read = ring::SlotRead::at(seq);
        match read.after_sequence(mem::u64_at(self.first.mem, read.seq_offset as int)) {
            None => None,
            Some(sized) => {
                let word = Seq::new(4, |i: int| self.byte(seq, sized.size_offset + i));
                match sized.after_size(mem::u32_at(word, 0)) {
                    None => None,
                    Some(filled) => filled.after_confirm(
                        Seq::new(filled.len as nat, |i: int| self.byte(seq, filled.data_offset + i)),
                        mem::u64_at(self.second.mem, filled.seq_offset as int),
                    ),
                }
            },
        }
    }

    /// The checks of a reader pass: both looks at the number show the wanted one, and the
    /// size is that of an event of which every byte was read.
    pub open spec fn accepted(self, seq: u64) -> bool {
        &&& mem::u64_at(self.first.mem, layout::slot_offset(seq) + S_SEQ) == seq
        &&& mem::u64_at(self.second.mem, layout::slot_offset(seq) + S_SEQ) == seq
        &&& self.bytes.len() >= 4
        &&& 1 <= self.size(seq) <= MAX_PAYLOAD
        &&& self.bytes.len() == 4 + self.size(seq)
    }
}

/// Law: an event that passes the checks of a reader was in the slot as a whole at one moment
/// during the read, whatever publishers did meanwhile.
pub proof fn accepted_event_is_not_torn(
    m: Seq<u8>,
    t: Traffic,
    ops: Seq<StoreOp>,
    seq: u64,
    sights: SlotSights,
) -> (moment: int)
    requires
        t.holds(m),
        t.run(ops) is Some,
        seq != 0,
        sights.taken(m, ops),
        sights.accepted(seq),
    ensures
        sights.first.at <= moment <= sights.second.at + 1,
        moment <= ops.len(),
        ring::slot_event(image::replay(m, ops.take(moment)), seq) == Some(sights.event(seq)),
{
    let o = layout::slot_offset(seq);
    lemma_position(seq, 0);
    let lo = lemma_number_seen(m, t, ops, seq, sights.first);
    let hi = lemma_number_seen(m, t, ops, seq, sights.second);
    let now = image::replay(m, ops.take(lo));
    let seen = sights.seen(seq);
    assert forall|i: int| 0 <= i < seen.len() implies seen[i] == #[trigger] now[o + S_SIZE + i] by {
        let x = sights.bytes[i];
        lemma_byte_seen(m, t, ops, seq, x, sights.first.at, lo, hi, o + S_SIZE + i);
    }
    assert(mem::u32_at(now, o + S_SIZE) == mem::u32_at(seen, 0)) by {
        reveal(mem::u32_at);
        assert(seen[0] == now[o + S_SIZE + 0]);
        assert(seen[1] == now[o + S_SIZE + 1]);
        assert(seen[2] == now[o + S_SIZE + 2]);
        assert(seen[3] == now[o + S_SIZE + 3]);
    }
    let size = sights.size(seq);
    assert forall|i: int| 0 <= i < size implies now.subrange(o + S_DATA, o + S_DATA + size)[i]
        == #[trigger] sights.event(seq)[i] by {
        assert(now[o + S_SIZE + (4 + i)] == seen[4 + i]);
    }
    assert(now.subrange(o + S_DATA, o + S_DATA + size) =~= sights.event(seq));
    lo
}

/// Law: an event that passes the checks of a reader is exactly the one that was published
/// under its number, whatever publishers did meanwhile.
pub proof fn accepted_event_was_published(
    m: Seq<u8>,
    t: Traffic,
    ops: Seq<StoreOp>,
    seq: u64,
    sights: SlotSights,
)
    requires
        t.holds(m),
        t.run(ops) is Some,
        seq > t.first,
        sights.taken(m, ops),
        sights.accepted(seq),
    ensures
        seq <= t.run(ops)->0.newest(),
        sights.event(seq) == t.run(ops)->0.log[seq - t.first - 1],
{
    let moment = accepted_event_is_not_torn(m, t, ops, seq, sights);
    lemma_run_prefix(m, t, ops, moment);
    lemma_position(seq, 0);
    let x = t.run(ops.take(moment))->0;
    assert(x.slot_ok(image::replay(m, ops.take(moment)), (seq % NUM_SLOTS_U64) as int));
    lemma_run_first(t, ops);
    assert(x.log[seq - t.first - 1] == t.run(ops)->0.log.take(x.log.len() as int)[seq - t.first - 1]);
}

/// Law: a reader that goes through a slot ends with an event exactly where its looks pass the
/// checks, and then with the event that was seen.
pub proof fn reader_takes_what_is_accepted(seq: u64, sights: SlotSights)
    requires
        sights.complete(seq),
    ensures
        sights.outcome(seq) is Some <==> sights.accepted(seq),
        sights.outcome(seq) matches Some(event) ==> event == sights.event(seq),
{
    let o = layout::slot_offset(seq);
    lemma_position(seq, 0);
    let seen = sights.seen(seq);
    let word = Seq::new(4, |i: int| sights.byte(seq, (o + S_SIZE) as usize + i));
    assert(mem::u32_at(word, 0) == sights.size(seq)) by {
        reveal(mem::u32_at);
        assert(word[0] == seen[0]);
        assert(word[1] == seen[1]);
        assert(word[2] == seen[2]);
        assert(word[3] == seen[3]);
    }
    if let Some(event) = sights.outcome(seq) {
        assert(event =~= sights.event(seq));
    }
}

/// Law: what a reader ends with is exactly the event that was published under its number,
/// whatever publishers did meanwhile.
pub proof fn reader_takes_only_published_events(
    m: Seq<u8>,
    t: Traffic,
    ops: Seq<StoreOp>,
    seq: u64,
    sights: SlotSights,
)
    requires
        t.holds(m),
        t.run(ops) is Some,
        seq > t.first,
        sights.taken(m, ops),
        sights.complete(seq),
    ensures
        sights.outcome(seq) matches Some(event) ==> {
            &&& seq <= t.run(ops)->0.newest()
            &&& event == t.run(ops)->0.log[seq - t.first - 1]
        },
{
    reader_takes_what_is_accepted(seq, sights);
    if sights.accepted(seq) {
        accepted_event_was_published(m, t, ops, seq, sights);
    }
}

/// The write lock: its word, and who believes to hold it.
pub struct LockUse {
    pub word: u32,
    pub holders: Set<int>,
}

/// What a process does with the write lock.
pub enum LockOp {
    /// It tries to change the word from 0 to 1, in one atomic step.
    Try { process: int },
    /// It holds the lock, and sets the word to 0.
    Release { process: int },
}

impl LockUse {
    /// The lock after one more step.  A try succeeds only where the word is 0.
    pub open spec fn step(self, op: LockOp) -> LockUse {
        match op {
            LockOp::Try { process } => if self.word == 0 {
                LockUse { word: 1, holders: self.holders.insert(process) }
            } else {
                self
            },
            LockOp::Release { process } => if self.holders.contains(process) {
                LockUse { word: 0, holders: self.holders.remove(process) }
            } else {
                self
            },
        }
    }

    /// The lock after all of these steps.
    pub open spec fn run(self, ops: Seq<LockOp>) -> LockUse
        decreases ops.len(),
    {
        if ops.len() == 0 {
            self
        } else {
            self.run(ops.drop_last()).step(ops.last())
        }
    }
}

/// Law: however processes try and release, the write lock of a bus that started with it free
/// has one holder at a time, and is free exactly while it has none.
pub proof fn lock_has_one_holder(ops: Seq<LockOp>, a: int, b: int)
    ensures
        ({
            let lock = (LockUse { word: 0, holders: Set::empty() }).run(ops);
            &&& lock.holders.contains(a) && lock.holders.contains(b) ==> a == b
            &&& lock.holders.contains(a) ==> lock.word == 1
            &&& lock.word == 0 <==> lock.holders == Set::<int>::empty()
        }),
    decreases ops.len(),
{
    if ops.len() > 0 {
        let before = (LockUse { word: 0, holders: Set::empty() }).run(ops.drop_last());
        let lock = before.step(ops.last());
        lock_has_one_holder(ops.drop_last(), a, b);
        match ops.last() {
            LockOp::Try { process } => {
                if before.word == 0 {
                    assert(lock.holders.contains(process));
                }
            },
            LockOp::Release { process } => {
                lock_has_one_holder(ops.drop_last(), process, a);
                lock_has_one_holder(ops.drop_last(), process, b);
                if before.holders.contains(process) {
                    assert forall|x: int| !lock.holders.contains(x) by {
                        lock_has_one_holder(ops.drop_last(), process, x);
                    }
                    assert(lock.holders =~= Set::<int>::empty());
                }
            },
        }
    }
}

/// Law: a slot holds the event with a number exactly if it lies within the mapping, carries that
/// number, and records a size from 1 to 4096 of which every byte is there; the event is those
/// bytes.
pub proof fn slots_hold_whole_events(m: Seq<u8>, seq: u64, event: Seq<u8>)
    ensures
        ({
            let o = 8_256 + (seq % 16_384) * 4_112;
            ring::slot_event(m, seq) == Some(event) <==> {
                &&& o + 12 <= m.len()
                &&& mem::u64_at(m, o) == seq
                &&& 1 <= mem::u32_at(m, o + 8) <= 4_096
                &&& event.len() == mem::u32_at(m, o + 8)
                &&& o + 12 + event.len() <= m.len()
                &&& forall|i: int| 0 <= i < event.len() ==> #[trigger] event[i] == m[o + 12 + i]
            }
        }),
{
    let o = layout::slot_offset(seq);
    let size = mem::u32_at(m, o + S_SIZE);
    if let Some(found) = ring::slot_event(m, seq) {
        if event.len() == size && (forall|i: int| 0 <= i < event.len() ==> #[trigger] event[i] == m[o + 12 + i]) {
            assert(found =~= event);
        }
        if found == event {
            assert forall|i: int| 0 <= i < event.len() implies #[trigger] event[i] == m[o + 12 + i] by {
                assert(found[i] == m[o + S_DATA + i]);
            }
        }
    }
}

/// Law: a blank ring holds no event under any number.
pub proof fn blank_ring_holds_nothing(m: Seq<u8>, seq: u64)
    requires
        m.len() == SHM_TOTAL,
        header::ring_is_blank(m),
    ensures
        ring::slot_event(m, seq) is None,
{
    lemma_position(seq, 0);
    let o = layout::slot_offset(seq);
    reveal(mem::u32_at);
    assert(m[o + 8] == 0 && m[o + 9] == 0 && m[o + 10] == 0 && m[o + 11] == 0);
    assert(mem::u32_at(m, o + S_SIZE) == 0);
}

/// Law: an event is published exactly if it is of 1 to 4096 bytes, its publisher still has its
/// entry, and there is a number left; its number is then the next one.  An event that is too
/// short or too long is refused before anything else is looked at.
pub proof fn events_are_numbered_one_by_one(m: Seq<u8>, client: ShmemClientRegistration, len: nat)
    requires
        len <= usize::MAX,
    ensures
        ({
            let verdict = ring::publish_verdict(m, client, len);
            let owns = clients::heartbeat_verdict(clients::table(m), client);
            let last = mem::u64_at(m, 32);
            &&& verdict is Ok <==> 1 <= len <= 4_096 && owns is Ok && last < u64::MAX
            &&& verdict matches Ok(seq) ==> seq == last + 1
            &&& len == 0 ==> verdict == Err::<u64, BusError>(BusError::EmptyPayload)
            &&& len > 4_096 ==> verdict == Err::<u64, BusError>(BusError::PayloadTooLarge { len: len as usize })
            &&& 1 <= len <= 4_096 ==> match owns {
                Err(error) => verdict == Err::<u64, BusError>(error),
                Ok(_) => last == u64::MAX ==> verdict == Err::<u64, BusError>(BusError::SequenceOverflow),
            }
            &&& len == 0 ==> ring::payload_verdict(len) == Err::<(), BusError>(BusError::EmptyPayload)
            &&& len > 4_096 ==> ring::payload_verdict(len) == Err::<(), BusError>(
                BusError::PayloadTooLarge { len: len as usize },
            )
            &&& 1 <= len <= 4_096 ==> ring::payload_verdict(len) is Ok
        }),
{
}

/// Law: what one publisher writes is what everybody reads: publishing on a whole bus at rest
/// leaves the event under its number, keeps the 16383 events before it, and makes it the last.
pub proof fn published_event_reads_back(
    m: Seq<u8>,
    t: Traffic,
    client: ShmemClientRegistration,
    now_ms: u64,
    payload: Seq<u8>,
    seq: u64,
)
    requires
        t.holds(m),
        t.stage == 0,
        t.newest() < u64::MAX,
        client.slot_index < CLIENT_SLOTS,
        1 <= payload.len() <= MAX_PAYLOAD,
        t.first < seq <= t.newest() + 1,
        t.newest() + 1 - NUM_SLOTS < seq,
    ensures
        ({
            let after = image::replay(m, ring::publish_ops(client, now_ms, t.next_seq(), payload));
            &&& mem::u64_at(after, 32) == t.newest() + 1
            &&& seq == t.newest() + 1 ==> ring::slot_event(after, seq) == Some(payload)
            &&& seq <= t.newest() ==> ring::slot_event(after, seq) == ring::slot_event(m, seq)
        }),
{
    let ops = ring::publish_ops(client, now_ms, t.next_seq(), payload);
    publishing_is_traffic(t, client, now_ms, payload);
    run_keeps_the_bus(m, t, ops);
    let after = image::replay(m, ops);
    let u = t.run(ops)->0;
    newest_events_are_kept(after, u, seq);
    if seq <= t.newest() {
        newest_events_are_kept(m, t, seq);
    }
}

} // verus!
