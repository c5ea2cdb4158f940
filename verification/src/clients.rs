//! The client table: who has the bus open, and who only left traces of a crash.
use vstd::prelude::*;

use crate::errors::BusError;
use crate::header;
use crate::image;
use crate::image::{BusImage, StoreOp};
use crate::layout;
use crate::layout::{
    CLIENT_ROLE_EMPTY, CLIENT_SLOTS, CLIENT_SLOT_SIZE, C_HEARTBEAT_MS, C_INSTANCE_ID, C_PID, C_REFCOUNT, C_ROLE,
    HEADER_SIZE, H_CLIENT_TABLE, SHM_CLIENT_STALE_TIMEOUT_MS,
};
use crate::mem;

verus! {

broadcast use crate::mem::group_mem;

/// One entry of the client table.
pub struct ClientSlot {
    pub role: u32,
    pub pid: u32,
    pub refcount: u32,
    pub instance_id: u64,
    pub heartbeat_ms: u64,
}

/// What a client holds in its hands once it is registered.
#[derive(Clone, Copy, Debug, PartialEq, Eq)]
pub struct ShmemClientRegistration {
    pub role: u32,
    pub slot_index: u32,
    pub instance_id: u64,
}

/// What was observed of the machine when the client table is looked through.
#[derive(Debug)]
pub struct Probe {
    /// Milliseconds since the epoch.
    pub now_ms: u64,
    /// The process that looks.
    pub pid: u32,
    /// Processes that are known not to run.
    pub dead_pids: Vec<u32>,
}

/// An entry that no client holds.
pub open spec fn empty_client() -> ClientSlot {
    ClientSlot { role: CLIENT_ROLE_EMPTY, pid: 0, refcount: 0, instance_id: 0, heartbeat_ms: 0 }
}

/// Entry `i` of the client table of a mapping.
pub open spec fn client_at(m: Seq<u8>, i: int) -> ClientSlot {
    ClientSlot {
        role: mem::u32_at(m, layout::client_offset(i) + C_ROLE),
        pid: mem::u32_at(m, layout::client_offset(i) + C_PID),
        refcount: mem::u32_at(m, layout::client_offset(i) + C_REFCOUNT),
        instance_id: mem::u64_at(m, layout::client_offset(i) + C_INSTANCE_ID),
        heartbeat_ms: mem::u64_at(m, layout::client_offset(i) + C_HEARTBEAT_MS),
    }
}

/// The client table of a mapping.
pub open spec fn table(m: Seq<u8>) -> Seq<ClientSlot> {
    Seq::new(CLIENT_SLOTS as nat, |i: int| client_at(m, i))
}

/// Only the client table of a mapping changed.
pub open spec fn only_clients_changed(a: Seq<u8>, b: Seq<u8>) -> bool {
    mem::same_outside(a, b, H_CLIENT_TABLE as int, HEADER_SIZE as int)
}

impl Probe {
    /// Whether an entry was left behind: nobody refers to it, its heartbeat is missing or too
    /// old, or its process is gone.
    pub open spec fn finds_stale(self, c: ClientSlot) -> bool {
        &&& c.role != CLIENT_ROLE_EMPTY
        &&& {
            ||| c.refcount == 0
            ||| c.heartbeat_ms == 0
            ||| self.now_ms - c.heartbeat_ms > SHM_CLIENT_STALE_TIMEOUT_MS
            ||| c.pid != self.pid && self.dead_pids@.contains(c.pid)
        }
    }

    /// The table without the entries that were left behind.
    pub open spec fn cleaned(self, t: Seq<ClientSlot>) -> Seq<ClientSlot> {
        t.map_values(
            |c: ClientSlot|
                if self.finds_stale(c) {
                    empty_client()
                } else {
                    c
                },
        )
    }

    /// Number of clients that hold an entry and were not left behind.
    pub open spec fn live(self, t: Seq<ClientSlot>) -> nat
        decreases t.len(),
    {
        if t.len() == 0 {
            0
        } else {
            self.live(t.drop_last()) + (if t.last().role != CLIENT_ROLE_EMPTY && !self.finds_stale(t.last()) {
                1nat
            } else {
                0
            })
        }
    }

    /// The stores that clear the stale entries among the first `n`.
    pub open spec fn cleanup_ops(self, t: Seq<ClientSlot>, n: int) -> Seq<StoreOp>
        decreases n,
    {
        if n <= 0 {
            seq![]
        } else {
            self.cleanup_ops(t, n - 1) + (if self.finds_stale(t[n - 1]) {
                clear_ops(n - 1)
            } else {
                seq![]
            })
        }
    }

    fn knows_dead(&self, pid: u32) -> (dead: bool)
        ensures
            dead == self.dead_pids@.contains(pid),
    {
        let mut i: usize = 0;
        while i < self.dead_pids.len()
            invariant
                i <= self.dead_pids@.len(),
                forall|k: int| 0 <= k < i ==> self.dead_pids@[k] != pid,
            decreases self.dead_pids@.len() - i,
        {
            if self.dead_pids[i] == pid {
                assert(self.dead_pids@[i as int] == pid);
                return true;
            }
            i = i + 1;
        }
        false
    }
}

/// The stores that clear entry `i`.  The role goes last.
pub open spec fn clear_ops(i: int) -> Seq<StoreOp> {
    let o = layout::client_offset(i);
    seq![
        StoreOp::AtomicU32 { offset: o + C_REFCOUNT, value: 0 },
        StoreOp::AtomicU64 { offset: o + C_HEARTBEAT_MS, word: 0, seq_cst: false },
        StoreOp::AtomicU64 { offset: o + C_INSTANCE_ID, word: 0, seq_cst: false },
        StoreOp::AtomicU32 { offset: o + C_PID, value: 0 },
        StoreOp::AtomicU32 { offset: o + C_ROLE, value: CLIENT_ROLE_EMPTY },
    ]
}

/// Whether a process may still run.  `entry_exists` says whether the system lists it.
pub fn process_may_be_alive(pid: u32, entry_exists: bool) -> (alive: bool)
    ensures
        alive == (pid != 0 && entry_exists),
{
    pid != 0 && entry_exists
}

/// The processes that are known not to run, of those that were looked up.  Each comes with
/// whether the system lists it.
pub fn known_dead(processes: &Vec<(u32, bool)>) -> (dead: Vec<u32>)
    ensures
        dead@ == dead_among(processes@),
{
    let mut dead: Vec<u32> = Vec::new();
    let mut i: usize = 0;
    while i < processes.len()
        invariant
            i <= processes@.len(),
            dead@ == dead_among(processes@.take(i as int)),
        decreases processes@.len() - i,
    {
        assert(processes@.take(i + 1).drop_last() =~= processes@.take(i as int));
        let process: (u32, bool) = processes[i];
        if !process_may_be_alive(process.0, process.1) {
            dead.push(process.0);
        }
        i = i + 1;
    }
    assert(processes@.take(i as int) =~= processes@);
    dead
}

/// Those of the processes that may not be alive, in order.
pub open spec fn dead_among(processes: Seq<(u32, bool)>) -> Seq<u32>
    decreases processes.len(),
{
    if processes.len() == 0 {
        seq![]
    } else {
        let (pid, entry_exists) = processes.last();
        let before = dead_among(processes.drop_last());
        if pid != 0 && entry_exists {
            before
        } else {
            before.push(pid)
        }
    }
}

proof fn lemma_put_client(m: Seq<u8>, i: int, f: int, d: Seq<u8>)
    requires
        m.len() >= HEADER_SIZE,
        0 <= i < CLIENT_SLOTS,
        0 <= f,
        f + d.len() <= 32,
    ensures
        only_clients_changed(m, mem::put(m, layout::client_offset(i) + f, d)),
        forall|j: int|
            0 <= j < CLIENT_SLOTS && j != i ==> #[trigger] client_at(
                mem::put(m, layout::client_offset(i) + f, d),
                j,
            ) == client_at(m, j),
{
}

fn put_role(im: &mut BusImage, i: usize, v: u32)
    requires
        old(im).wf(),
        i < CLIENT_SLOTS,
    ensures
        final(im).wf(),
        final(im).base() == old(im).base(),
        final(im).plan() == old(im).plan().push(
            StoreOp::AtomicU32 { offset: layout::client_offset(i as int) + C_ROLE, value: v },
        ),
        only_clients_changed(old(im).mem(), final(im).mem()),
        table(final(im).mem()) == table(old(im).mem()).update(
            i as int,
            ClientSlot { role: v, ..table(old(im).mem())[i as int] },
        ),
{
    let ghost m = im.mem();
    im.store_u32(H_CLIENT_TABLE + i * CLIENT_SLOT_SIZE + C_ROLE, v);
    proof {
        lemma_put_client(m, i as int, C_ROLE as int, mem::u32_bytes(v));
        assert(table(im.mem()) =~= table(m).update(i as int, ClientSlot { role: v, ..table(m)[i as int] }));
    }
}

fn put_pid(im: &mut BusImage, i: usize, v: u32)
    requires
        old(im).wf(),
        i < CLIENT_SLOTS,
    ensures
        final(im).wf(),
        final(im).base() == old(im).base(),
        final(im).plan() == old(im).plan().push(
            StoreOp::AtomicU32 { offset: layout::client_offset(i as int) + C_PID, value: v },
        ),
        only_clients_changed(old(im).mem(), final(im).mem()),
        table(final(im).mem()) == table(old(im).mem()).update(
            i as int,
            ClientSlot { pid: v, ..table(old(im).mem())[i as int] },
        ),
{
    let ghost m = im.mem();
    im.store_u32(H_CLIENT_TABLE + i * CLIENT_SLOT_SIZE + C_PID, v);
    proof {
        lemma_put_client(m, i as int, C_PID as int, mem::u32_bytes(v));
        assert(table(im.mem()) =~= table(m).update(i as int, ClientSlot { pid: v, ..table(m)[i as int] }));
    }
}

fn put_refcount(im: &mut BusImage, i: usize, v: u32)
    requires
        old(im).wf(),
        i < CLIENT_SLOTS,
    ensures
        final(im).wf(),
        final(im).base() == old(im).base(),
        final(im).plan() == old(im).plan().push(
            StoreOp::AtomicU32 { offset: layout::client_offset(i as int) + C_REFCOUNT, value: v },
        ),
        only_clients_changed(old(im).mem(), final(im).mem()),
        table(final(im).mem()) == table(old(im).mem()).update(
            i as int,
            ClientSlot { refcount: v, ..table(old(im).mem())[i as int] },
        ),
{
    let ghost m = im.mem();
    im.store_u32(H_CLIENT_TABLE + i * CLIENT_SLOT_SIZE + C_REFCOUNT, v);
    proof {
        lemma_put_client(m, i as int, C_REFCOUNT as int, mem::u32_bytes(v));
        assert(table(im.mem()) =~= table(m).update(i as int, ClientSlot { refcount: v, ..table(m)[i as int] }));
    }
}

fn put_instance_id(im: &mut BusImage, i: usize, v: u64)
    requires
        old(im).wf(),
        i < CLIENT_SLOTS,
    ensures
        final(im).wf(),
        final(im).base() == old(im).base(),
        final(im).plan() == old(im).plan().push(
            StoreOp::AtomicU64 {
                offset: layout::client_offset(i as int) + C_INSTANCE_ID,
                word: v,
                seq_cst: false,
            },
        ),
        only_clients_changed(old(im).mem(), final(im).mem()),
        table(final(im).mem()) == table(old(im).mem()).update(
            i as int,
            ClientSlot { instance_id: v, ..table(old(im).mem())[i as int] },
        ),
{
    let ghost m = im.mem();
    im.store_u64(H_CLIENT_TABLE + i * CLIENT_SLOT_SIZE + C_INSTANCE_ID, v, false);
    proof {
        lemma_put_client(m, i as int, C_INSTANCE_ID as int, mem::u64_bytes(v));
        assert(table(im.mem()) =~= table(m).update(i as int, ClientSlot { instance_id: v, ..table(m)[i as int] }));
    }
}

fn put_heartbeat(im: &mut BusImage, i: usize, v: u64)
    requires
        old(im).wf(),
        i < CLIENT_SLOTS,
    ensures
        final(im).wf(),
        final(im).base() == old(im).base(),
        final(im).plan() == old(im).plan().push(
            StoreOp::AtomicU64 {
                offset: layout::client_offset(i as int) + C_HEARTBEAT_MS,
                word: v,
                seq_cst: false,
            },
        ),
        only_clients_changed(old(im).mem(), final(im).mem()),
        table(final(im).mem()) == table(old(im).mem()).update(
            i as int,
            ClientSlot { heartbeat_ms: v, ..table(old(im).mem())[i as int] },
        ),
{
    let ghost m = im.mem();
    im.store_u64(H_CLIENT_TABLE + i * CLIENT_SLOT_SIZE + C_HEARTBEAT_MS, v, false);
    proof {
        lemma_put_client(m, i as int, C_HEARTBEAT_MS as int, mem::u64_bytes(v));
        assert(table(im.mem()) =~= table(m).update(i as int, ClientSlot { heartbeat_ms: v, ..table(m)[i as int] }));
    }
}

/// Reads entry `i`.
fn load_client(im: &BusImage, i: usize) -> (c: ClientSlot)
    requires
        im.wf(),
        i < CLIENT_SLOTS,
    ensures
        c == table(im.mem())[i as int],
{
    let o: usize = H_CLIENT_TABLE + i * CLIENT_SLOT_SIZE;
    ClientSlot {
        role: im.load_u32(o + C_ROLE),
        pid: im.load_u32(o + C_PID),
        refcount: im.load_u32(o + C_REFCOUNT),
        instance_id: im.load_u64(o + C_INSTANCE_ID),
        heartbeat_ms: im.load_u64(o + C_HEARTBEAT_MS),
    }
}

/// The processes that the client table names, entry by entry.
pub fn client_pids(im: &BusImage) -> (pids: Vec<u32>)
    requires
        im.wf(),
    ensures
        pids@ == table(im.mem()).map_values(|c: ClientSlot| c.pid),
{
    let mut pids: Vec<u32> = Vec::new();
    let ghost t = table(im.mem());
    let mut i: usize = 0;
    while i < CLIENT_SLOTS
        invariant
            im.wf(),
            t == table(im.mem()),
            i <= CLIENT_SLOTS,
            pids@ =~= t.take(i as int).map_values(|c: ClientSlot| c.pid),
        decreases CLIENT_SLOTS - i,
    {
        let c = load_client(im, i);
        pids.push(c.pid);
        i = i + 1;
    }
    assert(t.take(CLIENT_SLOTS as int) =~= t);
    pids
}

/// Clears entry `index`.
pub fn clear_client_slot(im: &mut BusImage, index: usize) -> (result: Result<(), BusError>)
    requires
        old(im).wf(),
    ensures
        final(im).wf(),
        final(im).base() == old(im).base(),
        index < CLIENT_SLOTS ==> {
            &&& result == Ok::<(), BusError>(())
            &&& final(im).plan() == old(im).plan() + clear_ops(index as int)
            &&& only_clients_changed(old(im).mem(), final(im).mem())
            &&& table(final(im).mem()) == table(old(im).mem()).update(index as int, empty_client())
        },
        index >= CLIENT_SLOTS ==> {
            &&& result == Err::<(), BusError>(BusError::ClientIndex { index })
            &&& *final(im) == *old(im)
        },
{
    if index >= CLIENT_SLOTS {
        return Err(BusError::ClientIndex { index });
    }
    let ghost t = table(im.mem());
    let ghost p = im.plan();
    put_refcount(im, index, 0);
    put_heartbeat(im, index, 0);
    put_instance_id(im, index, 0);
    put_pid(im, index, 0);
    put_role(im, index, CLIENT_ROLE_EMPTY);
    assert(im.plan() =~= p + clear_ops(index as int));
    assert(table(im.mem()) =~= t.update(index as int, empty_client()));
    Ok(())
}

/// Whether entry `index` is that of `client`.
pub fn client_slot_matches(im: &BusImage, index: usize, client: &ShmemClientRegistration) -> (result:
    Result<bool, BusError>)
    requires
        im.wf(),
    ensures
        result == (if index < CLIENT_SLOTS {
            Ok::<bool, BusError>(holds(table(im.mem())[index as int], *client))
        } else {
            Err(BusError::ClientIndex { index })
        }),
{
    if index >= CLIENT_SLOTS {
        return Err(BusError::ClientIndex { index });
    }
    let c = load_client(im, index);
    Ok(c.role == client.role && c.instance_id == client.instance_id)
}

/// Whether an entry is that of a client.
pub open spec fn holds(c: ClientSlot, client: ShmemClientRegistration) -> bool {
    c.role == client.role && c.instance_id == client.instance_id
}

/// Clears the entries that were left behind, and counts the clients that remain.  The caller
/// holds the write lock.
pub fn cleanup_stale_clients_locked(im: &mut BusImage, probe: &Probe) -> (active: usize)
    requires
        old(im).wf(),
    ensures
        final(im).wf(),
        final(im).base() == old(im).base(),
        final(im).plan() == old(im).plan() + probe.cleanup_ops(table(old(im).mem()), CLIENT_SLOTS as int),
        only_clients_changed(old(im).mem(), final(im).mem()),
        table(final(im).mem()) == probe.cleaned(table(old(im).mem())),
        active == probe.live(table(old(im).mem())),
{
    let ghost m0 = im.mem();
    let ghost b0 = im.base();
    let ghost p0 = im.plan();
    let ghost t = table(m0);
    let mut active: usize = 0;
    let mut index: usize = 0;
    assert(im.plan() =~= p0 + probe.cleanup_ops(t, 0));
    while index < CLIENT_SLOTS
        invariant
            im.wf(),
            im.base() == b0,
            index <= CLIENT_SLOTS,
            active <= index,
            t == table(m0),
            im.plan() == p0 + probe.cleanup_ops(t, index as int),
            only_clients_changed(m0, im.mem()),
            forall|j: int| 0 <= j < index ==> #[trigger] table(im.mem())[j] == probe.cleaned(t)[j],
            forall|j: int| index <= j < CLIENT_SLOTS ==> #[trigger] table(im.mem())[j] == t[j],
            active == probe.live(t.take(index as int)),
        decreases CLIENT_SLOTS - index,
    {
        let c = load_client(im, index);
        assert(c == t[index as int]);
        assert(t.take(index + 1).drop_last() =~= t.take(index as int));
        if c.role != CLIENT_ROLE_EMPTY {
            let heartbeat_stale: bool = c.heartbeat_ms == 0 || probe.now_ms.saturating_sub(c.heartbeat_ms)
                > SHM_CLIENT_STALE_TIMEOUT_MS;
            let pid_dead: bool = c.pid != probe.pid && probe.knows_dead(c.pid);
            if c.refcount == 0 || heartbeat_stale || pid_dead {
                assert(probe.finds_stale(c));
                let ghost before = table(im.mem());
                let _ = clear_client_slot(im, index);
                assert(im.plan() =~= p0 + probe.cleanup_ops(t, index + 1));
                assert(forall|j: int| 0 <= j < CLIENT_SLOTS && j != index ==> #[trigger] table(im.mem())[j] == before[j]);
            } else {
                active = active + 1;
                assert(im.plan() =~= p0 + probe.cleanup_ops(t, index + 1));
            }
        } else {
            assert(im.plan() =~= p0 + probe.cleanup_ops(t, index + 1));
        }
        index = index + 1;
    }
    assert(t.take(CLIENT_SLOTS as int) =~= t);
    assert(table(im.mem()) =~= probe.cleaned(t));
    active
}

/// First entry from `i` on that is the client's own, or the table's length.
pub open spec fn first_own(t: Seq<ClientSlot>, role: u32, instance_id: u64, i: int) -> int
    decreases t.len() - i,
{
    if i >= t.len() || t[i].role == role && t[i].instance_id == instance_id {
        i
    } else {
        first_own(t, role, instance_id, i + 1)
    }
}

/// First free entry from `i` on, or the table's length.
pub open spec fn first_free(t: Seq<ClientSlot>, i: int) -> int
    decreases t.len() - i,
{
    if i >= t.len() || t[i].role == CLIENT_ROLE_EMPTY {
        i
    } else {
        first_free(t, i + 1)
    }
}

/// What registration makes of a cleaned table, and what it answers.  A client that is there
/// already is counted once more; a new one takes the first free entry.
pub open spec fn registered(
    t: Seq<ClientSlot>,
    role: u32,
    instance_id: u64,
    now_ms: u64,
    pid: u32,
) -> (Seq<ClientSlot>, Result<ShmemClientRegistration, BusError>) {
    let own = first_own(t, role, instance_id, 0);
    let free = first_free(t, 0);
    if own < CLIENT_SLOTS {
        if t[own].refcount == u32::MAX {
            (t, Err(BusError::RefcountOverflow { role }))
        } else {
            (
                t.update(
                    own,
                    ClientSlot {
                        refcount: (t[own].refcount + 1) as u32,
                        heartbeat_ms: now_ms,
                        ..t[own]
                    },
                ),
                Ok(ShmemClientRegistration { role, slot_index: own as u32, instance_id }),
            )
        }
    } else if free < CLIENT_SLOTS {
        (
            t.update(
                free,
                ClientSlot { role, pid, refcount: 1, instance_id, heartbeat_ms: now_ms },
            ),
            Ok(ShmemClientRegistration { role, slot_index: free as u32, instance_id }),
        )
    } else {
        (t, Err(BusError::TableFull { role }))
    }
}

/// The stores that enter a new client at entry `i`.  The role goes last, so that no other
/// process takes a half-written entry for a client.
pub open spec fn enter_ops(i: int, role: u32, instance_id: u64, now_ms: u64, pid: u32) -> Seq<StoreOp> {
    let o = layout::client_offset(i);
    seq![
        StoreOp::AtomicU32 { offset: o + C_ROLE, value: CLIENT_ROLE_EMPTY },
        StoreOp::AtomicU32 { offset: o + C_PID, value: pid },
        StoreOp::AtomicU64 { offset: o + C_INSTANCE_ID, word: instance_id, seq_cst: false },
        StoreOp::AtomicU64 { offset: o + C_HEARTBEAT_MS, word: now_ms, seq_cst: false },
        StoreOp::AtomicU32 { offset: o + C_REFCOUNT, value: 1 },
        StoreOp::AtomicU32 { offset: o + C_ROLE, value: role },
    ]
}

/// The stores of a registration in a cleaned table.
pub open spec fn register_ops(
    t: Seq<ClientSlot>,
    role: u32,
    instance_id: u64,
    now_ms: u64,
    pid: u32,
) -> Seq<StoreOp> {
    let own = first_own(t, role, instance_id, 0);
    let free = first_free(t, 0);
    if own < CLIENT_SLOTS {
        if t[own].refcount == u32::MAX {
            seq![]
        } else {
            seq![
                StoreOp::AtomicU32 {
                    offset: layout::client_offset(own) + C_REFCOUNT,
                    value: (t[own].refcount + 1) as u32,
                },
                StoreOp::AtomicU64 {
                    offset: layout::client_offset(own) + C_HEARTBEAT_MS,
                    word: now_ms,
                    seq_cst: false,
                },
            ]
        }
    } else if free < CLIENT_SLOTS {
        enter_ops(free, role, instance_id, now_ms, pid)
    } else {
        seq![]
    }
}

/// Enters a client into the table after the entries left behind are cleared.  The caller
/// holds the write lock.
pub fn register_client_locked(im: &mut BusImage, role: u32, instance_id: u64, probe: &Probe) -> (result:
    Result<ShmemClientRegistration, BusError>)
    requires
        old(im).wf(),
    ensures
        final(im).wf(),
        final(im).base() == old(im).base(),
        only_clients_changed(old(im).mem(), final(im).mem()),
        (table(final(im).mem()), result) == registered(
            probe.cleaned(table(old(im).mem())),
            role,
            instance_id,
            probe.now_ms,
            probe.pid,
        ),
        final(im).plan() == old(im).plan() + probe.cleanup_ops(table(old(im).mem()), CLIENT_SLOTS as int)
            + register_ops(
            probe.cleaned(table(old(im).mem())),
            role,
            instance_id,
            probe.now_ms,
            probe.pid,
        ),
{
    let now_ms: u64 = probe.now_ms;
    let _ = cleanup_stale_clients_locked(im, probe);
    let ghost t = table(im.mem());
    let ghost m = im.mem();
    let ghost p = im.plan();
    let own: usize = find_own(im, role, instance_id);
    let free: usize = find_free(im);
    let result = if own < CLIENT_SLOTS {
        // The same instance opened the same object again: the entry is shared.
        let c = load_client(im, own);
        match c.refcount.checked_add(1) {
            None => Err(BusError::RefcountOverflow { role }),
            Some(next) => {
                put_refcount(im, own, next);
                put_heartbeat(im, own, now_ms);
                Ok(ShmemClientRegistration { role, slot_index: own as u32, instance_id })
            },
        }
    } else if free < CLIENT_SLOTS {
        put_role(im, free, CLIENT_ROLE_EMPTY);
        put_pid(im, free, probe.pid);
        put_instance_id(im, free, instance_id);
        put_heartbeat(im, free, now_ms);
        put_refcount(im, free, 1);
        put_role(im, free, role);
        Ok(ShmemClientRegistration { role, slot_index: free as u32, instance_id })
    } else {
        Err(BusError::TableFull { role })
    };
    assert(table(im.mem()) =~= registered(t, role, instance_id, now_ms, probe.pid).0);
    assert(im.plan() =~= p + register_ops(t, role, instance_id, now_ms, probe.pid));
    result
}

fn find_own(im: &BusImage, role: u32, instance_id: u64) -> (index: usize)
    requires
        im.wf(),
    ensures
        index == first_own(table(im.mem()), role, instance_id, 0),
        index <= CLIENT_SLOTS,
{
    let mut index: usize = 0;
    while index < CLIENT_SLOTS
        invariant
            im.wf(),
            index <= CLIENT_SLOTS,
            first_own(table(im.mem()), role, instance_id, 0) == first_own(
                table(im.mem()),
                role,
                instance_id,
                index as int,
            ),
        decreases CLIENT_SLOTS - index,
    {
        let c = load_client(im, index);
        if c.role == role && c.instance_id == instance_id {
            return index;
        }
        index = index + 1;
    }
    index
}

fn find_free(im: &BusImage) -> (index: usize)
    requires
        im.wf(),
    ensures
        index == first_free(table(im.mem()), 0),
        index <= CLIENT_SLOTS,
{
    let mut index: usize = 0;
    while index < CLIENT_SLOTS
        invariant
            im.wf(),
            index <= CLIENT_SLOTS,
            first_free(table(im.mem()), 0) == first_free(table(im.mem()), index as int),
        decreases CLIENT_SLOTS - index,
    {
        let c = load_client(im, index);
        if c.role == CLIENT_ROLE_EMPTY {
            return index;
        }
        index = index + 1;
    }
    index
}

/// Registers a client in a mapping, which has to be a bus of this layout.  `seen` is the mapping
/// as it was before the write lock was taken: a mapping that is no such bus is not even locked.
/// `im` is the mapping under the lock.
pub fn register_client(
    seen: &BusImage,
    im: &mut BusImage,
    shm_name: &str,
    role: u32,
    instance_id: u64,
    probe: &Probe,
) -> (result: Result<ShmemClientRegistration, BusError>)
    requires
        seen.wf(),
        old(im).wf(),
    ensures
        final(im).wf(),
        final(im).base() == old(im).base(),
        !header::compatible(seen.mem()) ==> {
            &&& result matches Err(error) && header::refuses(seen.mem(), shm_name@, error)
            &&& *final(im) == *old(im)
        },
        header::compatible(seen.mem()) ==> {
            let cleaned = probe.cleaned(table(old(im).mem()));
            &&& only_clients_changed(old(im).mem(), final(im).mem())
            &&& (table(final(im).mem()), result) == registered(cleaned, role, instance_id, probe.now_ms, probe.pid)
            &&& final(im).plan() == old(im).plan() + probe.cleanup_ops(table(old(im).mem()), CLIENT_SLOTS as int)
                + register_ops(cleaned, role, instance_id, probe.now_ms, probe.pid)
        },
{
    match header::validate_shmem_header(seen, shm_name) {
        Err(error) => Err(error),
        Ok(_) => register_client_locked(im, role, instance_id, probe),
    }
}

/// What release makes of the table.  The last reference clears the entry; an entry that is
/// no longer the client's is left alone.
pub open spec fn released(t: Seq<ClientSlot>, client: ShmemClientRegistration, now_ms: u64) -> Seq<ClientSlot> {
    let i = client.slot_index as int;
    if i >= CLIENT_SLOTS || !holds(t[i], client) {
        t
    } else if t[i].refcount <= 1 {
        t.update(i, empty_client())
    } else {
        t.update(
            i,
            ClientSlot { refcount: (t[i].refcount - 1) as u32, heartbeat_ms: now_ms, ..t[i] },
        )
    }
}

/// The stores of a release.
pub open spec fn release_ops(t: Seq<ClientSlot>, client: ShmemClientRegistration, now_ms: u64) -> Seq<StoreOp> {
    let i = client.slot_index as int;
    if i >= CLIENT_SLOTS || !holds(t[i], client) {
        seq![]
    } else if t[i].refcount <= 1 {
        clear_ops(i)
    } else {
        seq![
            StoreOp::AtomicU32 {
                offset: layout::client_offset(i) + C_REFCOUNT,
                value: (t[i].refcount - 1) as u32,
            },
            StoreOp::AtomicU64 {
                offset: layout::client_offset(i) + C_HEARTBEAT_MS,
                word: now_ms,
                seq_cst: false,
            },
        ]
    }
}

/// Gives up one reference of a client.  The caller holds the write lock.
pub fn release_client_ref(im: &mut BusImage, client: &ShmemClientRegistration, now_ms: u64) -> (result:
    Result<(), BusError>)
    requires
        old(im).wf(),
    ensures
        final(im).wf(),
        final(im).base() == old(im).base(),
        only_clients_changed(old(im).mem(), final(im).mem()),
        table(final(im).mem()) == released(table(old(im).mem()), *client, now_ms),
        result == (if client.slot_index < CLIENT_SLOTS {
            Ok::<(), BusError>(())
        } else {
            Err(BusError::ClientIndex { index: client.slot_index as usize })
        }),
        final(im).plan() == old(im).plan() + release_ops(table(old(im).mem()), *client, now_ms),
{
    let index: usize = client.slot_index as usize;
    match client_slot_matches(im, index, client) {
        Err(error) => {
            assert(im.plan() =~= im.plan() + release_ops(table(im.mem()), *client, now_ms));
            Err(error)
        },
        Ok(matches) => {
            let ghost p = im.plan();
            if !matches {
                assert(im.plan() =~= p + release_ops(table(im.mem()), *client, now_ms));
                // Another process may have cleared the entry for its age: nothing to give up.
                return Ok(());
            }
            let ghost t = table(im.mem());
            let c = load_client(im, index);
            if c.refcount <= 1 {
                let _ = clear_client_slot(im, index);
            } else {
                put_refcount(im, index, c.refcount - 1);
                put_heartbeat(im, index, now_ms);
            }
            assert(table(im.mem()) =~= released(t, *client, now_ms));
            assert(im.plan() =~= p + release_ops(t, *client, now_ms));
            Ok(())
        },
    }
}

/// Refreshes the heartbeat of a client, or reports that its entry is no longer its own.
pub fn update_client_heartbeat(im: &mut BusImage, client: &ShmemClientRegistration, now_ms: u64) -> (result:
    Result<(), BusError>)
    requires
        old(im).wf(),
    ensures
        final(im).wf(),
        final(im).base() == old(im).base(),
        result == heartbeat_verdict(table(old(im).mem()), *client),
        result is Err ==> *final(im) == *old(im),
        result is Ok ==> {
            let i = client.slot_index as int;
            &&& final(im).plan() == old(im).plan().push(heartbeat_op(*client, now_ms))
            &&& final(im).mem() == image::apply(old(im).mem(), heartbeat_op(*client, now_ms))
            &&& only_clients_changed(old(im).mem(), final(im).mem())
            &&& table(final(im).mem()) == table(old(im).mem()).update(
                i,
                ClientSlot { heartbeat_ms: now_ms, ..table(old(im).mem())[i] },
            )
        },
{
    let index: usize = client.slot_index as usize;
    match client_slot_matches(im, index, client) {
        Err(error) => Err(error),
        Ok(matches) => {
            if !matches {
                return Err(
                    BusError::HeartbeatLost {
                        role: client.role,
                        slot: client.slot_index,
                        instance_id: client.instance_id,
                    },
                );
            }
            let ghost b = im.base();
            let ghost p = im.plan();
            put_heartbeat(im, index, now_ms);
            proof {
                image::lemma_replay_push(b, p, heartbeat_op(*client, now_ms));
            }
            Ok(())
        },
    }
}

/// The store that refreshes the heartbeat of a client.
pub open spec fn heartbeat_op(client: ShmemClientRegistration, now_ms: u64) -> StoreOp {
    StoreOp::AtomicU64 {
        offset: layout::client_offset(client.slot_index as int) + C_HEARTBEAT_MS,
        word: now_ms,
        seq_cst: false,
    }
}

/// Whether a client may refresh its heartbeat.
pub open spec fn heartbeat_verdict(t: Seq<ClientSlot>, client: ShmemClientRegistration) -> Result<
    (),
    BusError,
> {
    if client.slot_index >= CLIENT_SLOTS {
        Err(BusError::ClientIndex { index: client.slot_index as usize })
    } else if !holds(t[client.slot_index as int], client) {
        Err(
            BusError::HeartbeatLost {
                role: client.role,
                slot: client.slot_index,
                instance_id: client.instance_id,
            },
        )
    } else {
        Ok(())
    }
}

/// Law: what only changes clients changes no byte before the client table, and none of the ring.
pub proof fn clients_change_nothing_else(a: Seq<u8>, b: Seq<u8>, i: int)
    requires
        only_clients_changed(a, b),
        0 <= i < a.len(),
        i < 64 || 8_256 <= i,
    ensures
        a.len() == b.len(),
        a[i] == b[i],
{
}

} // verus!
