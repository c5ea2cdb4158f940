//! Laws of the client table.
use vstd::prelude::*;

use crate::clients;
use crate::clients::{ClientSlot, Probe, ShmemClientRegistration};
use crate::errors::BusError;
use crate::image;
use crate::layout::{
    CLIENT_ROLE_EMPTY, CLIENT_SLOTS, HEADER_SIZE, SHM_CLIENT_STALE_TIMEOUT_MS,
};
use crate::mem;

verus! {

broadcast use crate::mem::group_mem;

/// No client holds two entries of the table.
pub open spec fn one_entry_each(t: Seq<ClientSlot>) -> bool {
    forall|i: int, j: int|
        #![trigger t[i], t[j]]
        0 <= i < j < t.len() && t[i].role != CLIENT_ROLE_EMPTY && t[j].role != CLIENT_ROLE_EMPTY
            ==> !(t[i].role == t[j].role && t[i].instance_id == t[j].instance_id)
}

proof fn lemma_first_own(t: Seq<ClientSlot>, role: u32, instance_id: u64, i: int)
    requires
        0 <= i <= t.len(),
    ensures
        i <= clients::first_own(t, role, instance_id, i) <= t.len(),
        clients::first_own(t, role, instance_id, i) < t.len() ==> {
            let k = clients::first_own(t, role, instance_id, i);
            t[k].role == role && t[k].instance_id == instance_id
        },
        forall|j: int|
            i <= j < clients::first_own(t, role, instance_id, i) ==> !((#[trigger] t[j]).role == role
                && t[j].instance_id == instance_id),
    decreases t.len() - i,
{
    if i < t.len() && !(t[i].role == role && t[i].instance_id == instance_id) {
        lemma_first_own(t, role, instance_id, i + 1);
    }
}

proof fn lemma_first_free(t: Seq<ClientSlot>, i: int)
    requires
        0 <= i <= t.len(),
    ensures
        i <= clients::first_free(t, i) <= t.len(),
        clients::first_free(t, i) < t.len() ==> t[clients::first_free(t, i)].role == CLIENT_ROLE_EMPTY,
        forall|j: int| i <= j < clients::first_free(t, i) ==> (#[trigger] t[j]).role != CLIENT_ROLE_EMPTY,
    decreases t.len() - i,
{
    if i < t.len() && t[i].role != CLIENT_ROLE_EMPTY {
        lemma_first_free(t, i + 1);
    }
}

/// Law: cleanup, registration and release keep that no client holds two entries.
pub proof fn clients_hold_one_entry(
    t: Seq<ClientSlot>,
    probe: Probe,
    role: u32,
    instance_id: u64,
    client: ShmemClientRegistration,
    now_ms: u64,
)
    requires
        t.len() == CLIENT_SLOTS,
        one_entry_each(t),
        role != CLIENT_ROLE_EMPTY,
    ensures
        one_entry_each(probe.cleaned(t)),
        one_entry_each(clients::registered(probe.cleaned(t), role, instance_id, probe.now_ms, probe.pid).0),
        one_entry_each(clients::released(t, client, now_ms)),
{
    let c = probe.cleaned(t);
    assert forall|i: int, j: int|
        #![trigger c[i], c[j]]
        0 <= i < j < c.len() && c[i].role != CLIENT_ROLE_EMPTY && c[j].role != CLIENT_ROLE_EMPTY implies !(c[i].role
        == c[j].role && c[i].instance_id == c[j].instance_id) by {
        assert(c[i] == t[i] && c[j] == t[j]);
    }
    lemma_first_own(c, role, instance_id, 0);
    lemma_first_free(c, 0);
}

/// Law: release undoes registration.  A client that was new leaves its entry cleared and the
/// rest of the table as it was; one that was there already is back at its old count.
pub proof fn release_undoes_registration(
    t: Seq<ClientSlot>,
    probe: Probe,
    role: u32,
    instance_id: u64,
    later_ms: u64,
)
    requires
        t.len() == CLIENT_SLOTS,
        role != CLIENT_ROLE_EMPTY,
    ensures
        ({
            let c = probe.cleaned(t);
            let (after, result) = clients::registered(c, role, instance_id, probe.now_ms, probe.pid);
            let own = clients::first_own(c, role, instance_id, 0);
            result matches Ok(client) ==> {
                &&& client.slot_index < CLIENT_SLOTS
                &&& clients::holds(after[client.slot_index as int], client)
                &&& own < CLIENT_SLOTS ==> client.slot_index == own && clients::released(after, client, later_ms)
                    == c.update(own, (ClientSlot { heartbeat_ms: later_ms, ..c[own] }))
                &&& own >= CLIENT_SLOTS ==> c[client.slot_index as int].role == CLIENT_ROLE_EMPTY
                    && clients::released(after, client, later_ms) == c.update(
                    client.slot_index as int,
                    clients::empty_client(),
                )
            }
        }),
{
    let c = probe.cleaned(t);
    lemma_first_own(c, role, instance_id, 0);
    lemma_first_free(c, 0);
    let (after, result) = clients::registered(c, role, instance_id, probe.now_ms, probe.pid);
    if let Ok(client) = result {
        let own = clients::first_own(c, role, instance_id, 0);
        if own < CLIENT_SLOTS {
            assert(!probe.finds_stale(c[own])) by {
                assert(c[own] == if probe.finds_stale(t[own]) {
                    clients::empty_client()
                } else {
                    t[own]
                });
            }
            assert(clients::released(after, client, later_ms) =~= c.update(
                own,
                ClientSlot { heartbeat_ms: later_ms, ..c[own] },
            ));
        } else {
            assert(clients::released(after, client, later_ms) =~= c.update(
                client.slot_index as int,
                clients::empty_client(),
            ));
        }
    }
}

/// Law: releasing is idempotent once the last reference is gone.
pub proof fn release_is_idempotent(
    t: Seq<ClientSlot>,
    client: ShmemClientRegistration,
    first_ms: u64,
    second_ms: u64,
)
    requires
        t.len() == CLIENT_SLOTS,
        client.role != CLIENT_ROLE_EMPTY,
        client.slot_index < CLIENT_SLOTS ==> t[client.slot_index as int].refcount <= 1,
    ensures
        clients::released(clients::released(t, client, first_ms), client, second_ms) == clients::released(
            t,
            client,
            first_ms,
        ),
{
}

/// Law: a client that keeps its heartbeat is never cleared.  Whoever looks no later than the
/// stale timeout after its last beat, and does not take its process for dead, leaves its
/// entry alone.
pub proof fn fresh_client_survives_cleanup(t: Seq<ClientSlot>, i: int, probe: Probe)
    requires
        0 <= i < t.len(),
        t[i].refcount > 0,
        t[i].heartbeat_ms > 0,
        probe.now_ms <= t[i].heartbeat_ms + SHM_CLIENT_STALE_TIMEOUT_MS,
        t[i].pid == probe.pid || !probe.dead_pids@.contains(t[i].pid),
    ensures
        probe.cleaned(t)[i] == t[i],
        t[i].role != CLIENT_ROLE_EMPTY ==> probe.live(t) > 0,
{
    if t[i].role != CLIENT_ROLE_EMPTY {
        lemma_live(t, i, probe);
    }
}

proof fn lemma_live(t: Seq<ClientSlot>, i: int, probe: Probe)
    requires
        0 <= i < t.len(),
        t[i].role != CLIENT_ROLE_EMPTY,
        !probe.finds_stale(t[i]),
    ensures
        probe.live(t) > 0,
    decreases t.len(),
{
    if i < t.len() - 1 {
        assert(t.drop_last()[i] == t[i]);
        lemma_live(t.drop_last(), i, probe);
    }
}

/// Law: the count of live clients is zero exactly where cleanup leaves the table empty.
pub proof fn no_live_client_means_empty_table(t: Seq<ClientSlot>, probe: Probe)
    ensures
        probe.live(t) == 0 <==> forall|i: int|
            0 <= i < t.len() ==> (#[trigger] probe.cleaned(t)[i]).role == CLIENT_ROLE_EMPTY,
{
    if probe.live(t) != 0 {
        lemma_some_live(t, probe);
        let i = choose|i: int|
            0 <= i < t.len() && (#[trigger] t[i]).role != CLIENT_ROLE_EMPTY && !probe.finds_stale(t[i]);
        assert(probe.cleaned(t)[i].role != CLIENT_ROLE_EMPTY);
    } else {
        assert forall|i: int| 0 <= i < t.len() implies (#[trigger] probe.cleaned(t)[i]).role == CLIENT_ROLE_EMPTY by {
            if t[i].role != CLIENT_ROLE_EMPTY && !probe.finds_stale(t[i]) {
                lemma_live(t, i, probe);
            }
        }
    }
}

proof fn lemma_some_live(t: Seq<ClientSlot>, probe: Probe)
    requires
        probe.live(t) > 0,
    ensures
        exists|i: int|
            0 <= i < t.len() && (#[trigger] t[i]).role != CLIENT_ROLE_EMPTY && !probe.finds_stale(t[i]),
    decreases t.len(),
{
    if t.last().role != CLIENT_ROLE_EMPTY && !probe.finds_stale(t.last()) {
        assert(t[t.len() - 1] == t.last());
    } else {
        lemma_some_live(t.drop_last(), probe);
        let i = choose|i: int|
            0 <= i < t.drop_last().len() && (#[trigger] t.drop_last()[i]).role != CLIENT_ROLE_EMPTY
                && !probe.finds_stale(t.drop_last()[i]);
        assert(t[i] == t.drop_last()[i]);
    }
}

/// Law: cleaning twice cleans no more.
pub proof fn cleanup_is_idempotent(t: Seq<ClientSlot>, probe: Probe)
    ensures
        probe.cleaned(probe.cleaned(t)) == probe.cleaned(t),
{
    assert(probe.cleaned(probe.cleaned(t)) =~= probe.cleaned(t));
}

/// Law: no process ever takes a half-written entry for a client.  While a new client is
/// entered its entry reads as free, and once it reads as taken it is complete.
pub proof fn entry_appears_at_once(
    m: Seq<u8>,
    i: int,
    role: u32,
    instance_id: u64,
    now_ms: u64,
    pid: u32,
    done: int,
)
    requires
        m.len() >= HEADER_SIZE,
        0 <= i < CLIENT_SLOTS,
        clients::client_at(m, i).role == CLIENT_ROLE_EMPTY,
        0 <= done <= clients::enter_ops(i, role, instance_id, now_ms, pid).len(),
    ensures
        ({
            let ops = clients::enter_ops(i, role, instance_id, now_ms, pid);
            let now = clients::client_at(image::replay(m, ops.take(done)), i);
            if done < ops.len() {
                now.role == CLIENT_ROLE_EMPTY
            } else {
                now == (ClientSlot { role, pid, refcount: 1, instance_id, heartbeat_ms: now_ms })
            }
        }),
{
    reveal_with_fuel(image::replay, 8);
    let ops = clients::enter_ops(i, role, instance_id, now_ms, pid);
    lemma_takes(ops, done);
}

/// Law: while an entry is being cleared, it either still reads as it was, or reads as left
/// behind or free.
pub proof fn entry_vanishes_at_once(m: Seq<u8>, i: int, done: int, probe: Probe)
    requires
        m.len() >= HEADER_SIZE,
        0 <= i < CLIENT_SLOTS,
        0 <= done <= clients::clear_ops(i).len(),
    ensures
        ({
            let now = clients::client_at(image::replay(m, clients::clear_ops(i).take(done)), i);
            if done == 0 {
                now == clients::client_at(m, i)
            } else if done < clients::clear_ops(i).len() {
                now.role == CLIENT_ROLE_EMPTY || probe.finds_stale(now)
            } else {
                now == clients::empty_client()
            }
        }),
{
    reveal_with_fuel(image::replay, 7);
    lemma_takes(clients::clear_ops(i), done);
}

/// Taking one element less is dropping the last one.
proof fn lemma_takes(ops: Seq<image::StoreOp>, done: int)
    requires
        0 <= done <= ops.len() <= 6,
    ensures
        forall|k: int| 0 < k <= done ==> (#[trigger] ops.take(k)).drop_last() == ops.take(k - 1),
        forall|k: int| 0 < k <= done ==> (#[trigger] ops.take(k)).last() == ops[k - 1],
{
    assert forall|k: int| 0 < k <= done implies (#[trigger] ops.take(k)).drop_last() == ops.take(k - 1) by {
        assert(ops.take(k).drop_last() =~= ops.take(k - 1));
    }
}

/// Whether an entry of any role was left behind by a client that crashed or forgot it: nobody
/// refers to it, it never beat, its last beat is more than 30 seconds ago, or its process is
/// known not to run and is not the one that looks.
pub open spec fn left_behind(c: ClientSlot, now_ms: u64, pid: u32, dead_pids: Seq<u32>) -> bool {
    ||| c.refcount == 0
    ||| c.heartbeat_ms == 0
    ||| now_ms > c.heartbeat_ms + 30_000
    ||| c.pid != pid && exists|k: int| 0 <= k < dead_pids.len() && #[trigger] dead_pids[k] == c.pid
}

/// Whether an entry is that of a client which is still there.
pub open spec fn alive(c: ClientSlot, probe: Probe) -> bool {
    c.role != CLIENT_ROLE_EMPTY && !left_behind(c, probe.now_ms, probe.pid, probe.dead_pids@)
}

proof fn lemma_alive(c: ClientSlot, probe: Probe)
    ensures
        alive(c, probe) <==> c.role != CLIENT_ROLE_EMPTY && !probe.finds_stale(c),
{
    if probe.dead_pids@.contains(c.pid) {
        let k = choose|k: int| 0 <= k < probe.dead_pids@.len() && probe.dead_pids@[k] == c.pid;
        assert(probe.dead_pids@[k] == c.pid);
    }
}

/// Law: cleanup clears every entry that was left behind, whatever its role, and no other.  An
/// entry is cleared by zeroing all of it.
pub proof fn cleanup_clears_what_was_left_behind(t: Seq<ClientSlot>, i: int, probe: Probe)
    requires
        0 <= i < t.len(),
    ensures
        probe.cleaned(t).len() == t.len(),
        t[i].role != CLIENT_ROLE_EMPTY && left_behind(t[i], probe.now_ms, probe.pid, probe.dead_pids@)
            ==> probe.cleaned(t)[i] == (ClientSlot { role: 0, pid: 0, refcount: 0, instance_id: 0, heartbeat_ms: 0 }),
        t[i].role == CLIENT_ROLE_EMPTY || !left_behind(t[i], probe.now_ms, probe.pid, probe.dead_pids@)
            ==> probe.cleaned(t)[i] == t[i],
{
    lemma_alive(t[i], probe);
}

/// Law: the clients that count are those whose entry was not left behind, each of them once.
pub proof fn live_clients_are_counted_once(t: Seq<ClientSlot>, c: ClientSlot, probe: Probe)
    ensures
        probe.live(Seq::<ClientSlot>::empty()) == 0,
        probe.live(t.push(c)) == probe.live(t) + (if alive(c, probe) {
            1int
        } else {
            0
        }),
{
    lemma_alive(c, probe);
    assert(t.push(c).drop_last() =~= t);
}

/// Law: a client that registers again shares its first entry, whose count goes up by one; a new
/// one takes the first entry that is free.  Nothing else changes.
pub proof fn registration_takes_the_first_entry(
    t: Seq<ClientSlot>,
    role: u32,
    instance_id: u64,
    now_ms: u64,
    pid: u32,
    j: int,
)
    requires
        t.len() == CLIENT_SLOTS,
        0 <= j < CLIENT_SLOTS,
    ensures
        ({
            let (after, result) = clients::registered(t, role, instance_id, now_ms, pid);
            &&& after.len() == t.len()
            &&& result is Err ==> after == t
            &&& result matches Ok(client) ==> {
                let i = client.slot_index as int;
                let mine = t[i].role == role && t[i].instance_id == instance_id;
                &&& client.role == role && client.instance_id == instance_id
                &&& i < CLIENT_SLOTS
                &&& j != i ==> after[j] == t[j]
                &&& mine || t[i].role == 0
                &&& mine && j < i ==> !(t[j].role == role && t[j].instance_id == instance_id)
                &&& !mine ==> !(t[j].role == role && t[j].instance_id == instance_id)
                &&& !mine && j < i ==> t[j].role != 0
                &&& after[i].heartbeat_ms == now_ms
                &&& after[i].role == role && after[i].instance_id == instance_id
                &&& mine ==> after[i].pid == t[i].pid && after[i].refcount == t[i].refcount + 1
                &&& !mine ==> after[i].pid == pid && after[i].refcount == 1
            }
        }),
{
    lemma_first_own(t, role, instance_id, 0);
    lemma_first_free(t, 0);
}

/// Law: registration fails only where the client's own entry counts as many references as it
/// can, or where the client has no entry and none is free.
pub proof fn registration_fails_only_for_want_of_room(
    t: Seq<ClientSlot>,
    role: u32,
    instance_id: u64,
    now_ms: u64,
    pid: u32,
    j: int,
)
    requires
        t.len() == CLIENT_SLOTS,
        0 <= j < CLIENT_SLOTS,
    ensures
        ({
            let result = clients::registered(t, role, instance_id, now_ms, pid).1;
            let mine = t[j].role == role && t[j].instance_id == instance_id;
            &&& result matches Err(error) ==> error == (BusError::TableFull { role }) || error
                == (BusError::RefcountOverflow { role })
            &&& result == Err::<ShmemClientRegistration, BusError>(BusError::TableFull { role }) ==> t[j].role != 0
                && !mine
            &&& result == Err::<ShmemClientRegistration, BusError>(BusError::RefcountOverflow { role }) ==> exists|i: int|
                0 <= i < CLIENT_SLOTS && (#[trigger] t[i]).role == role && t[i].instance_id == instance_id && t[i].refcount
                    == u32::MAX
            &&& mine && t[j].refcount < u32::MAX && (forall|i: int|
                0 <= i < j ==> !((#[trigger] t[i]).role == role && t[i].instance_id == instance_id)) ==> result is Ok
            &&& t[j].role == 0 && (forall|i: int|
                0 <= i < CLIENT_SLOTS ==> !((#[trigger] t[i]).role == role && t[i].instance_id == instance_id))
                ==> result is Ok
        }),
{
    lemma_first_own(t, role, instance_id, 0);
    lemma_first_free(t, 0);
    let own = clients::first_own(t, role, instance_id, 0);
    if own < CLIENT_SLOTS {
        assert(t[own].role == role);
    }
}

/// Law: a release gives up one reference of the client whose entry it is.  The last reference
/// takes the entry along; an entry that is another's by now, and every other entry, stays.
pub proof fn release_gives_up_one_reference(
    t: Seq<ClientSlot>,
    client: ShmemClientRegistration,
    now_ms: u64,
    j: int,
)
    requires
        t.len() == CLIENT_SLOTS,
        0 <= j < CLIENT_SLOTS,
    ensures
        ({
            let after = clients::released(t, client, now_ms);
            let mine = j == client.slot_index && t[j].role == client.role && t[j].instance_id == client.instance_id;
            &&& after.len() == t.len()
            &&& !mine ==> after[j] == t[j]
            &&& mine && t[j].refcount <= 1 ==> after[j] == (ClientSlot {
                role: 0,
                pid: 0,
                refcount: 0,
                instance_id: 0,
                heartbeat_ms: 0,
            })
            &&& mine && t[j].refcount > 1 ==> {
                &&& after[j].refcount == t[j].refcount - 1
                &&& after[j].heartbeat_ms == now_ms
                &&& after[j].role == t[j].role && after[j].pid == t[j].pid && after[j].instance_id
                    == t[j].instance_id
            }
        }),
{
}

/// Law: a client may refresh its heartbeat exactly while the entry that it registered is there
/// and still its own.
pub proof fn heartbeat_needs_the_own_entry(t: Seq<ClientSlot>, client: ShmemClientRegistration)
    requires
        t.len() == CLIENT_SLOTS,
    ensures
        ({
            let i = client.slot_index as int;
            let verdict = clients::heartbeat_verdict(t, client);
            &&& verdict is Ok <==> i < CLIENT_SLOTS && t[i].role == client.role && t[i].instance_id
                == client.instance_id
            &&& i >= CLIENT_SLOTS ==> verdict == Err::<(), BusError>(BusError::ClientIndex { index: i as usize })
            &&& verdict is Err && i < CLIENT_SLOTS ==> verdict == Err::<(), BusError>(
                BusError::HeartbeatLost {
                    role: client.role,
                    slot: client.slot_index,
                    instance_id: client.instance_id,
                },
            )
        }),
{
}

/// Law: where the words of an entry stand: one cache line each, after the first line of the
/// header.
pub proof fn entries_stand_in_lines(m: Seq<u8>, i: int)
    requires
        0 <= i < CLIENT_SLOTS,
    ensures
        clients::table(m).len() == 128,
        clients::table(m)[i] == (ClientSlot {
            role: mem::u32_at(m, 64 + 64 * i),
            pid: mem::u32_at(m, 64 + 64 * i + 4),
            refcount: mem::u32_at(m, 64 + 64 * i + 8),
            instance_id: mem::u64_at(m, 64 + 64 * i + 16),
            heartbeat_ms: mem::u64_at(m, 64 + 64 * i + 24),
        }),
{
}

/// Law: every store into an entry is atomic.
pub proof fn entries_are_stored_atomically(
    i: int,
    k: int,
    role: u32,
    instance_id: u64,
    client: ShmemClientRegistration,
    now_ms: u64,
    pid: u32,
)
    ensures
        0 <= k < clients::clear_ops(i).len() ==> clients::clear_ops(i)[k].is_atomic(),
        0 <= k < clients::enter_ops(i, role, instance_id, now_ms, pid).len() ==> clients::enter_ops(
            i,
            role,
            instance_id,
            now_ms,
            pid,
        )[k].is_atomic(),
        clients::heartbeat_op(client, now_ms).is_atomic(),
{
}

/// Law: of the processes that were looked up, those are dead that have no number or are not
/// listed.
pub proof fn dead_processes_are_those_not_listed(processes: Seq<(u32, bool)>, pid: u32)
    ensures
        clients::dead_among(processes).contains(pid) <==> exists|k: int|
            0 <= k < processes.len() && (#[trigger] processes[k]).0 == pid && (pid == 0 || !processes[k].1),
        clients::dead_among(processes).len() <= processes.len(),
    decreases processes.len(),
{
    if processes.len() > 0 {
        let front = processes.drop_last();
        let before = clients::dead_among(front);
        let all = clients::dead_among(processes);
        let last = processes.len() - 1;
        dead_processes_are_those_not_listed(front, pid);
        if before.contains(pid) {
            let k = choose|k: int| 0 <= k < front.len() && (#[trigger] front[k]).0 == pid && (pid == 0 || !front[k].1);
            assert(processes[k] == front[k]);
            let x = choose|x: int| 0 <= x < before.len() && before[x] == pid;
            assert(all[x] == pid);
        }
        if all.contains(pid) && !before.contains(pid) {
            let x = choose|x: int| 0 <= x < all.len() && all[x] == pid;
            if x < before.len() {
                assert(before[x] == pid);
            }
            assert(processes[last].0 == pid);
        }
        if exists|k: int|
            0 <= k < processes.len() && (#[trigger] processes[k]).0 == pid && (pid == 0 || !processes[k].1) {
            let k = choose|k: int|
                0 <= k < processes.len() && (#[trigger] processes[k]).0 == pid && (pid == 0 || !processes[k].1);
            if k < last {
                assert(front[k] == processes[k]);
            } else {
                assert(all[before.len() as int] == pid);
            }
        }
    }
}

} // verus!
