//! Laws of the polling loop.
use vstd::prelude::*;

use crate::header;
use crate::layout::NUM_SLOTS_U64;
use crate::names;
use crate::poll::{PollAsk, PollEffect, PollEvent, PollLoop, PollNotice};
use crate::ring;
use crate::ring_laws;
use crate::ring_laws::Traffic;

verus! {

/// A loop that came from the start by answers: it asks about a mapping only while one is
/// open, and a batch lies between the last event dealt with and the last one published.
pub open spec fn sound(s: PollLoop) -> bool {
    match s.ask {
        PollAsk::Slot { seq } => s.connected && s.read_seq < s.start_seq <= seq <= s.write_seq,
        PollAsk::Header | PollAsk::Reopen | PollAsk::HeartbeatAge | PollAsk::Heartbeat => s.connected,
        PollAsk::Open | PollAsk::Exit => !s.connected,
        PollAsk::Active => true,
    }
}

/// Law: the loop starts sound and stays so, whatever it is told.
pub proof fn loop_stays_sound(s: PollLoop, event: PollEvent)
    ensures
        sound(PollLoop::initial()),
        sound(s) ==> sound(s.next(event).state),
{
}

/// Law: a batch is exactly what is new and still in the ring.  What is new and no longer in
/// the ring is reported as dropped, by its exact number.
pub proof fn batch_is_what_is_new(s: PollLoop, write_seq: u64, epoch: u64, seq: u64)
    requires
        write_seq > s.read_seq,
        s.current_epoch == 0 || epoch == s.current_epoch,
    ensures
        ({
            let n = s.after_header(write_seq, epoch);
            let start = n.state.start_seq;
            &&& n.state.ask == (PollAsk::Slot { seq: start })
            &&& n.state.write_seq == write_seq
            &&& start <= seq <= write_seq <==> s.read_seq < seq <= write_seq && seq > write_seq - NUM_SLOTS_U64
            &&& write_seq - s.read_seq <= NUM_SLOTS_U64 ==> n.effects.len() == 0 && start == s.read_seq + 1
            &&& write_seq - s.read_seq > NUM_SLOTS_U64 ==> n.effects.len() == 1 && match n.effects[0] {
                PollEffect::Log(PollNotice::Overflowed { dropped, read_seq, write_seq: last }) => {
                    &&& dropped == start - s.read_seq - 1
                    &&& read_seq == s.read_seq
                    &&& last == write_seq
                },
                _ => false,
            }
        }),
{
}

/// Law: a subscriber gets back what was published.  Where the header was read and nobody
/// publishes meanwhile, every event of the batch reads back exactly as it was published.
pub proof fn batch_reads_back_what_was_published(
    s: PollLoop,
    m: Seq<u8>,
    t: Traffic,
    epoch: u64,
    seq: u64,
)
    requires
        t.holds(m),
        t.stage == 0,
        t.first <= s.read_seq < t.newest(),
        s.current_epoch == 0 || epoch == s.current_epoch,
        s.after_header(header::write_seq(m), epoch).state.start_seq <= seq <= header::write_seq(m),
    ensures
        ring::slot_event(m, seq) == Some(t.log[seq - t.first - 1]),
{
    batch_is_what_is_new(s, header::write_seq(m), epoch, seq);
    ring_laws::newest_events_are_kept(m, t, seq);
}

/// Whether an answer makes the loop begin anew: it opened a mapping, or the bus started over,
/// or went back.
pub open spec fn begins_anew(s: PollLoop, event: PollEvent) -> bool {
    match (s.ask, event) {
        (PollAsk::Open, PollEvent::Opened { .. }) => true,
        (PollAsk::Header, PollEvent::Header { write_seq, epoch }) => write_seq < s.read_seq || s.current_epoch != 0
            && epoch != s.current_epoch,
        (PollAsk::Reopen, PollEvent::Reopened { write_seq, epoch }) => epoch != s.current_epoch || write_seq
            < s.read_seq,
        _ => false,
    }
}

/// The number up to which events were asked for.
pub open spec fn mark(s: PollLoop) -> u64 {
    match s.ask {
        PollAsk::Slot { seq } => seq,
        _ => s.read_seq,
    }
}

/// Whether an answer is one to the question that was asked.
pub open spec fn answers(s: PollLoop, event: PollEvent) -> bool {
    match (s.ask, event) {
        (PollAsk::Active, PollEvent::Active(_)) => true,
        (PollAsk::Open, PollEvent::Opened { .. }) => true,
        (PollAsk::Open, PollEvent::OpenFailed { .. }) => true,
        (PollAsk::Header, PollEvent::Header { .. }) => true,
        (PollAsk::Header, PollEvent::MappingFailed { .. }) => true,
        (PollAsk::Slot { .. }, PollEvent::SlotForwarded) => true,
        (PollAsk::Slot { .. }, PollEvent::SlotNotForwarded) => true,
        (PollAsk::Slot { .. }, PollEvent::SlotMissed) => true,
        (PollAsk::Slot { .. }, PollEvent::MappingFailed { .. }) => true,
        (PollAsk::Reopen, PollEvent::Reopened { .. }) => true,
        (PollAsk::Reopen, PollEvent::ReopenFailed) => true,
        (PollAsk::HeartbeatAge, PollEvent::HeartbeatAge { .. }) => true,
        (PollAsk::Heartbeat, PollEvent::HeartbeatDone) => true,
        (PollAsk::Heartbeat, PollEvent::HeartbeatFailed) => true,
        _ => false,
    }
}

/// Every event is an answer to what the loop asks when it comes, the mapping stays readable,
/// and none makes the loop begin anew.
pub open spec fn smooth(s: PollLoop, events: Seq<PollEvent>) -> bool
    decreases events.len(),
{
    if events.len() == 0 {
        true
    } else {
        &&& answers(s, events[0])
        &&& !(events[0] is MappingFailed)
        &&& !begins_anew(s, events[0])
        &&& smooth(s.next(events[0]).state, events.drop_first())
    }
}

/// The events that the loop asks for while it is told `events`, in order.
pub open spec fn asked_for(s: PollLoop, events: Seq<PollEvent>) -> Seq<u64>
    decreases events.len(),
{
    if events.len() == 0 {
        seq![]
    } else {
        let n = s.next(events[0]).state;
        (match n.ask {
            PollAsk::Slot { seq } => seq![seq],
            _ => seq![],
        }) + asked_for(n, events.drop_first())
    }
}

/// Law: within one life of the bus no event is asked for twice, and events are asked for in
/// the order of their numbers.
pub proof fn events_are_read_in_order(s: PollLoop, events: Seq<PollEvent>)
    requires
        sound(s),
        smooth(s, events),
    ensures
        ({
            let asked = asked_for(s, events);
            &&& forall|i: int| 0 <= i < asked.len() ==> mark(s) < #[trigger] asked[i]
            &&& forall|i: int, j: int| 0 <= i < j < asked.len() ==> #[trigger] asked[i] < #[trigger] asked[j]
        }),
    decreases events.len(),
{
    if events.len() > 0 {
        let n = s.next(events[0]).state;
        events_are_read_in_order(n, events.drop_first());
        assert(mark(s) <= mark(n));
        let rest = asked_for(n, events.drop_first());
        let asked = asked_for(s, events);
        match n.ask {
            PollAsk::Slot { seq } => {
                assert(seq == mark(n));
                assert(mark(s) < seq);
                assert forall|i: int| 0 <= i < asked.len() implies mark(s) < #[trigger] asked[i] by {
                    if i > 0 {
                        assert(asked[i] == rest[i - 1]);
                    }
                }
                assert forall|i: int, j: int| 0 <= i < j < asked.len() implies #[trigger] asked[i] < #[trigger] asked[j] by {
                    assert(asked[j] == rest[j - 1]);
                    if i > 0 {
                        assert(asked[i] == rest[i - 1]);
                    }
                }
            },
            _ => {
                assert(asked =~= rest);
            },
        }
    }
}

/// Law: a batch is read to its end.  Each answer about an event leads to the next event, or,
/// after the last one, to a loop that is done with everything published.
pub proof fn batches_are_read_whole(s: PollLoop, event: PollEvent)
    requires
        sound(s),
        s.ask is Slot,
        answers(s, event),
        !(event is MappingFailed),
    ensures
        ({
            let n = s.next(event).state;
            if mark(s) < s.write_seq {
                n.ask == (PollAsk::Slot { seq: (mark(s) + 1) as u64 }) && n.read_seq == s.read_seq && n.write_seq
                    == s.write_seq
            } else {
                n.ask == PollAsk::HeartbeatAge && n.read_seq == s.write_seq
            }
        }),
{
}

/// Law: the loop ends only when it is told that the subscriber stopped, and a mapping that is
/// open is closed whenever the loop lets go of it.
pub proof fn mapping_is_closed_when_let_go(s: PollLoop, event: PollEvent)
    requires
        sound(s),
    ensures
        ({
            let n = s.next(event);
            &&& n.state.ask is Exit && !(s.ask is Exit) ==> event == PollEvent::Active(false)
            &&& s.connected && !n.state.connected ==> n.effects.contains(PollEffect::CloseMapping)
        }),
{
    let n = s.next(event);
    if s.connected && !n.state.connected {
        match event {
            PollEvent::Active(_) => {
                assert(n.effects[0] == PollEffect::CloseMapping);
            },
            PollEvent::MappingFailed { active } => {
                assert(n.effects[if active {
                    2int
                } else {
                    0
                }] == PollEffect::CloseMapping);
            },
            PollEvent::HeartbeatFailed => {
                assert(n.effects[2] == PollEffect::CloseMapping);
            },
            _ => {},
        }
    }
}

/// Law: no event is skipped.  Unless an answer makes the loop begin anew, the number of the last
/// event dealt with changes only when the last event of a batch was answered, and then to the
/// end of that batch.
pub proof fn nothing_is_skipped(s: PollLoop, event: PollEvent)
    requires
        sound(s),
        !begins_anew(s, event),
    ensures
        ({
            let n = s.next(event).state;
            let ends_batch = s.ask == (PollAsk::Slot { seq: s.write_seq }) && (event is SlotForwarded
                || event is SlotNotForwarded || event is SlotMissed);
            &&& ends_batch ==> n.read_seq == s.write_seq
            &&& !ends_batch ==> n.read_seq == s.read_seq
            &&& n.current_epoch == s.current_epoch
        }),
{
}

/// Law: a loop that begins anew begins behind the newest event, and goes by the epoch that it
/// found.  Only a bus that went back keeps its epoch.
pub proof fn beginning_anew_replays_nothing(s: PollLoop, event: PollEvent)
    requires
        begins_anew(s, event),
    ensures
        ({
            let n = s.next(event).state;
            match event {
                PollEvent::Opened { write_seq, epoch } => n.read_seq == write_seq && n.current_epoch == epoch,
                PollEvent::Reopened { write_seq, epoch } => n.read_seq == write_seq && n.current_epoch == epoch,
                PollEvent::Header { write_seq, epoch } => {
                    &&& n.read_seq == write_seq
                    &&& s.current_epoch != 0 ==> n.current_epoch == epoch
                    &&& s.current_epoch == 0 ==> n.current_epoch == 0
                },
                _ => true,
            }
        }),
{
}

/// How many events these notices report as dropped.
pub open spec fn reported(effects: Seq<PollEffect>) -> int
    decreases effects.len(),
{
    if effects.len() == 0 {
        0
    } else {
        reported(effects.drop_last()) + (match effects.last() {
            PollEffect::Log(PollNotice::Overflowed { dropped, .. }) => dropped as int,
            _ => 0,
        })
    }
}

/// How many events are reported as dropped while the loop is told `events`.
pub open spec fn dropped_in(s: PollLoop, events: Seq<PollEvent>) -> int
    decreases events.len(),
{
    if events.len() == 0 {
        0
    } else {
        let n = s.next(events[0]);
        reported(n.effects) + dropped_in(n.state, events.drop_first())
    }
}

/// The loop once it was told `events`.
pub open spec fn told(s: PollLoop, events: Seq<PollEvent>) -> PollLoop
    decreases events.len(),
{
    if events.len() == 0 {
        s
    } else {
        told(s.next(events[0]).state, events.drop_first())
    }
}

proof fn lemma_reported(effects: Seq<PollEffect>)
    requires
        effects.len() <= 4,
        forall|i: int|
            0 <= i < effects.len() ==> !(#[trigger] effects[i] is Log && effects[i]->Log_0 is Overflowed),
    ensures
        reported(effects) == 0,
    decreases effects.len(),
{
    if effects.len() > 0 {
        let front = effects.drop_last();
        assert forall|i: int| 0 <= i < front.len() implies !(#[trigger] front[i] is Log && front[i]->Log_0 is Overflowed) by {
            assert(front[i] == effects[i]);
        }
        lemma_reported(front);
        assert(effects.last() == effects[effects.len() - 1]);
    }
}

/// What one answer asks for next: the number after the last one, or a later one, by as many as
/// are reported as dropped.
proof fn lemma_one_answer(s: PollLoop, event: PollEvent)
    requires
        sound(s),
        answers(s, event),
        !(event is MappingFailed),
        !begins_anew(s, event),
    ensures
        ({
            let n = s.next(event);
            mark(n.state) == mark(s) + reported(n.effects) + (if n.state.ask is Slot {
                1int
            } else {
                0
            })
        }),
{
    reveal_with_fuel(reported, 2);
    let n = s.next(event);
    match (s.ask, event) {
        (PollAsk::Header, PollEvent::Header { write_seq, epoch }) => {
            if write_seq > s.read_seq {
                if write_seq - s.read_seq > NUM_SLOTS_U64 {
                    assert(n.effects.drop_last() =~= seq![]);
                }
            } else {
                lemma_reported(n.effects);
            }
        },
        _ => {
            lemma_reported(n.effects);
        },
    }
}

/// Law: within one life of the bus every event is accounted for.  Each number after the one with
/// which the loop started was asked for or reported as dropped, and no number was both or twice:
/// the numbers between are as many as were asked for and were reported as dropped.
pub proof fn every_event_is_accounted_for(s: PollLoop, events: Seq<PollEvent>)
    requires
        sound(s),
        smooth(s, events),
    ensures
        mark(told(s, events)) == mark(s) + asked_for(s, events).len() + dropped_in(s, events),
    decreases events.len(),
{
    if events.len() > 0 {
        lemma_one_answer(s, events[0]);
        loop_stays_sound(s, events[0]);
        every_event_is_accounted_for(s.next(events[0]).state, events.drop_first());
    }
}

/// Law: within one life of the bus the events that are asked for come one after the other, with
/// no number left out, unless a batch begins with a report of how many were dropped.
pub proof fn events_are_asked_for_one_by_one(s: PollLoop, event: PollEvent)
    requires
        sound(s),
        answers(s, event),
        !(event is MappingFailed),
        !begins_anew(s, event),
        s.next(event).state.ask is Slot,
    ensures
        ({
            let n = s.next(event);
            let asked = n.state.ask->seq;
            let last = match s.ask {
                PollAsk::Slot { seq } => seq,
                _ => s.read_seq,
            };
            ||| asked == last + 1 && n.effects.len() == 0
            ||| {
                &&& s.ask is Header && n.effects.len() == 1
                &&& n.effects[0] matches PollEffect::Log(PollNotice::Overflowed { dropped, read_seq, write_seq })
                &&& dropped > 0 && asked == last + 1 + dropped
                &&& write_seq - asked + 1 == 16_384
                &&& read_seq == last
            }
        }),
{
}

/// Law: a mapping that was opened once more is used instead of the one at hand exactly where it
/// is another bus, or one that went back; then the one at hand is closed first.  Otherwise only
/// the new one is closed, and the loop goes on where it was.
pub proof fn probe_is_adopted_or_closed(s: PollLoop, write_seq: u64, epoch: u64)
    requires
        s.ask == PollAsk::Reopen,
    ensures
        ({
            let n = s.next(PollEvent::Reopened { write_seq, epoch });
            let other = epoch != s.current_epoch || write_seq < s.read_seq;
            &&& n.state.ask == PollAsk::HeartbeatAge
            &&& !other ==> n.effects == seq![PollEffect::CloseProbe] && n.state == (PollLoop {
                ask: PollAsk::HeartbeatAge,
                ..s
            })
            &&& other ==> n.effects.len() == 4 && n.effects[1] == PollEffect::CloseMapping && n.effects[2]
                == PollEffect::MarkHeartbeat && n.effects[3] == PollEffect::AdoptProbe && n.state.connected
            &&& other ==> n.effects[0] == PollEffect::Log(
                PollNotice::Switched {
                    old_epoch: s.current_epoch,
                    new_epoch: epoch,
                    old_read_seq: s.read_seq,
                    new_write_seq: write_seq,
                },
            )
        }),
        s.next(PollEvent::ReopenFailed).effects.len() == 0,
        s.next(PollEvent::ReopenFailed).state == (PollLoop { ask: PollAsk::HeartbeatAge, ..s }),
{
}

/// Law: the events of a batch that were missed, and those that found no queue, are counted one
/// by one from the start of the batch, and the others are not.
pub proof fn lost_events_are_counted(s: PollLoop, event: PollEvent)
    requires
        sound(s),
        answers(s, event),
        s.missed < u64::MAX,
        s.forward_failed < u64::MAX,
    ensures
        ({
            let n = s.next(event).state;
            &&& s.ask is Header && n.ask is Slot ==> n.missed == 0 && n.forward_failed == 0
            &&& s.ask is Slot && !(event is MappingFailed) ==> n.missed == s.missed + (if event is SlotMissed {
                1int
            } else {
                0
            })
            &&& s.ask is Slot && !(event is MappingFailed) ==> n.forward_failed == s.forward_failed + (
            if event is SlotNotForwarded {
                1int
            } else {
                0
            })
        }),
{
}

/// Law: at the end of a batch the events that were missed are told with their number, and those
/// that found no queue too, but only the first time.  Before the end nothing is told.
pub proof fn lost_events_are_told(s: PollLoop, event: PollEvent)
    requires
        sound(s),
        s.ask is Slot,
        event is SlotForwarded || event is SlotNotForwarded || event is SlotMissed,
    ensures
        ({
            let n = s.next(event);
            let missed = n.state.missed;
            let failed = n.state.forward_failed;
            let told_missed = PollEffect::Log(
                PollNotice::SlotsMissed { missed, start_seq: s.start_seq, write_seq: s.write_seq },
            );
            let told_failed = PollEffect::Log(PollNotice::NotForwarded { failed });
            let last = s.ask == (PollAsk::Slot { seq: s.write_seq });
            &&& !last ==> n.effects.len() == 0 && n.state.warned_no_sender == s.warned_no_sender
            &&& last ==> n.effects.last() == PollEffect::SleepUs(100)
            &&& last ==> (n.effects.contains(told_missed) <==> missed > 0)
            &&& last ==> (n.effects.contains(told_failed) <==> failed > 0 && !s.warned_no_sender)
            &&& last ==> n.state.warned_no_sender == (s.warned_no_sender || failed > 0)
            &&& last ==> n.effects.len() == 1 + (if missed > 0 {
                1int
            } else {
                0
            }) + (if failed > 0 && !s.warned_no_sender {
                1int
            } else {
                0
            })
        }),
{
    let n = s.next(event);
    let told_missed = PollEffect::Log(
        PollNotice::SlotsMissed { missed: n.state.missed, start_seq: s.start_seq, write_seq: s.write_seq },
    );
    let told_failed = PollEffect::Log(PollNotice::NotForwarded { failed: n.state.forward_failed });
    if s.ask == (PollAsk::Slot { seq: s.write_seq }) {
        let warn = n.state.forward_failed > 0 && !s.warned_no_sender;
        if n.state.missed > 0 {
            assert(n.effects[0] == told_missed);
        }
        if warn {
            assert(n.effects[if n.state.missed > 0 {
                1int
            } else {
                0
            }] == told_failed);
        }
    }
}

/// Law: the more polls in a row find nothing new, the longer the loop sleeps: 100 microseconds,
/// from the 50th on 500, and from the 90th on a millisecond.  Anything new starts the count
/// over.
pub proof fn idle_polls_slow_down(s: PollLoop, write_seq: u64, epoch: u64)
    requires
        s.ask == PollAsk::Header,
        s.idle_count < u32::MAX,
        s.idle_reopen_count < u32::MAX,
        s.current_epoch == 0 || epoch == s.current_epoch,
        write_seq >= s.read_seq,
    ensures
        ({
            let n = s.next(PollEvent::Header { write_seq, epoch });
            let idle = s.idle_count + 1;
            &&& write_seq > s.read_seq ==> n.state.idle_count == 0 && n.state.idle_reopen_count == 0
            &&& write_seq == s.read_seq ==> {
                &&& n.state.idle_count == idle
                &&& n.effects.len() == 1
                &&& idle < 50 ==> n.effects[0] == PollEffect::SleepUs(100)
                &&& 50 <= idle < 90 ==> n.effects[0] == PollEffect::SleepUs(500)
                &&& idle >= 90 ==> n.effects[0] == PollEffect::SleepUs(1_000)
                &&& idle < 90 && s.idle_reopen_count < 81 ==> n.state.ask == PollAsk::HeartbeatAge
                    && n.state.idle_reopen_count == s.idle_reopen_count
                &&& idle >= 90 && s.idle_reopen_count + 1 < 81 ==> n.state.ask == PollAsk::HeartbeatAge
                    && n.state.idle_reopen_count == s.idle_reopen_count + 1
                &&& idle >= 90 && s.idle_reopen_count + 1 >= 81 ==> n.state.ask == PollAsk::Reopen
                    && n.state.idle_reopen_count == 0
            }
        }),
{
}

/// Law: whenever a header was read without the loop beginning anew, the age of the heartbeat is
/// asked for before the next header: after the batch, after a mapping was opened once more, or at
/// once.  A heartbeat is due after a second, and not before.
pub proof fn heartbeat_is_kept_up(s: PollLoop, event: PollEvent, ms: u64)
    requires
        sound(s),
        answers(s, event),
        !(event is MappingFailed),
    ensures
        ({
            let n = s.next(event).state;
            &&& s.ask is Header && !begins_anew(s, event) ==> n.ask is Slot || n.ask is Reopen || n.ask is HeartbeatAge
            &&& s.ask is Slot ==> n.ask is Slot || n.ask is HeartbeatAge
            &&& s.ask is Reopen ==> n.ask is HeartbeatAge
        }),
        s.ask is HeartbeatAge ==> ({
            let n = s.next(PollEvent::HeartbeatAge { ms });
            &&& ms >= 1_000 ==> n.state.ask == PollAsk::Heartbeat && n.effects.len() == 0
            &&& ms < 1_000 ==> n.state.ask == PollAsk::Active && n.effects.len() == 0
        }),
        s.ask is Heartbeat ==> ({
            let done = s.next(PollEvent::HeartbeatDone);
            let failed = s.next(PollEvent::HeartbeatFailed);
            &&& done.state == (PollLoop { ask: PollAsk::Active, ..s }) && done.effects
                == seq![PollEffect::MarkHeartbeat]
            &&& failed.state == (PollLoop { ask: PollAsk::Active, connected: false, ..s })
        }),
{
}

/// Law: a loop that has no mapping opens one, a loop that has one reads its header, and a loop
/// that is told to stop ends, closing what it has.
pub proof fn active_loop_goes_on(s: PollLoop)
    requires
        s.ask == PollAsk::Active,
    ensures
        s.next(PollEvent::Active(true)).effects.len() == 0,
        s.next(PollEvent::Active(true)).state.ask == (if s.connected {
            PollAsk::Header
        } else {
            PollAsk::Open
        }),
        s.next(PollEvent::Active(false)).state.ask == PollAsk::Exit,
        s.next(PollEvent::Active(false)).effects == seq![PollEffect::CloseMapping],
{
}

/// Law: a mapping that could not be opened is tried again after a pause, and told of unless
/// there simply is none.  One that was opened counts as fresh.
pub proof fn opening_is_tried_again(s: PollLoop, error: String, write_seq: u64, epoch: u64)
    requires
        s.ask == PollAsk::Open,
    ensures
        ({
            let n = s.next(PollEvent::OpenFailed { error });
            let pause = PollEffect::SleepUnlessStopped { ms: 81 };
            &&& n.state == (PollLoop { ask: PollAsk::Active, ..s })
            &&& names::tells_not_found(error@) ==> n.effects == seq![pause]
            &&& !names::tells_not_found(error@) ==> n.effects == seq![PollEffect::Tell(PollNotice::ConnectFailed), pause]
        }),
        ({
            let n = s.next(PollEvent::Opened { write_seq, epoch });
            &&& n.state.ask == PollAsk::Header && n.state.connected
            &&& n.state.idle_count == 0 && n.state.idle_reopen_count == 0
            &&& n.state.warned_no_sender == s.warned_no_sender
            &&& n.effects == seq![PollEffect::MarkHeartbeat]
        }),
{
    let n = s.next(PollEvent::OpenFailed { error });
    let pause = PollEffect::SleepUnlessStopped { ms: 81 };
    if names::tells_not_found(error@) {
        assert(n.effects =~= seq![pause]);
    } else {
        assert(n.effects =~= seq![PollEffect::Tell(PollNotice::ConnectFailed), pause]);
    }
}

/// Law: a mapping that is lost is told of, closed, and opened again after a pause; the loop
/// remembers how far it had read.  A subscriber that stops anyway is told nothing.
pub proof fn lost_mapping_is_opened_again(s: PollLoop, active: bool)
    requires
        sound(s),
        s.ask is Header || s.ask is Slot || s.ask is Heartbeat,
    ensures
        ({
            let pause = PollEffect::SleepUnlessStopped { ms: 81 };
            let lost = s.next(PollEvent::MappingFailed { active });
            let stale = s.next(PollEvent::HeartbeatFailed);
            &&& !(s.ask is Heartbeat) ==> {
                &&& lost.state == (PollLoop { ask: PollAsk::Active, connected: false, ..s })
                &&& active ==> lost.effects == seq![
                    PollEffect::Tell(PollNotice::ReadFailed),
                    PollEffect::Disconnected,
                    PollEffect::CloseMapping,
                    pause,
                ]
                &&& !active ==> lost.effects == seq![PollEffect::CloseMapping, pause]
            }
            &&& s.ask is Heartbeat ==> stale.effects == seq![
                PollEffect::Tell(PollNotice::HeartbeatFailed),
                PollEffect::Disconnected,
                PollEffect::CloseMapping,
                pause,
            ]
        }),
{
    let pause = PollEffect::SleepUnlessStopped { ms: 81 };
    let lost = s.next(PollEvent::MappingFailed { active });
    if !(s.ask is Heartbeat) {
        if active {
            assert(lost.effects =~= seq![
                PollEffect::Tell(PollNotice::ReadFailed),
                PollEffect::Disconnected,
                PollEffect::CloseMapping,
                pause,
            ]);
        } else {
            assert(lost.effects =~= seq![PollEffect::CloseMapping, pause]);
        }
    }
}

/// Law: when the loop begins anew on the mapping at hand, it says so and looks at the header
/// again, and forgets nothing else.
pub proof fn restarted_bus_is_told(s: PollLoop, write_seq: u64, epoch: u64)
    requires
        s.ask == PollAsk::Header,
    ensures
        ({
            let n = s.next(PollEvent::Header { write_seq, epoch });
            &&& s.current_epoch != 0 && epoch != s.current_epoch ==> {
                &&& n.effects == seq![
                    PollEffect::Log(PollNotice::EpochChanged { old_epoch: s.current_epoch, new_epoch: epoch, write_seq }),
                ]
                &&& n.state == (PollLoop {
                    ask: PollAsk::Active,
                    read_seq: write_seq,
                    current_epoch: epoch,
                    ..s
                })
            }
            &&& (s.current_epoch == 0 || epoch == s.current_epoch) && write_seq < s.read_seq ==> {
                &&& n.effects == seq![PollEffect::Log(PollNotice::WentBack { read_seq: s.read_seq, write_seq })]
                &&& n.state == (PollLoop { ask: PollAsk::Active, read_seq: write_seq, ..s })
            }
        }),
{
}

/// Law: an answer to another question changes nothing.
pub proof fn other_answers_change_nothing(s: PollLoop, event: PollEvent)
    requires
        !answers(s, event),
    ensures
        s.next(event).state == s,
        s.next(event).effects.len() == 0,
{
}

/// Law: what the loop remembers changes only for a reason: the bounds of a batch when a batch
/// begins, the counts of idle polls when a header is read or a mapping opened, that a missing
/// queue was told of at the end of a batch, and that a mapping is open when one is opened or let
/// go.
pub proof fn loop_remembers(s: PollLoop, event: PollEvent)
    requires
        sound(s),
    ensures
        ({
            let n = s.next(event).state;
            &&& !(s.ask is Header) ==> n.start_seq == s.start_seq && n.write_seq == s.write_seq
            &&& !(s.ask is Header) && !(s.ask is Open) ==> n.idle_count == s.idle_count && n.idle_reopen_count
                == s.idle_reopen_count
            &&& !(s.ask is Slot) ==> n.warned_no_sender == s.warned_no_sender
            &&& s.warned_no_sender ==> n.warned_no_sender
            &&& n.connected && !s.connected ==> event is Opened
            &&& s.connected && !n.connected ==> event is MappingFailed || event is HeartbeatFailed || event
                == PollEvent::Active(false)
            &&& s.ask is Header && n.ask is Slot ==> n.ask == (PollAsk::Slot { seq: n.start_seq }) && (
            event matches PollEvent::Header { write_seq, .. } && n.write_seq == write_seq)
        }),
{
}

} // verus!
