//! The two threads of a running engine: the one that processes the local queue, and the timer.
use vstd::prelude::*;

verus! {

/// What the process thread waits for.
#[derive(Debug, Clone, Copy, PartialEq, Eq)]
pub enum ProcessAsk {
    /// The next event from the queue.
    Receive,
    /// The event, deserialized.
    Decode,
    /// Nothing: the thread is over.
    Exit,
}

/// What the process thread gets.  `active` is whether the engine was meant to run by then.
#[derive(Debug, Clone, Copy, PartialEq, Eq)]
pub enum ProcessEvent {
    Received { active: bool },
    /// The queue is gone.
    Disconnected,
    Decoded { active: bool },
    DecodeFailed,
    /// There is no interpreter any more.
    Detached,
}

/// What the process thread does.
#[derive(Debug, Clone, Copy, PartialEq, Eq)]
pub enum ProcessEffect {
    /// Hand the event to its handlers.
    Dispatch,
    /// Log why the event could not be deserialized.
    LogDecodeFailed,
}

/// The thread that processes the local queue.
#[derive(Debug, Clone, Copy, PartialEq, Eq)]
pub struct ProcessLoop {
    pub ask: ProcessAsk,
}

impl ProcessLoop {
    /// What the thread makes of an event.
    pub open spec fn next(self, event: ProcessEvent) -> (ProcessLoop, Option<ProcessEffect>) {
        let receive = ProcessLoop { ask: ProcessAsk::Receive };
        let exit = ProcessLoop { ask: ProcessAsk::Exit };
        match (self.ask, event) {
            (ProcessAsk::Receive, ProcessEvent::Received { active }) => if active {
                (ProcessLoop { ask: ProcessAsk::Decode }, None)
            } else {
                (exit, None)
            },
            (ProcessAsk::Receive, ProcessEvent::Disconnected) => (exit, None),
            (ProcessAsk::Decode, ProcessEvent::Decoded { active }) => (
                receive,
                if active {
                    Some(ProcessEffect::Dispatch)
                } else {
                    None
                },
            ),
            (ProcessAsk::Decode, ProcessEvent::DecodeFailed) => (receive, Some(ProcessEffect::LogDecodeFailed)),
            (ProcessAsk::Decode, ProcessEvent::Detached) => (exit, None),
            _ => (self, None),
        }
    }

    /// The thread before its first event.
    pub fn new() -> (process: ProcessLoop)
        ensures
            process.ask == ProcessAsk::Receive,
    {
        ProcessLoop { ask: ProcessAsk::Receive }
    }

    /// Takes an event, and says what to do.
    pub fn step(&mut self, event: ProcessEvent) -> (effect: Option<ProcessEffect>)
        ensures
            (*final(self), effect) == old(self).next(event),
    {
        match (self.ask, event) {
            (ProcessAsk::Receive, ProcessEvent::Received { active }) => {
                self.ask = if active {
                    ProcessAsk::Decode
                } else {
                    ProcessAsk::Exit
                };
                None
            },
            (ProcessAsk::Receive, ProcessEvent::Disconnected) => {
                self.ask = ProcessAsk::Exit;
                None
            },
            (ProcessAsk::Decode, ProcessEvent::Decoded { active }) => {
                self.ask = ProcessAsk::Receive;
                if active {
                    Some(ProcessEffect::Dispatch)
                } else {
                    None
                }
            },
            (ProcessAsk::Decode, ProcessEvent::DecodeFailed) => {
                self.ask = ProcessAsk::Receive;
                Some(ProcessEffect::LogDecodeFailed)
            },
            (ProcessAsk::Decode, ProcessEvent::Detached) => {
                self.ask = ProcessAsk::Exit;
                None
            },
            _ => None,
        }
    }
}

/// What the log gets when an event could not be deserialized.
pub fn decode_failed_message(detail: &str) -> (message: String)
    ensures
        message@ == "[EventEngine] 反序列化事件失败: "@ + detail@,
{
    let mut out = String::from_str("[EventEngine] 反序列化事件失败: ");
    out.append(detail);
    out
}

/// What the timer waits for.
#[derive(Debug, Clone, Copy, PartialEq, Eq)]
pub enum TimerAsk {
    /// Whether the engine is meant to run.
    Check,
    /// The interval to pass, or the engine to stop.
    Sleep,
    /// Whether the engine is still meant to run.
    CheckAgain,
    /// A timer event with the time of day, serialized.
    Build,
    /// The queue to take it.
    Send,
    /// Nothing: the thread is over.
    Exit,
}

/// What the timer gets.
#[derive(Debug, Clone, Copy, PartialEq, Eq)]
pub enum TimerEvent {
    Checked { active: bool },
    Slept,
    Built,
    BuildFailed,
    /// There is no interpreter any more.
    Detached,
    Sent,
    /// The queue is gone.
    SendFailed,
}

/// The thread that puts a timer event into the local queue at every interval.
#[derive(Debug, Clone, Copy, PartialEq, Eq)]
pub struct TimerLoop {
    pub ask: TimerAsk,
}

impl TimerLoop {
    /// What the timer makes of an event.  A timer event that could not be made is logged, and
    /// the timer goes on.
    pub open spec fn next(self, event: TimerEvent) -> TimerLoop {
        TimerLoop {
            ask: match (self.ask, event) {
                (TimerAsk::Check, TimerEvent::Checked { active }) => if active {
                    TimerAsk::Sleep
                } else {
                    TimerAsk::Exit
                },
                (TimerAsk::Sleep, TimerEvent::Slept) => TimerAsk::CheckAgain,
                (TimerAsk::CheckAgain, TimerEvent::Checked { active }) => if active {
                    TimerAsk::Build
                } else {
                    TimerAsk::Exit
                },
                (TimerAsk::Build, TimerEvent::Built) => TimerAsk::Send,
                (TimerAsk::Build, TimerEvent::BuildFailed) => TimerAsk::Check,
                (TimerAsk::Build, TimerEvent::Detached) => TimerAsk::Exit,
                (TimerAsk::Send, TimerEvent::Sent) => TimerAsk::Check,
                (TimerAsk::Send, TimerEvent::SendFailed) => TimerAsk::Exit,
                _ => self.ask,
            },
        }
    }

    /// The timer before its first event.
    pub fn new() -> (timer: TimerLoop)
        ensures
            timer.ask == TimerAsk::Check,
    {
        TimerLoop { ask: TimerAsk::Check }
    }

    /// Takes an event.  Says whether it goes into the log.
    pub fn step(&mut self, event: TimerEvent) -> (log: bool)
        ensures
            *final(self) == old(self).next(event),
            log == (old(self).ask == TimerAsk::Build && event == TimerEvent::BuildFailed),
    {
        let mut log: bool = false;
        match (self.ask, event) {
            (TimerAsk::Check, TimerEvent::Checked { active }) => {
                self.ask = if active {
                    TimerAsk::Sleep
                } else {
                    TimerAsk::Exit
                };
            },
            (TimerAsk::Sleep, TimerEvent::Slept) => {
                self.ask = TimerAsk::CheckAgain;
            },
            (TimerAsk::CheckAgain, TimerEvent::Checked { active }) => {
                self.ask = if active {
                    TimerAsk::Build
                } else {
                    TimerAsk::Exit
                };
            },
            (TimerAsk::Build, TimerEvent::Built) => {
                self.ask = TimerAsk::Send;
            },
            (TimerAsk::Build, TimerEvent::BuildFailed) => {
                self.ask = TimerAsk::Check;
                log = true;
            },
            (TimerAsk::Build, TimerEvent::Detached) => {
                self.ask = TimerAsk::Exit;
            },
            (TimerAsk::Send, TimerEvent::Sent) => {
                self.ask = TimerAsk::Check;
            },
            (TimerAsk::Send, TimerEvent::SendFailed) => {
                self.ask = TimerAsk::Exit;
            },
            _ => {},
        }
        log
    }

    /// The timer after all of these events.
    pub open spec fn run(self, events: Seq<TimerEvent>) -> TimerLoop
        decreases events.len(),
    {
        if events.len() == 0 {
            self
        } else {
            self.run(events.drop_last()).next(events.last())
        }
    }
}

/// What the log gets when a timer event could not be made.
pub fn build_failed_message(detail: &str) -> (message: String)
    ensures
        message@ == "[EventEngine] 定时器事件构造失败: "@ + detail@,
{
    let mut out = String::from_str("[EventEngine] 定时器事件构造失败: ");
    out.append(detail);
    out
}

/// Law: while the engine is not meant to run the process thread hands no event to a handler.
pub proof fn stopped_engine_dispatches_nothing(process: ProcessLoop, event: ProcessEvent)
    ensures
        process.next(event).1 == Some(ProcessEffect::Dispatch) ==> event == (ProcessEvent::Decoded {
            active: true,
        }),
        event == (ProcessEvent::Received { active: false }) && process.ask == ProcessAsk::Receive ==> process.next(
            event,
        ).0.ask == ProcessAsk::Exit,
{
}

/// How many of these events say that an interval passed.
pub open spec fn intervals(events: Seq<TimerEvent>) -> nat
    decreases events.len(),
{
    if events.len() == 0 {
        0
    } else {
        intervals(events.drop_last()) + (if events.last() == TimerEvent::Slept {
            1nat
        } else {
            0
        })
    }
}

/// How many timer events were put into the queue, or found it gone.
pub open spec fn sends(timer: TimerLoop, events: Seq<TimerEvent>) -> nat
    decreases events.len(),
{
    if events.len() == 0 {
        0
    } else {
        let before = timer.run(events.drop_last());
        sends(timer, events.drop_last()) + (if before.ask == TimerAsk::Send && (events.last()
            == TimerEvent::Sent || events.last() == TimerEvent::SendFailed) {
            1nat
        } else {
            0
        })
    }
}

/// Law: the timer never sends more timer events than intervals passed.
pub proof fn timer_sends_once_per_interval(events: Seq<TimerEvent>)
    ensures
        sends(TimerLoop { ask: TimerAsk::Check }, events) <= intervals(events),
{
    lemma_timer(events);
}

proof fn lemma_timer(events: Seq<TimerEvent>)
    ensures
        ({
            let start = TimerLoop { ask: TimerAsk::Check };
            let ask = start.run(events).ask;
            if ask == TimerAsk::CheckAgain || ask == TimerAsk::Build || ask == TimerAsk::Send {
                sends(start, events) + 1 <= intervals(events)
            } else {
                sends(start, events) <= intervals(events)
            }
        }),
    decreases events.len(),
{
    if events.len() > 0 {
        lemma_timer(events.drop_last());
    }
}

/// Law: an event that is taken from the queue while the engine runs is deserialized, and handed
/// to its handlers if the engine still runs; one that cannot be deserialized is logged.  Either
/// way the thread goes on with the next.
pub proof fn every_event_is_processed(active: bool)
    ensures
        ({
            let receive = ProcessLoop { ask: ProcessAsk::Receive };
            let taken = receive.next(ProcessEvent::Received { active: true });
            let decoded = taken.0.next(ProcessEvent::Decoded { active });
            let failed = taken.0.next(ProcessEvent::DecodeFailed);
            &&& taken.1 is None
            &&& decoded.0 == receive && (decoded.1 == Some(ProcessEffect::Dispatch) <==> active) && (decoded.1
                is None <==> !active)
            &&& failed == (receive, Some(ProcessEffect::LogDecodeFailed))
        }),
{
}

/// Law: the process thread ends exactly when the engine no longer runs as an event comes, the
/// queue is gone, or there is no interpreter any more; once it ended it does nothing.
pub proof fn process_thread_ends_for_a_reason(process: ProcessLoop, event: ProcessEvent)
    ensures
        process.ask != ProcessAsk::Exit ==> (process.next(event).0.ask == ProcessAsk::Exit <==> {
            ||| process.ask == ProcessAsk::Receive && event == (ProcessEvent::Received { active: false })
            ||| process.ask == ProcessAsk::Receive && event == ProcessEvent::Disconnected
            ||| process.ask == ProcessAsk::Decode && event == ProcessEvent::Detached
        }),
        process.ask == ProcessAsk::Exit ==> process.next(event) == (process, None::<ProcessEffect>),
        process.next(event).0.ask == ProcessAsk::Exit ==> process.next(event).1 is None,
{
}

/// Law: the timer ends exactly when the engine no longer runs, there is no interpreter any more,
/// or the queue is gone; once it ended it stays so.
pub proof fn timer_ends_for_a_reason(timer: TimerLoop, event: TimerEvent)
    ensures
        timer.ask != TimerAsk::Exit ==> (timer.next(event).ask == TimerAsk::Exit <==> {
            ||| timer.ask == TimerAsk::Check && event == (TimerEvent::Checked { active: false })
            ||| timer.ask == TimerAsk::CheckAgain && event == (TimerEvent::Checked { active: false })
            ||| timer.ask == TimerAsk::Build && event == TimerEvent::Detached
            ||| timer.ask == TimerAsk::Send && event == TimerEvent::SendFailed
        }),
        timer.ask == TimerAsk::Exit ==> timer.next(event) == timer,
{
}

/// Law: as long as the engine runs and nothing fails, a round of the timer sleeps, looks again,
/// makes an event and sends it, and then starts over; an event that cannot be made is left out.
pub proof fn timer_goes_round()
    ensures
        ({
            let check = TimerLoop { ask: TimerAsk::Check };
            let running = TimerEvent::Checked { active: true };
            let sleep = check.next(running);
            let again = sleep.next(TimerEvent::Slept);
            let build = again.next(running);
            let send = build.next(TimerEvent::Built);
            &&& sleep.ask == TimerAsk::Sleep
            &&& again.ask == TimerAsk::CheckAgain
            &&& build.ask == TimerAsk::Build
            &&& send.ask == TimerAsk::Send
            &&& send.next(TimerEvent::Sent) == check
            &&& build.next(TimerEvent::BuildFailed) == check
        }),
{
}

/// How many intervals the timer slept through.
pub open spec fn slept(timer: TimerLoop, events: Seq<TimerEvent>) -> nat
    decreases events.len(),
{
    if events.len() == 0 {
        0
    } else {
        let before = timer.run(events.drop_last());
        slept(timer, events.drop_last()) + (if before.ask == TimerAsk::Sleep && events.last() == TimerEvent::Slept {
            1nat
        } else {
            0
        })
    }
}

/// How many timer events could not be made.
pub open spec fn unmade(timer: TimerLoop, events: Seq<TimerEvent>) -> nat
    decreases events.len(),
{
    if events.len() == 0 {
        0
    } else {
        let before = timer.run(events.drop_last());
        unmade(timer, events.drop_last()) + (if before.ask == TimerAsk::Build && events.last()
            == TimerEvent::BuildFailed {
            1nat
        } else {
            0
        })
    }
}

/// Law: a timer that has not ended has sent an event for every interval that it slept through,
/// but for those that could not be made and the one that it is about to send.
pub proof fn every_interval_is_sent(events: Seq<TimerEvent>)
    ensures
        ({
            let start = TimerLoop { ask: TimerAsk::Check };
            let ask = start.run(events).ask;
            let pending: int = if ask == TimerAsk::CheckAgain || ask == TimerAsk::Build || ask == TimerAsk::Send {
                1
            } else {
                0
            };
            ask != TimerAsk::Exit ==> slept(start, events) == sends(start, events) + unmade(start, events) + pending
        }),
    decreases events.len(),
{
    if events.len() > 0 {
        every_interval_is_sent(events.drop_last());
    }
}

} // verus!
