//! The event engine: its life between start and stop, and where an event goes.
use vstd::prelude::*;

use crate::event;
use crate::names;
use crate::publisher::ErrorKind;
use crate::subscriber::{MmapSubscriber, Queue};

verus! {

/// What can go wrong with an engine.
#[derive(Debug, PartialEq, Eq)]
pub enum EngineError {
    /// The timer needs an interval.
    IntervalZero,
    /// The running state cannot be set.
    ActiveIsReadOnly,
    /// The process thread could not be started.
    ProcessSpawnFailed { detail: String },
    /// The timer thread could not be started.
    TimerSpawnFailed { detail: String },
    /// The subscriber could not be started.
    SubscriberFailed { detail: String },
    /// The local queue is gone.
    QueueFailed { detail: String },
    /// An event could not be published, and the engine stopped.
    PublishFailed { detail: String },
    /// The time of day could not be had.
    ClockFailed { detail: String },
    /// An event could not be made.
    EventFailed { detail: String },
    /// A thread ended by a panic.
    ThreadDied { name: String },
    /// Something that should be called cannot be.
    NotCallable { name: String },
    /// Something else was given as the engine.
    NotAnEngine { detail: String },
    /// A lock is poisoned.
    LockFailed { context: String, detail: String },
}

impl EngineError {
    /// The text of the message.
    pub open spec fn text(self) -> Seq<char> {
        match self {
            EngineError::IntervalZero => {
                "interval 必须大于 0 秒"@
            },
            EngineError::ActiveIsReadOnly => {
                "active 为只读运行状态，请使用 start()/stop() 改变 EventEngine 生命周期"@
            },
            EngineError::ProcessSpawnFailed { detail } => {
                "启动事件处理线程失败: "@ + detail@
            },
            EngineError::TimerSpawnFailed { detail } => {
                "启动定时器线程失败: "@ + detail@
            },
            EngineError::SubscriberFailed { detail } => {
                "启动共享内存订阅者失败: "@ + detail@
            },
            EngineError::QueueFailed { detail } => {
                "发送事件到本地队列失败: "@ + detail@
            },
            EngineError::PublishFailed { detail } => {
                "共享内存发布失败，事件引擎已停止: "@ + detail@
            },
            EngineError::ClockFailed { detail } => {
                "获取 datetime.now() 失败: "@ + detail@
            },
            EngineError::EventFailed { detail } => {
                "构造 Event 失败: "@ + detail@
            },
            EngineError::ThreadDied { name } => {
                name@ + " 线程异常退出"@
            },
            EngineError::NotCallable { name } => {
                name@ + " 必须是可调用对象"@
            },
            EngineError::NotAnEngine { detail } => {
                "event_engine 必须是 EventEngine 实例: "@ + detail@
            },
            EngineError::LockFailed { context, detail } => {
                context@ + " 失败: "@ + detail@
            },
        }
    }

    /// The message, as users see it.
    pub fn message(&self) -> (message: String)
        ensures
            message@ == self.text(),
    {
        match self {
            EngineError::IntervalZero => {
                String::from_str("interval 必须大于 0 秒")
            },
            EngineError::ActiveIsReadOnly => {
                String::from_str("active 为只读运行状态，请使用 start()/stop() 改变 EventEngine 生命周期")
            },
            EngineError::ProcessSpawnFailed { detail } => {
                let mut out = String::from_str("启动事件处理线程失败: ");
                out.append(detail.as_str());
                out
            },
            EngineError::TimerSpawnFailed { detail } => {
                let mut out = String::from_str("启动定时器线程失败: ");
                out.append(detail.as_str());
                out
            },
            EngineError::SubscriberFailed { detail } => {
                let mut out = String::from_str("启动共享内存订阅者失败: ");
                out.append(detail.as_str());
                out
            },
            EngineError::QueueFailed { detail } => {
                let mut out = String::from_str("发送事件到本地队列失败: ");
                out.append(detail.as_str());
                out
            },
            EngineError::PublishFailed { detail } => {
                let mut out = String::from_str("共享内存发布失败，事件引擎已停止: ");
                out.append(detail.as_str());
                out
            },
            EngineError::ClockFailed { detail } => {
                let mut out = String::from_str("获取 datetime.now() 失败: ");
                out.append(detail.as_str());
                out
            },
            EngineError::EventFailed { detail } => {
                let mut out = String::from_str("构造 Event 失败: ");
                out.append(detail.as_str());
                out
            },
            EngineError::ThreadDied { name } => {
                let mut out = name.clone();
                out.append(" 线程异常退出");
                out
            },
            EngineError::NotCallable { name } => {
                let mut out = name.clone();
                out.append(" 必须是可调用对象");
                out
            },
            EngineError::NotAnEngine { detail } => {
                let mut out = String::from_str("event_engine 必须是 EventEngine 实例: ");
                out.append(detail.as_str());
                out
            },
            EngineError::LockFailed { context, detail } => {
                let mut out = context.clone();
                out.append(" 失败: ");
                out.append(detail.as_str());
                out
            },
        }
    }
}

impl EngineError {
    /// The kind of the error.
    pub open spec fn spec_kind(self) -> ErrorKind {
        match self {
            EngineError::IntervalZero => ErrorKind::Value,
            EngineError::NotCallable { .. } | EngineError::NotAnEngine { .. } => ErrorKind::Type,
            _ => ErrorKind::Runtime,
        }
    }

    /// The kind of the error.
    pub fn kind(&self) -> (kind: ErrorKind)
        ensures
            kind == self.spec_kind(),
    {
        match self {
            EngineError::IntervalZero => ErrorKind::Value,
            EngineError::NotCallable { .. } | EngineError::NotAnEngine { .. } => ErrorKind::Type,
            _ => ErrorKind::Runtime,
        }
    }
}

/// Something that is to be called must be callable.
pub fn ensure_callable(callable: bool, name: &str) -> (result: Result<(), EngineError>)
    ensures
        callable ==> result is Ok,
        !callable ==> match result {
            Err(EngineError::NotCallable { name: told }) => told@ == name@,
            _ => false,
        },
{
    if callable {
        Ok(())
    } else {
        Err(EngineError::NotCallable { name: name.to_owned() })
    }
}

/// An engine.  `Tx` is its local queue, `P` a publisher, `S` a subscriber, `J` a thread.
#[derive(Debug)]
pub struct EventEngine<Tx, P, S, J> {
    /// The interval of the timer, in seconds.
    pub interval: u64,
    /// A name that the engine keeps for its users.
    pub channel: String,
    /// Whether the engine is meant to run.
    pub active: bool,
    pub event_tx: Option<Tx>,
    pub publisher: Option<P>,
    pub subscriber: Option<S>,
    pub process_thread: Option<J>,
    pub timer_thread: Option<J>,
}

/// What a running engine has to give back when it stops.
#[derive(Debug)]
pub struct RuntimeParts<Tx, P, J> {
    pub event_tx: Option<Tx>,
    pub publisher: Option<P>,
    pub process_thread: Option<J>,
    pub timer_thread: Option<J>,
}

/// What attaching a subscriber comes to.
#[derive(Debug)]
pub enum Attached<'a, Tx> {
    /// It gets its queue when the engine starts.
    Waits,
    /// It gets this queue.
    GetsQueue(&'a Tx),
    /// It gets this queue and starts.
    Starts(&'a Tx),
}

impl<'a, Tx> Attached<'a, Tx> {
    /// What the subscriber gets.
    pub open spec fn queue(self) -> Queue<Tx> {
        match self {
            Attached::Waits => Queue::Waits,
            Attached::GetsQueue(tx) => Queue::Gets(*tx),
            Attached::Starts(tx) => Queue::Starts(*tx),
        }
    }
}

impl<Tx, P, S, J> EventEngine<Tx, P, S, J> {
    /// What the engine has for a subscriber that is attached to it.
    pub open spec fn queue(self) -> Queue<Tx> {
        match self.event_tx {
            None => Queue::Waits,
            Some(tx) => if self.active {
                Queue::Starts(tx)
            } else {
                Queue::Gets(tx)
            },
        }
    }

    /// Whether the engine runs: it is meant to, and what it needs was started.
    pub open spec fn runs(self) -> bool {
        self.active && self.event_tx is Some
    }

    /// The timer has an interval.
    pub open spec fn wf(self) -> bool {
        self.interval > 0
    }

    /// An engine that does not run and has nothing attached.
    pub fn new(interval: u64) -> (engine: Result<EventEngine<Tx, P, S, J>, EngineError>)
        ensures
            interval == 0 ==> engine == Err::<EventEngine<Tx, P, S, J>, EngineError>(EngineError::IntervalZero),
            interval > 0 ==> match engine {
                Ok(engine) => {
                    &&& engine.wf()
                    &&& engine.interval == interval
                    &&& engine.channel@ == Seq::<char>::empty()
                    &&& !engine.active
                    &&& engine.event_tx is None
                    &&& engine.publisher is None
                    &&& engine.subscriber is None
                    &&& engine.process_thread is None
                    &&& engine.timer_thread is None
                },
                Err(_) => false,
            },
    {
        if interval == 0 {
            return Err(EngineError::IntervalZero);
        }
        Ok(
            EventEngine {
                interval,
                channel: String::new(),
                active: false,
                event_tx: None,
                publisher: None,
                subscriber: None,
                process_thread: None,
                timer_thread: None,
            },
        )
    }

    /// Whether the engine is meant to run.
    pub fn active(&self) -> (active: bool)
        ensures
            active == self.active,
    {
        self.active
    }

    /// The running state cannot be set from outside.
    pub fn set_active(&self, value: bool) -> (result: Result<(), EngineError>)
        ensures
            result == Err::<(), EngineError>(EngineError::ActiveIsReadOnly),
    {
        Err(EngineError::ActiveIsReadOnly)
    }

    /// The name that the engine keeps for its users.
    pub fn channel(&self) -> (channel: &String)
        ensures
            *channel == self.channel,
    {
        &self.channel
    }

    /// Sets the name that the engine keeps for its users.
    pub fn set_channel(&mut self, value: String)
        ensures
            *final(self) == (EventEngine { channel: value, ..*old(self) }),
    {
        self.channel = value;
    }

    /// Starts the engine, unless it runs already.  Says whether there is anything to start.
    pub fn start(&mut self) -> (starts: bool)
        ensures
            starts == !old(self).active,
            *final(self) == (EventEngine { active: true, ..*old(self) }),
    {
        let starts: bool = !self.active;
        self.active = true;
        starts
    }

    /// The engine after one more step of a course that starts it: it is no longer meant to run
    /// once the course is given up.
    pub open spec fn after_start_step(self, start: EngineStart, event: StartEvent) -> EventEngine<Tx, P, S, J> {
        EventEngine { active: self.active && (start.next(event).active || !start.active), ..self }
    }

    /// Takes what came of a step of the course that starts the engine.  A course that is given
    /// up by it leaves the engine stopped.
    pub fn step_start(&mut self, start: &mut EngineStart, event: StartEvent)
        ensures
            *final(start) == old(start).next(event),
            *final(self) == old(self).after_start_step(*old(start), event),
    {
        let was_active: bool = start.active;
        start.step(event);
        if was_active && !start.active {
            self.active = false;
        }
    }

    /// Takes note of what was started.
    pub fn started(&mut self, event_tx: Tx, process_thread: J, timer_thread: J)
        ensures
            *final(self) == (EventEngine {
                event_tx: Some(event_tx),
                process_thread: Some(process_thread),
                timer_thread: Some(timer_thread),
                ..*old(self)
            }),
    {
        self.event_tx = Some(event_tx);
        self.process_thread = Some(process_thread);
        self.timer_thread = Some(timer_thread);
    }

    /// Stops the engine, unless it does not run.  Says whether there is anything to stop.
    pub fn stop(&mut self) -> (stops: bool)
        ensures
            stops == old(self).active,
            *final(self) == (EventEngine { active: false, ..*old(self) }),
    {
        let stops: bool = self.active;
        self.active = false;
        stops
    }

    /// Hands out what a stopping engine gives back.  A subscriber stays attached, for the next
    /// start.
    pub fn take_runtime_parts(&mut self) -> (parts: RuntimeParts<Tx, P, J>)
        ensures
            parts == (RuntimeParts {
                event_tx: old(self).event_tx,
                publisher: old(self).publisher,
                process_thread: old(self).process_thread,
                timer_thread: old(self).timer_thread,
            }),
            *final(self) == (EventEngine {
                event_tx: None::<Tx>,
                publisher: None::<P>,
                process_thread: None::<J>,
                timer_thread: None::<J>,
                ..*old(self)
            }),
    {
        let event_tx = self.event_tx.take();
        let publisher = self.publisher.take();
        let process_thread = self.process_thread.take();
        let timer_thread = self.timer_thread.take();
        RuntimeParts { event_tx, publisher, process_thread, timer_thread }
    }

    /// Attaches a publisher.
    pub fn attach_publisher(&mut self, publisher: P)
        ensures
            *final(self) == (EventEngine { publisher: Some(publisher), ..*old(self) }),
    {
        self.publisher = Some(publisher);
    }

    /// Attaches a subscriber.
    pub fn attach_subscriber(&mut self, subscriber: S)
        ensures
            *final(self) == (EventEngine { subscriber: Some(subscriber), ..*old(self) }),
    {
        self.subscriber = Some(subscriber);
    }

    /// What becomes of a subscriber that was just attached.
    pub fn attached(&self) -> (attached: Attached<'_, Tx>)
        ensures
            attached.queue() == self.queue(),
    {
        match &self.event_tx {
            None => Attached::Waits,
            Some(tx) => if self.active {
                Attached::Starts(tx)
            } else {
                Attached::GetsQueue(tx)
            },
        }
    }

    /// The queue that takes an event.  Without one, or while the engine does not run, the
    /// event is dropped.
    pub fn event_to_queue_raw(&self) -> (queue: Option<&Tx>)
        ensures
            queue == (match self.event_tx {
                Some(tx) => if self.active {
                    Some(&tx)
                } else {
                    None
                },
                None => None,
            }),
    {
        if !self.active {
            return None;
        }
        match &self.event_tx {
            Some(tx) => Some(tx),
            None => None,
        }
    }

    /// Whether the engine runs, and its process thread with it.
    pub fn is_loop_running(&self, thread_finished: bool) -> (running: bool)
        ensures
            running == (self.active && self.process_thread is Some && !thread_finished),
    {
        self.active && self.process_thread.is_some() && !thread_finished
    }

    /// The publisher that takes an event of a type, if the event goes over the bus.
    pub open spec fn publisher_for(self, type_: Seq<char>) -> Option<P> {
        if type_ == event::EVENT_TICK@ {
            self.publisher
        } else {
            None
        }
    }

    /// Puts an event: one for the bus goes to the publisher, if there is one, any other to the
    /// local queue.
    pub fn put(&self, type_: &String) -> (put: Put)
        ensures
            put == (Put {
                ask: if self.publisher_for(type_@) is Some {
                    PutAsk::Publish
                } else {
                    PutAsk::Queue
                },
                closed: false,
                outcome: None,
            }),
    {
        let tick = String::from_str(event::EVENT_TICK);
        let ask = if *type_ == tick && self.publisher.is_some() {
            PutAsk::Publish
        } else {
            PutAsk::Queue
        };
        Put { ask, closed: false, outcome: None }
    }
}

/// What putting an event comes to next.
#[derive(Debug, Clone, Copy, PartialEq, Eq)]
pub enum PutAsk {
    /// Hand the event to the publisher.
    Publish,
    /// Hand the event to the local queue.
    Queue,
    /// Stop the engine.
    Stop,
    Done,
}

/// What putting an event came to.
#[derive(Debug, Clone, Copy, PartialEq, Eq)]
pub enum PutOutcome {
    Done,
    /// The queue, or stopping the engine, failed: that error goes to the caller.
    StepFailed,
    /// The event could not be published: that error goes to the caller.
    PublishFailed,
}

/// The course of putting an event.
#[derive(Debug, Clone, Copy, PartialEq, Eq)]
pub struct Put {
    pub ask: PutAsk,
    /// Whether the publisher was found closed.
    pub closed: bool,
    pub outcome: Option<PutOutcome>,
}

impl Put {
    /// What follows what came of a step.  An event that could not be published stops the
    /// engine; only where the publisher was closed is that no error.
    pub open spec fn next(self, error: Option<Seq<char>>) -> Put {
        match self.ask {
            PutAsk::Publish => match error {
                None => Put { ask: PutAsk::Done, outcome: Some(PutOutcome::Done), ..self },
                Some(text) => Put {
                    ask: PutAsk::Stop,
                    closed: names::tells_publisher_closed(text),
                    ..self
                },
            },
            PutAsk::Queue => Put {
                ask: PutAsk::Done,
                outcome: Some(
                    if error is None {
                        PutOutcome::Done
                    } else {
                        PutOutcome::StepFailed
                    },
                ),
                ..self
            },
            PutAsk::Stop => Put {
                ask: PutAsk::Done,
                outcome: Some(
                    if error is Some {
                        PutOutcome::StepFailed
                    } else if self.closed {
                        PutOutcome::Done
                    } else {
                        PutOutcome::PublishFailed
                    },
                ),
                ..self
            },
            PutAsk::Done => self,
        }
    }

    /// What the log gets when publishing failed.
    pub open spec fn log_text(error: Seq<char>) -> Seq<char> {
        "[EventEngine] mmap publish 失败，不降级本地队列，停止事件引擎: "@ + error
    }

    /// Takes what came of a step.  Hands back what goes into the log: a failure to publish,
    /// unless the publisher was closed.
    pub fn step(&mut self, error: Option<&str>) -> (log: Option<String>)
        ensures
            *final(self) == old(self).next(
                match error {
                    Some(text) => Some(text@),
                    None => None,
                },
            ),
            log is Some <==> old(self).ask == PutAsk::Publish && error is Some && !final(self).closed,
            log matches Some(text) ==> text@ == Self::log_text(error->0@),
    {
        match self.ask {
            PutAsk::Publish => match error {
                None => {
                    self.ask = PutAsk::Done;
                    self.outcome = Some(PutOutcome::Done);
                    None
                },
                Some(text) => {
                    self.ask = PutAsk::Stop;
                    self.closed = names::is_publisher_closed_error(text);
                    if self.closed {
                        None
                    } else {
                        let mut log = String::from_str(
                            "[EventEngine] mmap publish 失败，不降级本地队列，停止事件引擎: ",
                        );
                        log.append(text);
                        Some(log)
                    }
                },
            },
            PutAsk::Queue => {
                self.ask = PutAsk::Done;
                self.outcome = Some(
                    if error.is_none() {
                        PutOutcome::Done
                    } else {
                        PutOutcome::StepFailed
                    },
                );
                None
            },
            PutAsk::Stop => {
                self.ask = PutAsk::Done;
                self.outcome = Some(
                    if error.is_some() {
                        PutOutcome::StepFailed
                    } else if self.closed {
                        PutOutcome::Done
                    } else {
                        PutOutcome::PublishFailed
                    },
                );
                None
            },
            PutAsk::Done => None,
        }
    }

    /// The course after all of these steps.
    pub open spec fn run(self, errors: Seq<Option<Seq<char>>>) -> Put
        decreases errors.len(),
    {
        if errors.len() == 0 {
            self
        } else {
            self.run(errors.drop_last()).next(errors.last())
        }
    }
}

/// Law: an event that goes to the publisher never falls back to the local queue, whatever
/// fails.
pub proof fn published_event_is_never_queued(put: Put, errors: Seq<Option<Seq<char>>>)
    requires
        put.ask == PutAsk::Publish,
    ensures
        put.run(errors).ask != PutAsk::Queue,
    decreases errors.len(),
{
    if errors.len() > 0 {
        published_event_is_never_queued(put, errors.drop_last());
    }
}

/// Law: when publishing fails the engine is stopped before anything else, and the caller hears
/// of the failure unless the publisher was closed.
pub proof fn failure_to_publish_stops_the_engine(put: Put, error: Seq<char>, stopping: Option<Seq<char>>)
    requires
        put.ask == PutAsk::Publish,
    ensures
        put.next(Some(error)).ask == PutAsk::Stop,
        put.next(Some(error)).next(stopping).ask == PutAsk::Done,
        put.next(Some(error)).next(stopping).outcome == Some(
            if stopping is Some {
                PutOutcome::StepFailed
            } else if names::tells_publisher_closed(error) {
                PutOutcome::Done
            } else {
                PutOutcome::PublishFailed
            },
        ),
{
}

/// What starting an engine comes to next.
#[derive(Debug, Clone, Copy, PartialEq, Eq)]
pub enum StartAsk {
    /// Start the process thread.
    SpawnProcess,
    /// Start the timer thread.
    SpawnTimer,
    /// Take note of the queue and the threads.
    Record,
    /// Give the subscriber the queue, and start it.
    StartSubscriber,
    /// Let go of the queue, and wait for the process thread to end.
    JoinProcess,
    /// Shut everything down again.
    ShutDown,
    Done,
}

/// What came of it.
#[derive(Debug, Clone, Copy, PartialEq, Eq)]
pub enum StartEvent {
    Succeeded,
    Failed,
    /// Note was taken, and a subscriber is attached or not.
    Recorded { subscriber: bool },
}

/// Which part could not be started.
#[derive(Debug, Clone, Copy, PartialEq, Eq)]
pub enum StartFailure {
    Process,
    Timer,
    Subscriber,
}

impl StartFailure {
    /// The error that the caller gets.
    pub fn into_error(self, detail: String) -> (error: EngineError)
        ensures
            error == (match self {
                StartFailure::Process => EngineError::ProcessSpawnFailed { detail },
                StartFailure::Timer => EngineError::TimerSpawnFailed { detail },
                StartFailure::Subscriber => EngineError::SubscriberFailed { detail },
            }),
    {
        match self {
            StartFailure::Process => EngineError::ProcessSpawnFailed { detail },
            StartFailure::Timer => EngineError::TimerSpawnFailed { detail },
            StartFailure::Subscriber => EngineError::SubscriberFailed { detail },
        }
    }
}

/// The course of starting an engine.
#[derive(Debug, Clone, Copy, PartialEq, Eq)]
pub struct EngineStart {
    pub ask: StartAsk,
    /// Whether the engine is still meant to run.
    pub active: bool,
    pub failure: Option<StartFailure>,
}

impl EngineStart {
    /// A start before its first step.
    pub fn new() -> (start: EngineStart)
        ensures
            start == (EngineStart { ask: StartAsk::SpawnProcess, active: true, failure: None }),
    {
        EngineStart { ask: StartAsk::SpawnProcess, active: true, failure: None }
    }

    /// The start given up.
    pub open spec fn given_up(ask: StartAsk, failure: StartFailure) -> EngineStart {
        EngineStart { ask, active: false, failure: Some(failure) }
    }

    /// What follows what came of a step.
    pub open spec fn next(self, event: StartEvent) -> EngineStart {
        match (self.ask, event) {
            (StartAsk::SpawnProcess, StartEvent::Succeeded) => EngineStart { ask: StartAsk::SpawnTimer, ..self },
            (StartAsk::SpawnProcess, StartEvent::Failed) => Self::given_up(StartAsk::Done, StartFailure::Process),
            (StartAsk::SpawnTimer, StartEvent::Succeeded) => EngineStart { ask: StartAsk::Record, ..self },
            (StartAsk::SpawnTimer, StartEvent::Failed) => Self::given_up(
                StartAsk::JoinProcess,
                StartFailure::Timer,
            ),
            (StartAsk::Record, StartEvent::Recorded { subscriber }) => EngineStart {
                ask: if subscriber {
                    StartAsk::StartSubscriber
                } else {
                    StartAsk::Done
                },
                ..self
            },
            (StartAsk::StartSubscriber, StartEvent::Succeeded) => EngineStart { ask: StartAsk::Done, ..self },
            (StartAsk::StartSubscriber, StartEvent::Failed) => Self::given_up(
                StartAsk::ShutDown,
                StartFailure::Subscriber,
            ),
            (StartAsk::JoinProcess, _) | (StartAsk::ShutDown, _) => EngineStart { ask: StartAsk::Done, ..self },
            _ => self,
        }
    }

    /// Takes what came of a step.
    pub fn step(&mut self, event: StartEvent)
        ensures
            *final(self) == old(self).next(event),
    {
        match (self.ask, event) {
            (StartAsk::SpawnProcess, StartEvent::Succeeded) => {
                self.ask = StartAsk::SpawnTimer;
            },
            (StartAsk::SpawnProcess, StartEvent::Failed) => {
                self.give_up(StartAsk::Done, StartFailure::Process);
            },
            (StartAsk::SpawnTimer, StartEvent::Succeeded) => {
                self.ask = StartAsk::Record;
            },
            (StartAsk::SpawnTimer, StartEvent::Failed) => {
                self.give_up(StartAsk::JoinProcess, StartFailure::Timer);
            },
            (StartAsk::Record, StartEvent::Recorded { subscriber }) => {
                self.ask = if subscriber {
                    StartAsk::StartSubscriber
                } else {
                    StartAsk::Done
                };
            },
            (StartAsk::StartSubscriber, StartEvent::Succeeded) => {
                self.ask = StartAsk::Done;
            },
            (StartAsk::StartSubscriber, StartEvent::Failed) => {
                self.give_up(StartAsk::ShutDown, StartFailure::Subscriber);
            },
            (StartAsk::JoinProcess, _) | (StartAsk::ShutDown, _) => {
                self.ask = StartAsk::Done;
            },
            _ => {},
        }
    }

    fn give_up(&mut self, ask: StartAsk, failure: StartFailure)
        ensures
            *final(self) == Self::given_up(ask, failure),
    {
        self.ask = ask;
        self.active = false;
        self.failure = Some(failure);
    }

    /// What a start can be while it lasts: it runs as long as nothing failed, and takes down
    /// again what it started before the failure.
    pub open spec fn wf(self) -> bool {
        &&& self.active <==> self.failure is None
        &&& match self.ask {
            StartAsk::Done => true,
            StartAsk::JoinProcess => self.failure == Some(StartFailure::Timer),
            StartAsk::ShutDown => self.failure == Some(StartFailure::Subscriber),
            _ => self.failure is None,
        }
    }
}

/// An engine and the course that starts it, after all of these steps.
pub open spec fn start_run<Tx, P, S, J>(
    engine: EventEngine<Tx, P, S, J>,
    start: EngineStart,
    events: Seq<StartEvent>,
) -> (EventEngine<Tx, P, S, J>, EngineStart)
    decreases events.len(),
{
    if events.len() == 0 {
        (engine, start)
    } else {
        let (e, s) = start_run(engine, start, events.drop_last());
        (e.after_start_step(s, events.last()), s.next(events.last()))
    }
}

/// Law: a start leaves the engine running exactly if nothing failed, whatever came of its
/// steps, and changes nothing else of the engine.
pub proof fn start_is_all_or_nothing<Tx, P, S, J>(engine: EventEngine<Tx, P, S, J>, events: Seq<StartEvent>)
    ensures
        ({
            let begun = EngineStart { ask: StartAsk::SpawnProcess, active: true, failure: None };
            let (e, s) = start_run(EventEngine { active: true, ..engine }, begun, events);
            &&& s.wf()
            &&& e.active == s.active
            &&& e.active <==> s.failure is None
            &&& e == (EventEngine { active: e.active, ..engine })
        }),
    decreases events.len(),
{
    if events.len() > 0 {
        start_is_all_or_nothing(engine, events.drop_last());
    }
}

/// Law: a part that cannot be started is followed by taking down the parts that were started
/// before it.
pub proof fn failed_start_is_taken_down(start: EngineStart)
    ensures
        start.ask == StartAsk::SpawnProcess ==> start.next(StartEvent::Failed).ask == StartAsk::Done,
        start.ask == StartAsk::SpawnTimer ==> start.next(StartEvent::Failed).ask == StartAsk::JoinProcess,
        start.ask == StartAsk::StartSubscriber ==> start.next(StartEvent::Failed).ask == StartAsk::ShutDown,
{
}

/// Law: a subscriber that is made and attached to an engine is the engine's subscriber, and is
/// meant to run exactly while the engine runs.
pub proof fn attached_subscriber_runs_with_the_engine<Tx, P, S, J, K>(
    engine: EventEngine<Tx, P, S, J>,
    handle: S,
    subscriber: MmapSubscriber<Tx, K>,
)
    requires
        !subscriber.active,
    ensures
        ({
            let attached = EventEngine { subscriber: Some(handle), ..engine };
            let after = subscriber.with_queue(attached.queue());
            &&& after.active <==> engine.runs()
            &&& engine.event_tx is Some ==> after.sender == engine.event_tx
            &&& engine.event_tx is None ==> after == subscriber
        }),
{
}

/// Law: only a tick goes to a publisher, and only where one is attached.
pub proof fn only_ticks_are_published<Tx, P, S, J>(engine: EventEngine<Tx, P, S, J>, type_: Seq<char>)
    ensures
        engine.publisher_for(type_) is Some <==> type_ == "eTick."@ && engine.publisher is Some,
        engine.publisher_for(type_) is Some ==> engine.publisher_for(type_) == engine.publisher,
{
}

/// Law: an event that was published, or taken by the queue, is done with at once; a queue that
/// fails tells the caller.  A put that is done stays so.
pub proof fn put_ends_with_one_outcome(put: Put, error: Option<Seq<char>>)
    ensures
        put.ask == PutAsk::Publish && error is None ==> put.next(error).ask == PutAsk::Done && put.next(error).outcome
            == Some(PutOutcome::Done),
        put.ask == PutAsk::Queue ==> put.next(error).ask == PutAsk::Done && put.next(error).outcome == Some(
            if error is None {
                PutOutcome::Done
            } else {
                PutOutcome::StepFailed
            },
        ),
        put.ask == PutAsk::Done ==> put.next(error) == put,
        put.ask == PutAsk::Publish && error is Some ==> put.next(error).outcome == put.outcome,
{
}

/// What a start asks for, one after the other, while it is told these outcomes.
pub open spec fn start_asks(start: EngineStart, events: Seq<StartEvent>) -> Seq<StartAsk>
    decreases events.len(),
{
    if events.len() == 0 || start.ask == StartAsk::Done {
        seq![]
    } else {
        seq![start.ask] + start_asks(start.next(events[0]), events.drop_first())
    }
}

/// A start after these outcomes.
pub open spec fn start_end(start: EngineStart, events: Seq<StartEvent>) -> EngineStart
    decreases events.len(),
{
    if events.len() == 0 {
        start
    } else {
        start_end(start.next(events[0]), events.drop_first())
    }
}

/// Law: an engine that starts without a failure starts its process thread, its timer and its
/// subscriber, if it has one, in this order, and takes note of them before the subscriber
/// starts.
pub proof fn start_starts_everything(subscriber: bool)
    ensures
        ({
            let begun = EngineStart { ask: StartAsk::SpawnProcess, active: true, failure: None };
            let events = seq![
                StartEvent::Succeeded,
                StartEvent::Succeeded,
                StartEvent::Recorded { subscriber },
                StartEvent::Succeeded,
            ];
            &&& start_asks(begun, events) == seq![StartAsk::SpawnProcess, StartAsk::SpawnTimer, StartAsk::Record]
                + (if subscriber {
                seq![StartAsk::StartSubscriber]
            } else {
                seq![]
            })
            &&& start_end(begun, events) == (EngineStart { ask: StartAsk::Done, active: true, failure: None })
        }),
{
    reveal_with_fuel(start_asks, 6);
    reveal_with_fuel(start_end, 6);
    let begun = EngineStart { ask: StartAsk::SpawnProcess, active: true, failure: None };
    let events = seq![
        StartEvent::Succeeded,
        StartEvent::Succeeded,
        StartEvent::Recorded { subscriber },
        StartEvent::Succeeded,
    ];
    assert(events.drop_first()[0] == events[1]);
    assert(events.drop_first().drop_first()[0] == events[2]);
    assert(events.drop_first().drop_first().drop_first()[0] == events[3]);
    assert(start_asks(begun, events) =~= seq![StartAsk::SpawnProcess, StartAsk::SpawnTimer, StartAsk::Record] + (
    if subscriber {
        seq![StartAsk::StartSubscriber]
    } else {
        seq![]
    }));
}

/// Law: the caller of a start hears of the part that could not be started, and that part only;
/// what is taken down afterwards changes nothing in that, and ends the start.
pub proof fn failed_part_is_told(start: EngineStart, event: StartEvent)
    requires
        start.wf(),
    ensures
        ({
            let n = start.next(event);
            &&& start.failure is Some ==> n.failure == start.failure && n.active == start.active
            &&& start.failure is None && event == StartEvent::Failed ==> n.failure == (match start.ask {
                StartAsk::SpawnProcess => Some(StartFailure::Process),
                StartAsk::SpawnTimer => Some(StartFailure::Timer),
                StartAsk::StartSubscriber => Some(StartFailure::Subscriber),
                _ => None,
            })
            &&& start.failure is None && event != StartEvent::Failed ==> n.failure is None
            &&& start.ask == StartAsk::JoinProcess || start.ask == StartAsk::ShutDown ==> n.ask == StartAsk::Done
        }),
{
}

/// Law: a step of a course that was given up before leaves the engine alone, and so does a step
/// that does not give it up.
pub proof fn only_giving_up_stops_the_engine<Tx, P, S, J>(
    engine: EventEngine<Tx, P, S, J>,
    start: EngineStart,
    event: StartEvent,
)
    ensures
        !start.active || start.next(event).active ==> engine.after_start_step(start, event) == engine,
        start.active && !start.next(event).active ==> engine.after_start_step(start, event) == (EventEngine {
            active: false,
            ..engine
        }),
{
}

/// Law: an engine hands its queue to a subscriber exactly if it has one, and starts the
/// subscriber exactly if it runs.
pub proof fn queue_goes_to_the_subscriber<Tx, P, S, J>(engine: EventEngine<Tx, P, S, J>)
    ensures
        engine.queue() is Waits <==> engine.event_tx is None,
        engine.queue() is Starts <==> engine.event_tx is Some && engine.active,
        engine.queue() matches Queue::Gets(tx) ==> engine.event_tx == Some(tx),
        engine.queue() matches Queue::Starts(tx) ==> engine.event_tx == Some(tx),
{
}

/// Law: an interval of zero is an error of its value, something of the wrong kind is an error of
/// its type, and everything else goes wrong at run time.
pub proof fn kinds_of_engine_errors(error: EngineError)
    ensures
        error.spec_kind() == ErrorKind::Value <==> error is IntervalZero,
        error.spec_kind() == ErrorKind::Type <==> error is NotCallable || error is NotAnEngine,
        error.spec_kind() == ErrorKind::Runtime <==> !(error is IntervalZero) && !(error is NotCallable)
            && !(error is NotAnEngine),
{
}

} // verus!
