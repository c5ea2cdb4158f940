//! The subscriber: its life between start and stop, and the queue it forwards to.
use vstd::prelude::*;

use crate::engine;
use crate::engine::EngineError;

verus! {

/// What can go wrong with a subscriber.
#[derive(Debug, PartialEq, Eq)]
pub enum SubscribeError {
    /// No engine gave the subscriber a queue.
    NotAttached,
    /// The running state cannot be set.
    ActiveIsReadOnly,
    /// The polling thread could not be started.
    SpawnFailed { detail: String },
}

impl SubscribeError {
    /// The text of the message.
    pub open spec fn text(self) -> Seq<char> {
        match self {
            SubscribeError::NotAttached => {
                "MmapSubscriber 尚未绑定 EventEngine 队列；请先调用 EventEngine.attach_subscriber() 再启动"@
            },
            SubscribeError::ActiveIsReadOnly => {
                "active 为只读运行状态，请使用 start()/stop() 改变 MmapSubscriber 生命周期"@
            },
            SubscribeError::SpawnFailed { detail } => {
                "启动订阅轮询线程失败: "@ + detail@
            },
        }
    }

    /// The message, as users see it.
    pub fn message(&self) -> (message: String)
        ensures
            message@ == self.text(),
    {
        match self {
            SubscribeError::NotAttached => {
                String::from_str("MmapSubscriber 尚未绑定 EventEngine 队列；请先调用 EventEngine.attach_subscriber() 再启动")
            },
            SubscribeError::ActiveIsReadOnly => {
                String::from_str("active 为只读运行状态，请使用 start()/stop() 改变 MmapSubscriber 生命周期")
            },
            SubscribeError::SpawnFailed { detail } => {
                let mut out = String::from_str("启动订阅轮询线程失败: ");
                out.append(detail.as_str());
                out
            },
        }
    }
}

/// A subscriber.  `Tx` is the queue that it forwards events to, `J` its polling thread.
#[derive(Debug)]
pub struct MmapSubscriber<Tx, J> {
    pub shm_name: String,
    /// Whether the subscriber is meant to run.
    pub active: bool,
    pub sender: Option<Tx>,
    pub poll_thread: Option<J>,
}

/// What starting a subscriber comes to.
#[derive(Debug, PartialEq, Eq)]
pub enum SubscriberStart {
    /// It cannot start.
    Refused(SubscribeError),
    /// It runs already.
    Running,
    /// The polling thread is to be started.
    Spawn,
}

/// What an engine has for a subscriber that is attached to it.
#[derive(Debug)]
pub enum Queue<Tx> {
    /// Its queue comes when the engine starts.
    Waits,
    /// It gets this queue.
    Gets(Tx),
    /// It gets this queue and starts.
    Starts(Tx),
}

/// What is wrong with the arguments that a subscriber is made from, if anything is: a callback
/// that cannot be called, or something else in place of the engine.
pub open spec fn fault_of(
    log_exception: Option<bool>,
    on_disconnect: Option<bool>,
    event_engine: Option<Result<(), Seq<char>>>,
) -> Option<Fault> {
    if log_exception == Some(false) {
        Some(Fault::NotCallable { name: "log_exception"@ })
    } else if on_disconnect == Some(false) {
        Some(Fault::NotCallable { name: "on_disconnect"@ })
    } else {
        match event_engine {
            Some(Err(detail)) => Some(Fault::NotAnEngine { detail }),
            _ => None,
        }
    }
}

/// What can be wrong with the arguments that a subscriber is made from.
pub enum Fault {
    NotCallable { name: Seq<char> },
    NotAnEngine { detail: Seq<char> },
}

impl Fault {
    /// Whether an error tells of this fault.
    pub open spec fn is_told_by(self, error: EngineError) -> bool {
        match (self, error) {
            (Fault::NotCallable { name }, EngineError::NotCallable { name: told }) => told@ == name,
            (Fault::NotAnEngine { detail }, EngineError::NotAnEngine { detail: told }) => told@ == detail,
            _ => false,
        }
    }
}

impl<Tx, J> MmapSubscriber<Tx, J> {
    /// A subscriber that does not run and has no queue.  Of each callback that is given it is
    /// told whether it can be called, and of an engine that is given whether it is one, or why
    /// not.  The first fault is the error, and comes before any engine gets to know of the
    /// subscriber.
    pub fn new(
        shm_name: String,
        log_exception: Option<bool>,
        on_disconnect: Option<bool>,
        event_engine: Option<Result<(), String>>,
    ) -> (subscriber: Result<MmapSubscriber<Tx, J>, EngineError>)
        ensures
            ({
                let engine = match event_engine {
                    None => None,
                    Some(Ok(_)) => Some(Ok(())),
                    Some(Err(detail)) => Some(Err(detail@)),
                };
                match fault_of(log_exception, on_disconnect, engine) {
                    None => subscriber == Ok::<MmapSubscriber<Tx, J>, EngineError>(
                        MmapSubscriber {
                            shm_name,
                            active: false,
                            sender: None::<Tx>,
                            poll_thread: None::<J>,
                        },
                    ),
                    Some(fault) => match subscriber {
                        Err(error) => fault.is_told_by(error),
                        Ok(_) => false,
                    },
                }
            }),
    {
        if let Some(callable) = log_exception {
            match engine::ensure_callable(callable, "log_exception") {
                Err(error) => return Err(error),
                Ok(_) => {},
            }
        }
        if let Some(callable) = on_disconnect {
            match engine::ensure_callable(callable, "on_disconnect") {
                Err(error) => return Err(error),
                Ok(_) => {},
            }
        }
        if let Some(Err(detail)) = event_engine {
            return Err(EngineError::NotAnEngine { detail });
        }
        Ok(MmapSubscriber { shm_name, active: false, sender: None, poll_thread: None })
    }

    /// The name of the mapping.
    pub fn shm_name(&self) -> (name: &String)
        ensures
            *name == self.shm_name,
    {
        &self.shm_name
    }

    /// Whether the subscriber is meant to run.
    pub fn active(&self) -> (active: bool)
        ensures
            active == self.active,
    {
        self.active
    }

    /// The running state cannot be set from outside.
    pub fn set_active(&self, value: bool) -> (result: Result<(), SubscribeError>)
        ensures
            result == Err::<(), SubscribeError>(SubscribeError::ActiveIsReadOnly),
    {
        Err(SubscribeError::ActiveIsReadOnly)
    }

    /// Sets the queue that events are forwarded to, or takes it away.
    pub fn set_sender(&mut self, sender: Option<Tx>)
        ensures
            *final(self) == (MmapSubscriber { sender, ..*old(self) }),
    {
        self.sender = sender;
    }

    /// Lets go of the queue.
    pub fn clear_sender(&mut self)
        ensures
            *final(self) == (MmapSubscriber { sender: None::<Tx>, ..*old(self) }),
    {
        self.sender = None;
    }

    /// The queue that takes the next event, if there is one.
    pub fn forward_raw_event(&self) -> (sender: Option<&Tx>)
        ensures
            sender == (match self.sender {
                Some(tx) => Some(&tx),
                None => None,
            }),
    {
        match &self.sender {
            Some(tx) => Some(tx),
            None => None,
        }
    }

    /// Takes whether the queue took an event, and says whether the event was forwarded.  A
    /// queue that is gone is let go.
    pub fn forwarded(&mut self, sent: bool) -> (forwarded: bool)
        ensures
            forwarded == sent,
            *final(self) == (if sent {
                *old(self)
            } else {
                MmapSubscriber { sender: None::<Tx>, ..*old(self) }
            }),
    {
        if !sent {
            self.clear_sender();
        }
        sent
    }

    /// Starts the subscriber.  Without a queue it does not start; while it runs it is not
    /// started again.
    pub fn start(&mut self) -> (start: SubscriberStart)
        ensures
            start == (if old(self).sender is None {
                SubscriberStart::Refused(SubscribeError::NotAttached)
            } else if old(self).active {
                SubscriberStart::Running
            } else {
                SubscriberStart::Spawn
            }),
            *final(self) == (MmapSubscriber {
                active: old(self).active || start == SubscriberStart::Spawn,
                ..*old(self)
            }),
    {
        if self.sender.is_none() {
            return SubscriberStart::Refused(SubscribeError::NotAttached);
        }
        if self.active {
            return SubscriberStart::Running;
        }
        self.active = true;
        SubscriberStart::Spawn
    }

    /// Starts the subscriber with a queue.
    pub fn start_with_sender(&mut self, sender: Tx) -> (start: SubscriberStart)
        ensures
            start == (if old(self).active {
                SubscriberStart::Running
            } else {
                SubscriberStart::Spawn
            }),
            *final(self) == (MmapSubscriber { active: true, sender: Some(sender), ..*old(self) }),
    {
        self.set_sender(Some(sender));
        self.start()
    }

    /// The subscriber once it took what an engine has for it.
    pub open spec fn with_queue(self, queue: Queue<Tx>) -> MmapSubscriber<Tx, J> {
        match queue {
            Queue::Waits => self,
            Queue::Gets(sender) => MmapSubscriber { sender: Some(sender), ..self },
            Queue::Starts(sender) => MmapSubscriber { sender: Some(sender), active: true, ..self },
        }
    }

    /// Takes what an engine has for the subscriber.  Says whether and how it starts.
    pub fn attach(&mut self, queue: Queue<Tx>) -> (start: Option<SubscriberStart>)
        ensures
            *final(self) == old(self).with_queue(queue),
            start == (match queue {
                Queue::Starts(_) => Some(
                    if old(self).active {
                        SubscriberStart::Running
                    } else {
                        SubscriberStart::Spawn
                    },
                ),
                _ => None,
            }),
    {
        match queue {
            Queue::Waits => None,
            Queue::Gets(sender) => {
                self.set_sender(Some(sender));
                None
            },
            Queue::Starts(sender) => Some(self.start_with_sender(sender)),
        }
    }

    /// Takes the outcome of starting the polling thread.
    pub fn spawned(&mut self, thread: Option<J>)
        ensures
            *final(self) == (match thread {
                Some(_) => MmapSubscriber { poll_thread: thread, ..*old(self) },
                None => MmapSubscriber { active: false, ..*old(self) },
            }),
    {
        match thread {
            Some(handle) => {
                self.poll_thread = Some(handle);
            },
            None => {
                self.active = false;
            },
        }
    }

    /// Tells the polling thread to end, and hands it out to be waited for.
    pub fn stop(&mut self) -> (thread: Option<J>)
        ensures
            thread == old(self).poll_thread,
            *final(self) == (MmapSubscriber { active: false, poll_thread: None::<J>, ..*old(self) }),
    {
        self.active = false;
        self.poll_thread.take()
    }
}

/// Law: a subscriber can be made exactly if each callback that is given can be called and an
/// engine that is given is one.  A fault of the first callback is told before one of the second,
/// and both before one of the engine.
pub proof fn first_fault_is_told(
    log_exception: Option<bool>,
    on_disconnect: Option<bool>,
    event_engine: Option<Result<(), Seq<char>>>,
    error: EngineError,
)
    ensures
        ({
            let fault = fault_of(log_exception, on_disconnect, event_engine);
            let log_bad = log_exception is Some && !log_exception->0;
            let disconnect_bad = on_disconnect is Some && !on_disconnect->0;
            let engine_bad = event_engine is Some && event_engine->0 is Err;
            &&& fault is None <==> !log_bad && !disconnect_bad && !engine_bad
            &&& fault matches Some(fault) ==> (fault.is_told_by(error) <==> match error {
                EngineError::NotCallable { name } => log_bad && name@ == "log_exception"@ || !log_bad
                    && disconnect_bad && name@ == "on_disconnect"@,
                EngineError::NotAnEngine { detail } => !log_bad && !disconnect_bad && engine_bad && detail@
                    == event_engine->0->Err_0,
                _ => false,
            })
        }),
{
}

/// Law: what an engine has for a subscriber changes its queue and whether it runs, and nothing
/// else.
pub proof fn attaching_changes_only_the_queue<Tx, J>(subscriber: MmapSubscriber<Tx, J>, queue: Queue<Tx>)
    ensures
        ({
            let after = subscriber.with_queue(queue);
            &&& after.shm_name == subscriber.shm_name && after.poll_thread == subscriber.poll_thread
            &&& queue is Waits ==> after.sender == subscriber.sender
            &&& queue matches Queue::Gets(tx) ==> after.sender == Some(tx)
            &&& queue matches Queue::Starts(tx) ==> after.sender == Some(tx)
            &&& after.active == (subscriber.active || queue is Starts)
        }),
{
}

} // verus!
