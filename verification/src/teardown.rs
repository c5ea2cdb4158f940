//! Taking things down: every part gets its turn whatever fails, and the first failure is what
//! the caller hears of.
use vstd::prelude::*;

use crate::engine::EngineError;

verus! {

/// Whether a thread is waited for.  A thread does not wait for itself; instead the log gets
/// what is handed back.
pub fn skips_join(own_thread: bool, name: &str) -> (log: Option<String>)
    ensures
        log is Some <==> own_thread,
        log matches Some(text) ==> text@ == "["@ + name@ + "] 跳过当前线程 join，避免自 join 死锁"@,
{
    if own_thread {
        let mut out = String::from_str("[");
        out.append(name);
        out.append("] 跳过当前线程 join，避免自 join 死锁");
        Some(out)
    } else {
        None
    }
}

/// The outcome of waiting for a thread: an error where it ended by a panic.
pub fn joined(panicked: bool, name: &str) -> (result: Result<(), EngineError>)
    ensures
        !panicked ==> result is Ok,
        panicked ==> match result {
            Err(EngineError::ThreadDied { name: told }) => told@ == name@,
            _ => false,
        },
{
    if panicked {
        Err(EngineError::ThreadDied { name: name.to_owned() })
    } else {
        Ok(())
    }
}

/// The first of several errors.
#[derive(Debug)]
pub struct FirstError<E> {
    pub first: Option<E>,
}

impl<E> FirstError<E> {
    /// No error yet.
    pub fn new() -> (errors: FirstError<E>)
        ensures
            errors.first is None,
    {
        FirstError { first: None }
    }

    /// The first error once `error` came too.
    pub open spec fn with(self, error: Option<E>) -> FirstError<E> {
        if self.first is None {
            FirstError { first: error }
        } else {
            self
        }
    }

    /// What of `error` nobody would hear of, and therefore goes into the log.
    pub open spec fn left_over(self, error: Option<E>) -> Option<E> {
        if self.first is None {
            None
        } else {
            error
        }
    }

    /// Takes an outcome.  Hands back an error that is not the first one, for the log.
    pub fn record(&mut self, error: Option<E>) -> (log: Option<E>)
        ensures
            *final(self) == old(self).with(error),
            log == old(self).left_over(error),
    {
        if self.first.is_none() {
            self.first = error;
            None
        } else {
            error
        }
    }

    /// The outcome of everything.
    pub open spec fn verdict(self) -> Result<(), E> {
        match self.first {
            Some(error) => Err(error),
            None => Ok(()),
        }
    }

    /// The outcome of everything: the first error, if there was one.
    pub fn into_result(self) -> (result: Result<(), E>)
        ensures
            result == self.verdict(),
    {
        match self.first {
            Some(error) => Err(error),
            None => Ok(()),
        }
    }
}

/// What closing a publisher comes to next.
#[derive(Debug, Clone, Copy, PartialEq, Eq)]
pub enum CloseAsk {
    /// Send the close command.
    Send,
    /// Wait for its confirmation.
    Confirm,
    /// Wait for the worker to end.
    Join,
    Done,
}

/// The course of closing a publisher.
#[derive(Debug)]
pub struct PublisherClose<E> {
    pub ask: CloseAsk,
    pub has_worker: bool,
    pub errors: FirstError<E>,
}

impl<E> PublisherClose<E> {
    /// What follows once the worker needs no more telling.
    pub open spec fn last_ask(has_worker: bool) -> CloseAsk {
        if has_worker {
            CloseAsk::Join
        } else {
            CloseAsk::Done
        }
    }

    /// Starts closing a publisher that may have a channel and a worker.
    pub fn begin(has_sender: bool, has_worker: bool) -> (close: PublisherClose<E>)
        ensures
            close == close_begun::<E>(has_sender, has_worker),
            close.has_worker == has_worker,
            close.errors.first is None,
            close.ask == (if has_sender {
                CloseAsk::Send
            } else {
                Self::last_ask(has_worker)
            }),
    {
        let ask = if has_sender {
            CloseAsk::Send
        } else if has_worker {
            CloseAsk::Join
        } else {
            CloseAsk::Done
        };
        PublisherClose { ask, has_worker, errors: FirstError::new() }
    }

    /// What follows an outcome.  A command that could not be sent is not waited for.
    pub open spec fn next(self, error: Option<E>) -> PublisherClose<E> {
        match self.ask {
            CloseAsk::Send => PublisherClose {
                ask: if error is None {
                    CloseAsk::Confirm
                } else {
                    Self::last_ask(self.has_worker)
                },
                errors: self.errors.with(error),
                ..self
            },
            CloseAsk::Confirm => PublisherClose {
                ask: Self::last_ask(self.has_worker),
                errors: self.errors.with(error),
                ..self
            },
            CloseAsk::Join => PublisherClose { ask: CloseAsk::Done, errors: self.errors.with(error), ..self },
            CloseAsk::Done => self,
        }
    }

    /// Takes the outcome of what was asked for.  Hands back an error for the log.
    pub fn step(&mut self, error: Option<E>) -> (log: Option<E>)
        ensures
            *final(self) == old(self).next(error),
            log == (if old(self).ask == CloseAsk::Done {
                None
            } else {
                old(self).errors.left_over(error)
            }),
    {
        let failed: bool = error.is_some();
        match self.ask {
            CloseAsk::Send => {
                self.ask = if !failed {
                    CloseAsk::Confirm
                } else if self.has_worker {
                    CloseAsk::Join
                } else {
                    CloseAsk::Done
                };
                self.errors.record(error)
            },
            CloseAsk::Confirm => {
                self.ask = if self.has_worker {
                    CloseAsk::Join
                } else {
                    CloseAsk::Done
                };
                self.errors.record(error)
            },
            CloseAsk::Join => {
                self.ask = CloseAsk::Done;
                self.errors.record(error)
            },
            CloseAsk::Done => None,
        }
    }
}

/// What stopping a subscriber comes to next.
#[derive(Debug, Clone, Copy, PartialEq, Eq)]
pub enum StopAsk {
    /// Wait for the polling thread to end.
    Join,
    /// Let go of the local queue.
    ClearSender,
    Done,
}

/// The course of stopping a subscriber.  The polling thread ends before the queue is let go,
/// so that nothing it still reads is lost.
#[derive(Debug)]
pub struct SubscriberStop<E> {
    pub ask: StopAsk,
    pub errors: FirstError<E>,
}

impl<E> SubscriberStop<E> {
    /// Starts stopping a subscriber that may have a polling thread.
    pub fn begin(has_thread: bool) -> (stop: SubscriberStop<E>)
        ensures
            stop.errors.first is None,
            stop.ask == (if has_thread {
                StopAsk::Join
            } else {
                StopAsk::ClearSender
            }),
    {
        let ask = if has_thread {
            StopAsk::Join
        } else {
            StopAsk::ClearSender
        };
        SubscriberStop { ask, errors: FirstError::new() }
    }

    /// What follows an outcome.
    pub open spec fn next(self, error: Option<E>) -> SubscriberStop<E> {
        match self.ask {
            StopAsk::Join => SubscriberStop { ask: StopAsk::ClearSender, errors: self.errors.with(error) },
            StopAsk::ClearSender => SubscriberStop { ask: StopAsk::Done, errors: self.errors.with(error) },
            StopAsk::Done => self,
        }
    }

    /// Takes the outcome of what was asked for.  Hands back an error for the log.
    pub fn step(&mut self, error: Option<E>) -> (log: Option<E>)
        ensures
            *final(self) == old(self).next(error),
            log == (if old(self).ask == StopAsk::Done {
                None
            } else {
                old(self).errors.left_over(error)
            }),
    {
        match self.ask {
            StopAsk::Join => {
                self.ask = StopAsk::ClearSender;
                self.errors.record(error)
            },
            StopAsk::ClearSender => {
                self.ask = StopAsk::Done;
                self.errors.record(error)
            },
            StopAsk::Done => None,
        }
    }
}

/// What shutting the engine down comes to next.
#[derive(Debug, Clone, Copy, PartialEq, Eq)]
pub enum ShutdownAsk {
    StopSubscriber,
    ClosePublisher,
    JoinTimer,
    JoinProcess,
    Done,
}

/// The parts of a running engine.
#[derive(Debug, Clone, Copy, PartialEq, Eq)]
pub struct EngineParts {
    pub subscriber: bool,
    pub publisher: bool,
    pub timer: bool,
    pub process: bool,
}

impl EngineParts {
    /// The first part from the process thread on.
    pub open spec fn from_process(self) -> ShutdownAsk {
        if self.process {
            ShutdownAsk::JoinProcess
        } else {
            ShutdownAsk::Done
        }
    }

    /// The first part from the timer thread on.
    pub open spec fn from_timer(self) -> ShutdownAsk {
        if self.timer {
            ShutdownAsk::JoinTimer
        } else {
            self.from_process()
        }
    }

    /// The first part from the publisher on.
    pub open spec fn from_publisher(self) -> ShutdownAsk {
        if self.publisher {
            ShutdownAsk::ClosePublisher
        } else {
            self.from_timer()
        }
    }

    /// The first part.
    pub open spec fn from_subscriber(self) -> ShutdownAsk {
        if self.subscriber {
            ShutdownAsk::StopSubscriber
        } else {
            self.from_publisher()
        }
    }

    /// The part after `ask`.
    pub open spec fn after(self, ask: ShutdownAsk) -> ShutdownAsk {
        match ask {
            ShutdownAsk::StopSubscriber => self.from_publisher(),
            ShutdownAsk::ClosePublisher => self.from_timer(),
            ShutdownAsk::JoinTimer => self.from_process(),
            ShutdownAsk::JoinProcess => ShutdownAsk::Done,
            ShutdownAsk::Done => ShutdownAsk::Done,
        }
    }
}

/// The course of shutting an engine down: the subscriber, the publisher, the timer, then the
/// process thread.
#[derive(Debug)]
pub struct EngineShutdown<E> {
    pub ask: ShutdownAsk,
    pub parts: EngineParts,
    pub errors: FirstError<E>,
}

impl<E> EngineShutdown<E> {
    fn pick(parts: &EngineParts, subscriber: bool, publisher: bool, timer: bool, process: bool) -> (ask: ShutdownAsk)
        ensures
            ask == (if subscriber && parts.subscriber {
                ShutdownAsk::StopSubscriber
            } else if publisher && parts.publisher {
                ShutdownAsk::ClosePublisher
            } else if timer && parts.timer {
                ShutdownAsk::JoinTimer
            } else if process && parts.process {
                ShutdownAsk::JoinProcess
            } else {
                ShutdownAsk::Done
            }),
    {
        if subscriber && parts.subscriber {
            ShutdownAsk::StopSubscriber
        } else if publisher && parts.publisher {
            ShutdownAsk::ClosePublisher
        } else if timer && parts.timer {
            ShutdownAsk::JoinTimer
        } else if process && parts.process {
            ShutdownAsk::JoinProcess
        } else {
            ShutdownAsk::Done
        }
    }

    /// Starts shutting down an engine with these parts.
    pub fn begin(parts: EngineParts) -> (shutdown: EngineShutdown<E>)
        ensures
            shutdown.parts == parts,
            shutdown.errors.first is None,
            shutdown.ask == parts.from_subscriber(),
    {
        let ask = Self::pick(&parts, true, true, true, true);
        EngineShutdown { ask, parts, errors: FirstError::new() }
    }

    /// What follows an outcome.
    pub open spec fn next(self, error: Option<E>) -> EngineShutdown<E> {
        if self.ask == ShutdownAsk::Done {
            self
        } else {
            EngineShutdown {
                ask: self.parts.after(self.ask),
                parts: self.parts,
                errors: self.errors.with(error),
            }
        }
    }

    /// Takes the outcome of what was asked for.  Hands back an error for the log.
    pub fn step(&mut self, error: Option<E>) -> (log: Option<E>)
        ensures
            *final(self) == old(self).next(error),
            log == (if old(self).ask == ShutdownAsk::Done {
                None
            } else {
                old(self).errors.left_over(error)
            }),
    {
        let parts = self.parts;
        match self.ask {
            ShutdownAsk::StopSubscriber => {
                self.ask = Self::pick(&parts, false, true, true, true);
                self.errors.record(error)
            },
            ShutdownAsk::ClosePublisher => {
                self.ask = Self::pick(&parts, false, false, true, true);
                self.errors.record(error)
            },
            ShutdownAsk::JoinTimer => {
                self.ask = Self::pick(&parts, false, false, false, true);
                self.errors.record(error)
            },
            ShutdownAsk::JoinProcess => {
                self.ask = ShutdownAsk::Done;
                self.errors.record(error)
            },
            ShutdownAsk::Done => None,
        }
    }

    /// What is asked for from here on, whatever the outcomes.
    pub open spec fn asks(parts: EngineParts, ask: ShutdownAsk, fuel: nat) -> Seq<ShutdownAsk>
        decreases fuel,
    {
        if fuel == 0 || ask == ShutdownAsk::Done {
            seq![]
        } else {
            seq![ask] + Self::asks(parts, parts.after(ask), (fuel - 1) as nat)
        }
    }
}

/// Law: shutting down deals with every part that is there, once and in order, and with none
/// that is not.
pub proof fn shutdown_deals_with_every_part<E>(parts: EngineParts)
    ensures
        EngineShutdown::<E>::asks(parts, parts.from_subscriber(), 5) == (if parts.subscriber {
            seq![ShutdownAsk::StopSubscriber]
        } else {
            seq![]
        }) + (if parts.publisher {
            seq![ShutdownAsk::ClosePublisher]
        } else {
            seq![]
        }) + (if parts.timer {
            seq![ShutdownAsk::JoinTimer]
        } else {
            seq![]
        }) + (if parts.process {
            seq![ShutdownAsk::JoinProcess]
        } else {
            seq![]
        }),
{
    reveal_with_fuel(EngineShutdown::asks, 6);
    let all = EngineShutdown::<E>::asks(parts, parts.from_subscriber(), 5);
    assert(all =~= (if parts.subscriber {
        seq![ShutdownAsk::StopSubscriber]
    } else {
        seq![]
    }) + (if parts.publisher {
        seq![ShutdownAsk::ClosePublisher]
    } else {
        seq![]
    }) + (if parts.timer {
        seq![ShutdownAsk::JoinTimer]
    } else {
        seq![]
    }) + (if parts.process {
        seq![ShutdownAsk::JoinProcess]
    } else {
        seq![]
    }));
}

/// Law: a subscriber keeps its queue until its polling thread has ended, whatever that came to.
pub proof fn queue_outlives_the_polling_thread<E>(stop: SubscriberStop<E>, joined: Option<E>, cleared: Option<E>)
    requires
        stop.ask == StopAsk::Join,
    ensures
        stop.next(joined).ask == StopAsk::ClearSender,
        stop.next(joined).next(cleared).ask == StopAsk::Done,
{
}

/// Law: the outcome of several steps is the first error among them, and every other error
/// goes into the log.
pub proof fn first_error_is_heard<E>(start: FirstError<E>, a: Option<E>, b: Option<E>)
    requires
        start.first is None,
    ensures
        start.with(a).with(b).first == (if a is Some {
            a
        } else {
            b
        }),
        start.left_over(a) is None,
        start.with(a).left_over(b) == (if a is Some {
            b
        } else {
            None
        }),
{
}

/// The first error among several outcomes.
pub open spec fn first_of<E>(outcomes: Seq<Option<E>>) -> Option<E>
    decreases outcomes.len(),
{
    if outcomes.len() == 0 {
        None
    } else if outcomes[0] is Some {
        outcomes[0]
    } else {
        first_of(outcomes.drop_first())
    }
}

/// Law: of two errors, the one that came first is kept and the other is logged; no error is
/// lost, and none is made up.
pub proof fn no_error_is_lost<E>(errors: FirstError<E>, error: Option<E>)
    ensures
        errors.first is Some ==> errors.with(error).first == errors.first && errors.left_over(error) == error,
        errors.first is None ==> errors.with(error).first == error && errors.left_over(error) is None,
        errors.first matches Some(first) ==> errors.verdict() == Err::<(), E>(first),
        errors.first is None ==> errors.verdict() == Ok::<(), E>(()),
{
}

/// A publisher's close before its first step.
pub open spec fn close_begun<E>(has_sender: bool, has_worker: bool) -> PublisherClose<E> {
    PublisherClose {
        ask: if has_sender {
            CloseAsk::Send
        } else {
            PublisherClose::<E>::last_ask(has_worker)
        },
        has_worker,
        errors: FirstError { first: None },
    }
}

/// What a close asks for, one after the other, while it is told these outcomes.
pub open spec fn close_asks<E>(close: PublisherClose<E>, outcomes: Seq<Option<E>>) -> Seq<CloseAsk>
    decreases outcomes.len(),
{
    if outcomes.len() == 0 || close.ask == CloseAsk::Done {
        seq![]
    } else {
        seq![close.ask] + close_asks(close.next(outcomes[0]), outcomes.drop_first())
    }
}

/// A close after these outcomes.
pub open spec fn close_run<E>(close: PublisherClose<E>, outcomes: Seq<Option<E>>) -> PublisherClose<E>
    decreases outcomes.len(),
{
    if outcomes.len() == 0 {
        close
    } else {
        close_run(close.next(outcomes[0]), outcomes.drop_first())
    }
}

/// Law: a publisher that has a worker is closed only once the worker was waited for.  Whatever
/// comes of it, closing sends the command where there is a channel, waits for the confirmation
/// where the command could be sent, waits for the worker where there is one, each once and in
/// this order, and is then done; the outcome is the first error.
pub proof fn closing_waits_for_the_worker<E>(has_sender: bool, has_worker: bool, outcomes: Seq<Option<E>>)
    requires
        outcomes.len() == 3,
    ensures
        ({
            let asks = close_asks(close_begun::<E>(has_sender, has_worker), outcomes);
            let end = close_run(close_begun::<E>(has_sender, has_worker), outcomes);
            &&& asks == (if has_sender {
                seq![CloseAsk::Send]
            } else {
                seq![]
            }) + (if has_sender && outcomes[0] is None {
                seq![CloseAsk::Confirm]
            } else {
                seq![]
            }) + (if has_worker {
                seq![CloseAsk::Join]
            } else {
                seq![]
            })
            &&& end.ask == CloseAsk::Done
            &&& end.errors.first == first_of(outcomes.take(asks.len() as int))
        }),
{
    reveal_with_fuel(close_asks, 5);
    reveal_with_fuel(close_run, 5);
    let begun = close_begun::<E>(has_sender, has_worker);
    let asks = close_asks(begun, outcomes);
    assert(outcomes.drop_first()[0] == outcomes[1]);
    assert(outcomes.drop_first().drop_first()[0] == outcomes[2]);
    assert(asks =~= (if has_sender {
        seq![CloseAsk::Send]
    } else {
        seq![]
    }) + (if has_sender && outcomes[0] is None {
        seq![CloseAsk::Confirm]
    } else {
        seq![]
    }) + (if has_worker {
        seq![CloseAsk::Join]
    } else {
        seq![]
    }));
    lemma_first_of(outcomes, asks.len() as int);
}

/// The first error among the first few of at most four outcomes.
proof fn lemma_first_of<E>(outcomes: Seq<Option<E>>, n: int)
    requires
        0 <= n <= outcomes.len() <= 4,
    ensures
        first_of(outcomes.take(n)) == (if n > 0 && outcomes[0] is Some {
            outcomes[0]
        } else if n > 1 && outcomes[1] is Some {
            outcomes[1]
        } else if n > 2 && outcomes[2] is Some {
            outcomes[2]
        } else if n > 3 && outcomes[3] is Some {
            outcomes[3]
        } else {
            None
        }),
{
    reveal_with_fuel(first_of, 6);
    let s = outcomes.take(n);
    if n > 1 {
        assert(s.drop_first()[0] == outcomes[1]);
    }
    if n > 2 {
        assert(s.drop_first().drop_first()[0] == outcomes[2]);
    }
    if n > 3 {
        assert(s.drop_first().drop_first().drop_first()[0] == outcomes[3]);
    }
}

/// What a stop asks for, one after the other, while it is told these outcomes.
pub open spec fn stop_asks<E>(stop: SubscriberStop<E>, outcomes: Seq<Option<E>>) -> Seq<StopAsk>
    decreases outcomes.len(),
{
    if outcomes.len() == 0 || stop.ask == StopAsk::Done {
        seq![]
    } else {
        seq![stop.ask] + stop_asks(stop.next(outcomes[0]), outcomes.drop_first())
    }
}

/// A stop after these outcomes.
pub open spec fn stop_run<E>(stop: SubscriberStop<E>, outcomes: Seq<Option<E>>) -> SubscriberStop<E>
    decreases outcomes.len(),
{
    if outcomes.len() == 0 {
        stop
    } else {
        stop_run(stop.next(outcomes[0]), outcomes.drop_first())
    }
}

/// Law: stopping a subscriber waits for its polling thread, then lets go of the queue, each once
/// and whatever comes of it; the outcome is the first error.
pub proof fn stopping_waits_for_the_polling_thread<E>(stop: SubscriberStop<E>, outcomes: Seq<Option<E>>)
    requires
        stop.ask == StopAsk::Join || stop.ask == StopAsk::ClearSender,
        stop.errors.first is None,
        outcomes.len() == 2,
    ensures
        ({
            let asks = stop_asks(stop, outcomes);
            let end = stop_run(stop, outcomes);
            &&& stop.ask == StopAsk::Join ==> asks == seq![StopAsk::Join, StopAsk::ClearSender]
            &&& stop.ask == StopAsk::ClearSender ==> asks == seq![StopAsk::ClearSender]
            &&& end.ask == StopAsk::Done
            &&& end.errors.first == first_of(outcomes.take(asks.len() as int))
        }),
{
    reveal_with_fuel(stop_asks, 4);
    reveal_with_fuel(stop_run, 4);
    assert(outcomes.drop_first()[0] == outcomes[1]);
    let asks = stop_asks(stop, outcomes);
    if stop.ask == StopAsk::Join {
        assert(asks =~= seq![StopAsk::Join, StopAsk::ClearSender]);
    } else {
        assert(asks =~= seq![StopAsk::ClearSender]);
    }
    lemma_first_of(outcomes, asks.len() as int);
}

/// What a shutdown asks for, one after the other, while it is told these outcomes.
pub open spec fn shutdown_asks<E>(shutdown: EngineShutdown<E>, outcomes: Seq<Option<E>>) -> Seq<ShutdownAsk>
    decreases outcomes.len(),
{
    if outcomes.len() == 0 || shutdown.ask == ShutdownAsk::Done {
        seq![]
    } else {
        seq![shutdown.ask] + shutdown_asks(shutdown.next(outcomes[0]), outcomes.drop_first())
    }
}

/// A shutdown after these outcomes.
pub open spec fn shutdown_run<E>(shutdown: EngineShutdown<E>, outcomes: Seq<Option<E>>) -> EngineShutdown<E>
    decreases outcomes.len(),
{
    if outcomes.len() == 0 {
        shutdown
    } else {
        shutdown_run(shutdown.next(outcomes[0]), outcomes.drop_first())
    }
}

/// Law: whatever fails, shutting down stops the subscriber, closes the publisher, and waits for
/// the timer and for the process thread, each once, in this order and as far as it is there;
/// the outcome is the first error.
pub proof fn shutdown_goes_on_after_errors<E>(parts: EngineParts, outcomes: Seq<Option<E>>)
    requires
        outcomes.len() == 4,
    ensures
        ({
            let begun = EngineShutdown {
                ask: parts.from_subscriber(),
                parts,
                errors: FirstError { first: None::<E> },
            };
            let asks = shutdown_asks(begun, outcomes);
            let end = shutdown_run(begun, outcomes);
            &&& asks == (if parts.subscriber {
                seq![ShutdownAsk::StopSubscriber]
            } else {
                seq![]
            }) + (if parts.publisher {
                seq![ShutdownAsk::ClosePublisher]
            } else {
                seq![]
            }) + (if parts.timer {
                seq![ShutdownAsk::JoinTimer]
            } else {
                seq![]
            }) + (if parts.process {
                seq![ShutdownAsk::JoinProcess]
            } else {
                seq![]
            })
            &&& end.ask == ShutdownAsk::Done
            &&& end.errors.first == first_of(outcomes.take(asks.len() as int))
        }),
{
    reveal_with_fuel(shutdown_asks, 6);
    reveal_with_fuel(shutdown_run, 6);
    let begun = EngineShutdown { ask: parts.from_subscriber(), parts, errors: FirstError { first: None::<E> } };
    let asks = shutdown_asks(begun, outcomes);
    assert(outcomes.drop_first()[0] == outcomes[1]);
    assert(outcomes.drop_first().drop_first()[0] == outcomes[2]);
    assert(outcomes.drop_first().drop_first().drop_first()[0] == outcomes[3]);
    assert(asks =~= (if parts.subscriber {
        seq![ShutdownAsk::StopSubscriber]
    } else {
        seq![]
    }) + (if parts.publisher {
        seq![ShutdownAsk::ClosePublisher]
    } else {
        seq![]
    }) + (if parts.timer {
        seq![ShutdownAsk::JoinTimer]
    } else {
        seq![]
    }) + (if parts.process {
        seq![ShutdownAsk::JoinProcess]
    } else {
        seq![]
    }));
    lemma_first_of(outcomes, asks.len() as int);
}

} // verus!
