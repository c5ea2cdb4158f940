//! The publisher: who may publish, and what its worker does with its commands.
use vstd::prelude::*;

use crate::layout::MAX_PAYLOAD;
use crate::names;
use crate::text;

verus! {

/// The kind of error that a user of the library gets.
#[derive(Debug, Clone, Copy, PartialEq, Eq)]
pub enum ErrorKind {
    Runtime,
    Type,
    Value,
    Io,
}

/// What can go wrong with a publisher.
#[derive(Debug, PartialEq, Eq)]
pub enum PublishError {
    /// The publisher is closed.
    Closed,
    /// The serialized event does not fit into a slot.
    TooLarge { len: usize },
    /// The channel to the worker is gone.
    ChannelClosed,
    /// The worker no longer takes commands.
    SendFailed { detail: String },
    /// The worker ended before it confirmed.
    AckLost { detail: String },
    /// The bus did not take the event.
    Rejected { detail: String },
    /// The mapping could not be made.
    CreateFailed { name: String, detail: String },
    /// The worker could not be started.
    SpawnFailed { detail: String },
    /// The worker ended before it was ready.
    InitLost { detail: String },
    /// The close command found no worker.
    CloseSendFailed { detail: String },
    /// The worker did not confirm that it closes.
    CloseAckLost { detail: String },
}

impl PublishError {
    /// The text of the message.
    pub open spec fn text(self) -> Seq<char> {
        match self {
            PublishError::Closed => {
                "共享内存发布器已关闭"@
            },
            PublishError::TooLarge { len } => {
                "事件序列化后 "@ + text::decimal(len as nat) + "B 超过 MAX_PAYLOAD="@
                    + text::decimal(MAX_PAYLOAD as nat) + "B"@
            },
            PublishError::ChannelClosed => {
                "共享内存发布通道已关闭"@
            },
            PublishError::SendFailed { detail } => {
                "发送发布命令失败: "@ + detail@
            },
            PublishError::AckLost { detail } => {
                "等待发布确认失败: "@ + detail@
            },
            PublishError::Rejected { detail } => {
                "发布事件失败: "@ + detail@
            },
            PublishError::CreateFailed { name, detail } => {
                "创建共享内存 '"@ + name@ + "' 失败: "@ + detail@
            },
            PublishError::SpawnFailed { detail } => {
                "启动共享内存发布线程失败: "@ + detail@
            },
            PublishError::InitLost { detail } => {
                "等待共享内存发布线程初始化失败: "@ + detail@
            },
            PublishError::CloseSendFailed { detail } => {
                "发送关闭命令失败: "@ + detail@
            },
            PublishError::CloseAckLost { detail } => {
                "等待关闭确认失败: "@ + detail@
            },
        }
    }

    /// The message, as users see it.
    pub fn message(&self) -> (message: String)
        ensures
            message@ == self.text(),
    {
        match self {
            PublishError::Closed => {
                String::from_str("共享内存发布器已关闭")
            },
            PublishError::TooLarge { len } => {
                let mut out = String::from_str("事件序列化后 ");
                text::push_decimal(&mut out, *len as u64);
                out.append("B 超过 MAX_PAYLOAD=");
                text::push_decimal(&mut out, MAX_PAYLOAD as u64);
                out.append("B");
                out
            },
            PublishError::ChannelClosed => {
                String::from_str("共享内存发布通道已关闭")
            },
            PublishError::SendFailed { detail } => {
                let mut out = String::from_str("发送发布命令失败: ");
                out.append(detail.as_str());
                out
            },
            PublishError::AckLost { detail } => {
                let mut out = String::from_str("等待发布确认失败: ");
                out.append(detail.as_str());
                out
            },
            PublishError::Rejected { detail } => {
                let mut out = String::from_str("发布事件失败: ");
                out.append(detail.as_str());
                out
            },
            PublishError::CreateFailed { name, detail } => {
                let mut out = String::from_str("创建共享内存 '");
                out.append(name.as_str());
                out.append("' 失败: ");
                out.append(detail.as_str());
                out
            },
            PublishError::SpawnFailed { detail } => {
                let mut out = String::from_str("启动共享内存发布线程失败: ");
                out.append(detail.as_str());
                out
            },
            PublishError::InitLost { detail } => {
                let mut out = String::from_str("等待共享内存发布线程初始化失败: ");
                out.append(detail.as_str());
                out
            },
            PublishError::CloseSendFailed { detail } => {
                let mut out = String::from_str("发送关闭命令失败: ");
                out.append(detail.as_str());
                out
            },
            PublishError::CloseAckLost { detail } => {
                let mut out = String::from_str("等待关闭确认失败: ");
                out.append(detail.as_str());
                out
            },
        }
    }
}

impl PublishError {
    /// The kind of the error.
    pub open spec fn spec_kind(self) -> ErrorKind {
        match self {
            PublishError::TooLarge { .. } => ErrorKind::Value,
            PublishError::CreateFailed { .. } => ErrorKind::Io,
            _ => ErrorKind::Runtime,
        }
    }

    /// The kind of the error.
    pub fn kind(&self) -> (kind: ErrorKind)
        ensures
            kind == self.spec_kind(),
    {
        match self {
            PublishError::TooLarge { .. } => ErrorKind::Value,
            PublishError::CreateFailed { .. } => ErrorKind::Io,
            _ => ErrorKind::Runtime,
        }
    }
}

/// Law: a publisher that is closed says so in a way that is recognized, with anything before
/// and after its words.
pub proof fn closed_publisher_is_recognized(before: Seq<char>, after: Seq<char>)
    ensures
        names::tells_publisher_closed(before + PublishError::Closed.text() + after),
        names::tells_publisher_closed(before + PublishError::ChannelClosed.text() + after),
{
    let a = PublishError::Closed.text();
    let b = PublishError::ChannelClosed.text();
    assert((before + a + after).subrange(before.len() as int, (before.len() + a.len()) as int) =~= a);
    assert(text::occurs_at(before + a + after, a, before.len() as int));
    assert((before + b + after).subrange(before.len() as int, (before.len() + b.len()) as int) =~= b);
    assert(text::occurs_at(before + b + after, b, before.len() as int));
}

/// What came of starting a publisher's worker: what it reported first, or why it reported
/// nothing.
#[derive(Debug)]
pub enum FirstReport {
    Ready,
    NotReady { detail: String },
    Lost { detail: String },
}

/// Whether a publisher can be made, by what its worker reported first.
pub fn check_ready(shm_name: String, report: FirstReport) -> (result: Result<String, PublishError>)
    ensures
        result == (match report {
            FirstReport::Ready => Ok::<String, PublishError>(shm_name),
            FirstReport::NotReady { detail } => Err(PublishError::CreateFailed { name: shm_name, detail }),
            FirstReport::Lost { detail } => Err(PublishError::InitLost { detail }),
        }),
{
    match report {
        FirstReport::Ready => Ok(shm_name),
        FirstReport::NotReady { detail } => Err(PublishError::CreateFailed { name: shm_name, detail }),
        FirstReport::Lost { detail } => Err(PublishError::InitLost { detail }),
    }
}

/// A publisher.  `Tx` is its channel to the worker, `J` the worker.
#[derive(Debug)]
pub struct MmapPublisher<Tx, J> {
    pub shm_name: String,
    pub tx: Option<Tx>,
    pub worker: Option<J>,
    pub closed: bool,
}

impl<Tx, J> MmapPublisher<Tx, J> {
    /// A publisher whose worker is ready.
    pub fn new(shm_name: String, tx: Tx, worker: J) -> (publisher: MmapPublisher<Tx, J>)
        ensures
            publisher == (MmapPublisher { shm_name, tx: Some(tx), worker: Some(worker), closed: false }),
    {
        MmapPublisher { shm_name, tx: Some(tx), worker: Some(worker), closed: false }
    }

    /// The name of the mapping.
    pub fn shm_name(&self) -> (name: &String)
        ensures
            *name == self.shm_name,
    {
        &self.shm_name
    }

    /// Whether the publisher takes events at all.  This comes before the event is serialized.
    pub fn check_open(&self) -> (result: Result<(), PublishError>)
        ensures
            result == (if self.closed {
                Err::<(), PublishError>(PublishError::Closed)
            } else {
                Ok(())
            }),
    {
        if self.closed {
            Err(PublishError::Closed)
        } else {
            Ok(())
        }
    }

    /// The channel that takes a serialized event of this length.
    pub fn publish(&self, payload_len: usize) -> (result: Result<&Tx, PublishError>)
        ensures
            result == (if payload_len > MAX_PAYLOAD {
                Err::<&Tx, PublishError>(PublishError::TooLarge { len: payload_len })
            } else {
                match self.tx {
                    Some(tx) => Ok(&tx),
                    None => Err(PublishError::ChannelClosed),
                }
            }),
    {
        if payload_len > MAX_PAYLOAD {
            return Err(PublishError::TooLarge { len: payload_len });
        }
        match &self.tx {
            Some(tx) => Ok(tx),
            None => Err(PublishError::ChannelClosed),
        }
    }

    /// Closes the publisher for good, and hands out what is to be taken down.  A publisher
    /// that is closed already has nothing to hand out.
    pub fn close(&mut self) -> (parts: Option<(Option<Tx>, Option<J>)>)
        ensures
            old(self).closed ==> parts is None && *final(self) == *old(self),
            !old(self).closed ==> parts == Some((old(self).tx, old(self).worker)) && *final(self)
                == (MmapPublisher {
                shm_name: old(self).shm_name,
                tx: None::<Tx>,
                worker: None::<J>,
                closed: true,
            }),
    {
        if self.closed {
            return None;
        }
        self.closed = true;
        let tx = self.tx.take();
        let worker = self.worker.take();
        Some((tx, worker))
    }
}

/// What the worker of a publisher waits for.
#[derive(Debug, Clone, Copy, PartialEq, Eq)]
pub enum WorkerAsk {
    /// The mapping, made or taken over, with the publisher registered.
    Create,
    /// The number of the last event in it.
    InitialSeq,
    /// The next command, for as long as a heartbeat lasts.
    Command,
    /// Nothing: the worker is over.
    Exit,
}

/// What the worker of a publisher gets.
#[derive(Debug, Clone, Copy, PartialEq, Eq)]
pub enum WorkerEvent {
    Created,
    CreateFailed,
    SeqRead,
    SeqFailed,
    /// An event to publish.
    Publish,
    /// The publisher closes.
    Close,
    /// No command came for as long as a heartbeat lasts.
    Timeout,
    /// The publisher is gone.
    Disconnected,
}

/// What the worker of a publisher does.
#[derive(Debug, Clone, Copy, PartialEq, Eq)]
pub enum WorkerEffect {
    /// Report that the worker is ready.
    Ready,
    /// Report why the worker cannot start.
    NotReady,
    /// Publish the event, and report the outcome.
    Publish,
    /// Confirm that the worker closes.
    ConfirmClose,
    /// Refresh the heartbeat.
    Heartbeat,
    /// Release the entry in the client table.  The mapping itself stays, for others may use it.
    Release,
}

/// The worker of a publisher.
#[derive(Debug, Clone, Copy, PartialEq, Eq)]
pub struct PublisherLoop {
    pub ask: WorkerAsk,
}

impl PublisherLoop {
    /// What the worker makes of an event.
    pub open spec fn next(self, event: WorkerEvent) -> (WorkerAsk, Seq<WorkerEffect>) {
        match (self.ask, event) {
            (WorkerAsk::Create, WorkerEvent::Created) => (WorkerAsk::InitialSeq, seq![]),
            (WorkerAsk::Create, WorkerEvent::CreateFailed) => (WorkerAsk::Exit, seq![WorkerEffect::NotReady]),
            (WorkerAsk::InitialSeq, WorkerEvent::SeqRead) => (WorkerAsk::Command, seq![WorkerEffect::Ready]),
            (WorkerAsk::InitialSeq, WorkerEvent::SeqFailed) => (WorkerAsk::Exit, seq![WorkerEffect::NotReady]),
            (WorkerAsk::Command, WorkerEvent::Publish) => (WorkerAsk::Command, seq![WorkerEffect::Publish]),
            (WorkerAsk::Command, WorkerEvent::Close) => (
                WorkerAsk::Exit,
                seq![WorkerEffect::ConfirmClose, WorkerEffect::Release],
            ),
            (WorkerAsk::Command, WorkerEvent::Timeout) => (WorkerAsk::Command, seq![WorkerEffect::Heartbeat]),
            (WorkerAsk::Command, WorkerEvent::Disconnected) => (WorkerAsk::Exit, seq![WorkerEffect::Release]),
            _ => (self.ask, seq![]),
        }
    }

    /// A worker before its first event.
    pub fn new() -> (worker: PublisherLoop)
        ensures
            worker.ask == WorkerAsk::Create,
    {
        PublisherLoop { ask: WorkerAsk::Create }
    }

    /// Takes an event, and says what to do.
    pub fn step(&mut self, event: WorkerEvent) -> (effects: Vec<WorkerEffect>)
        ensures
            (final(self).ask, effects@) == old(self).next(event),
    {
        let mut effects: Vec<WorkerEffect> = Vec::new();
        let ghost start = *self;
        match (self.ask, event) {
            (WorkerAsk::Create, WorkerEvent::Created) => {
                self.ask = WorkerAsk::InitialSeq;
            },
            (WorkerAsk::Create, WorkerEvent::CreateFailed) => {
                effects.push(WorkerEffect::NotReady);
                self.ask = WorkerAsk::Exit;
            },
            (WorkerAsk::InitialSeq, WorkerEvent::SeqRead) => {
                effects.push(WorkerEffect::Ready);
                self.ask = WorkerAsk::Command;
            },
            (WorkerAsk::InitialSeq, WorkerEvent::SeqFailed) => {
                effects.push(WorkerEffect::NotReady);
                self.ask = WorkerAsk::Exit;
            },
            (WorkerAsk::Command, WorkerEvent::Publish) => {
                effects.push(WorkerEffect::Publish);
            },
            (WorkerAsk::Command, WorkerEvent::Close) => {
                effects.push(WorkerEffect::ConfirmClose);
                effects.push(WorkerEffect::Release);
                self.ask = WorkerAsk::Exit;
            },
            (WorkerAsk::Command, WorkerEvent::Timeout) => {
                effects.push(WorkerEffect::Heartbeat);
            },
            (WorkerAsk::Command, WorkerEvent::Disconnected) => {
                effects.push(WorkerEffect::Release);
                self.ask = WorkerAsk::Exit;
            },
            _ => {},
        }
        assert(effects@ =~= start.next(event).1);
        effects
    }
}

/// Law: a worker that was ready releases its entry in the client table when it ends, however
/// it ends, and at no other time.
pub proof fn worker_releases_when_it_ends(worker: PublisherLoop, event: WorkerEvent)
    requires
        worker.ask == WorkerAsk::Command,
    ensures
        worker.next(event).0 == WorkerAsk::Command || worker.next(event).0 == WorkerAsk::Exit,
        worker.next(event).0 == WorkerAsk::Exit <==> worker.next(event).1.contains(WorkerEffect::Release),
{
    let effects = worker.next(event).1;
    match event {
        WorkerEvent::Close => {
            assert(effects[1] == WorkerEffect::Release);
        },
        WorkerEvent::Disconnected => {
            assert(effects[0] == WorkerEffect::Release);
        },
        _ => {},
    }
}

/// A worker after these events.
pub open spec fn worker_run(worker: PublisherLoop, events: Seq<WorkerEvent>) -> PublisherLoop
    decreases events.len(),
{
    if events.len() == 0 {
        worker
    } else {
        PublisherLoop { ask: worker_run(worker, events.drop_last()).next(events.last()).0 }
    }
}

/// What a worker does while it gets these events, first to last.
pub open spec fn worker_effects(worker: PublisherLoop, events: Seq<WorkerEvent>) -> Seq<WorkerEffect>
    decreases events.len(),
{
    if events.len() == 0 {
        seq![]
    } else {
        worker_effects(worker, events.drop_last()) + worker_run(worker, events.drop_last()).next(events.last()).1
    }
}

/// How often an effect occurs.
pub open spec fn count_of(effects: Seq<WorkerEffect>, effect: WorkerEffect) -> int
    decreases effects.len(),
{
    if effects.len() == 0 {
        0
    } else {
        count_of(effects.drop_last(), effect) + (if effects.last() == effect {
            1int
        } else {
            0
        })
    }
}

proof fn lemma_count_add(a: Seq<WorkerEffect>, b: Seq<WorkerEffect>, effect: WorkerEffect)
    ensures
        count_of(a + b, effect) == count_of(a, effect) + count_of(b, effect),
    decreases b.len(),
{
    if b.len() == 0 {
        assert(a + b =~= a);
    } else {
        lemma_count_add(a, b.drop_last(), effect);
        assert((a + b).drop_last() =~= a + b.drop_last());
    }
}

proof fn lemma_step_counts(worker: PublisherLoop, event: WorkerEvent)
    ensures
        ({
            let effects = worker.next(event).1;
            let command = worker.ask == WorkerAsk::Command;
            &&& count_of(effects, WorkerEffect::Ready) == (if worker.ask == WorkerAsk::InitialSeq && event
                == WorkerEvent::SeqRead {
                1int
            } else {
                0
            })
            &&& count_of(effects, WorkerEffect::NotReady) == (if worker.ask == WorkerAsk::Create && event
                == WorkerEvent::CreateFailed || worker.ask == WorkerAsk::InitialSeq && event
                == WorkerEvent::SeqFailed {
                1int
            } else {
                0
            })
            &&& count_of(effects, WorkerEffect::Release) == (if command && (event == WorkerEvent::Close || event
                == WorkerEvent::Disconnected) {
                1int
            } else {
                0
            })
        }),
{
    reveal_with_fuel(count_of, 4);
    let effects = worker.next(event).1;
    if effects.len() == 2 {
        assert(effects.drop_last() =~= seq![effects[0]]);
        assert(seq![effects[0]].drop_last() =~= seq![]);
    } else if effects.len() == 1 {
        assert(effects.drop_last() =~= seq![]);
    }
}

/// Law: a worker reports exactly once whether it is ready, and releases its entry exactly once
/// if it was ready and has ended; before it reported it does neither.
pub proof fn worker_reports_and_releases_once(events: Seq<WorkerEvent>)
    ensures
        ({
            let begun = PublisherLoop { ask: WorkerAsk::Create };
            let ask = worker_run(begun, events).ask;
            let done = worker_effects(begun, events);
            let ready = count_of(done, WorkerEffect::Ready);
            let not_ready = count_of(done, WorkerEffect::NotReady);
            let released = count_of(done, WorkerEffect::Release);
            &&& ask == WorkerAsk::Create || ask == WorkerAsk::InitialSeq ==> ready == 0 && not_ready == 0 && released
                == 0
            &&& ask == WorkerAsk::Command ==> ready == 1 && not_ready == 0 && released == 0
            &&& ask == WorkerAsk::Exit ==> ready + not_ready == 1 && 0 <= ready && released == ready
        }),
    decreases events.len(),
{
    let begun = PublisherLoop { ask: WorkerAsk::Create };
    if events.len() > 0 {
        let front = events.drop_last();
        worker_reports_and_releases_once(front);
        let before = worker_run(begun, front);
        lemma_step_counts(before, events.last());
        let a = worker_effects(begun, front);
        let b = before.next(events.last()).1;
        lemma_count_add(a, b, WorkerEffect::Ready);
        lemma_count_add(a, b, WorkerEffect::NotReady);
        lemma_count_add(a, b, WorkerEffect::Release);
    }
}

/// Law: a worker that is ready publishes each event that it is handed, beats whenever nothing
/// came in time, and goes on; it ends exactly when it is closed, which it confirms before
/// anything else, or when its publisher is gone.
pub proof fn ready_worker_serves_every_command(worker: PublisherLoop)
    requires
        worker.ask == WorkerAsk::Command,
    ensures
        worker.next(WorkerEvent::Publish) == (WorkerAsk::Command, seq![WorkerEffect::Publish]),
        worker.next(WorkerEvent::Timeout) == (WorkerAsk::Command, seq![WorkerEffect::Heartbeat]),
        worker.next(WorkerEvent::Close) == (
            WorkerAsk::Exit,
            seq![WorkerEffect::ConfirmClose, WorkerEffect::Release],
        ),
        worker.next(WorkerEvent::Disconnected) == (WorkerAsk::Exit, seq![WorkerEffect::Release]),
{
}

/// Law: a worker takes a mapping that could be made, reads it, and is then ready; where either
/// fails it says so and ends.  Once it ended it does nothing more.
pub proof fn worker_gets_ready_step_by_step(event: WorkerEvent)
    ensures
        ({
            let create = PublisherLoop { ask: WorkerAsk::Create };
            let read = PublisherLoop { ask: WorkerAsk::InitialSeq };
            let over = PublisherLoop { ask: WorkerAsk::Exit };
            &&& create.next(WorkerEvent::Created).0 == WorkerAsk::InitialSeq
            &&& create.next(WorkerEvent::CreateFailed).0 == WorkerAsk::Exit
            &&& read.next(WorkerEvent::SeqRead).0 == WorkerAsk::Command
            &&& read.next(WorkerEvent::SeqFailed).0 == WorkerAsk::Exit
            &&& over.next(event).0 == WorkerAsk::Exit && over.next(event).1.len() == 0
        }),
{
}

/// Law: only an event that is too large is an error of its value, and only a mapping that could
/// not be made one of input and output.
pub proof fn kinds_of_publish_errors(error: PublishError)
    ensures
        error.spec_kind() == ErrorKind::Value <==> error is TooLarge,
        error.spec_kind() == ErrorKind::Io <==> error is CreateFailed,
        error.spec_kind() == ErrorKind::Runtime <==> !(error is TooLarge) && !(error is CreateFailed),
{
}

} // verus!
