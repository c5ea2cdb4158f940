//! The polling loop of a subscriber: which events to read, when to wait, when to open the
//! mapping again.
use vstd::prelude::*;

use crate::layout::{NUM_SLOTS_U64, SHM_HEARTBEAT_INTERVAL_MS};
use crate::names;
use crate::text;
use crate::timing::{
    IDLE_REOPEN_CHECKS, IDLE_THRESH_FAST, IDLE_THRESH_MED, POLL_FAST_US, POLL_IDLE_MS, POLL_MED_US,
    RECONNECT_SLEEP_MS,
};

verus! {

/// What a subscriber has to tell while it polls.
#[derive(Debug, Clone, Copy, PartialEq, Eq)]
pub enum PollNotice {
    /// The mapping could not be opened.
    ConnectFailed,
    /// The header could not be read.
    ReadFailed,
    /// The bus started over.
    EpochChanged { old_epoch: u64, new_epoch: u64, write_seq: u64 },
    /// The number of the last event went back.
    WentBack { read_seq: u64, write_seq: u64 },
    /// More events came than the ring holds.
    Overflowed { dropped: u64, read_seq: u64, write_seq: u64 },
    /// Some slots held other events by the time they were read.
    SlotsMissed { missed: u64, start_seq: u64, write_seq: u64 },
    /// Some events found no local queue.
    NotForwarded { failed: u64 },
    /// The mapping was opened again and is another one.
    Switched { old_epoch: u64, new_epoch: u64, old_read_seq: u64, new_write_seq: u64 },
    /// The heartbeat could not be refreshed.
    HeartbeatFailed,
    /// The entry in the client table could not be released.
    ReleaseFailed,
}

impl PollNotice {
    /// The text of the notice.  `shm_name` is the mapping that it is about, `detail` the error
    /// behind it, if there is one.
    pub open spec fn text(self, shm_name: Seq<char>, detail: Seq<char>) -> Seq<char> {
        match self {
            PollNotice::ConnectFailed => {
                "连接共享内存 '"@ + shm_name + "' 异常: "@ + detail
            },
            PollNotice::ReadFailed => {
                "[MmapSubscriber] 读取异常，尝试重连: "@ + detail
            },
            PollNotice::EpochChanged { old_epoch, new_epoch, write_seq } => {
                "[MmapSubscriber] 检测到共享内存 epoch 变化，重置读指针 (old_epoch="@
                    + text::decimal(old_epoch as nat) + ", new_epoch="@
                    + text::decimal(new_epoch as nat) + ", write_seq="@
                    + text::decimal(write_seq as nat) + ")"@
            },
            PollNotice::WentBack { read_seq, write_seq } => {
                "[MmapSubscriber] 检测到写指针回退，按发布端重启处理 (read_seq="@ + text::decimal(read_seq as nat)
                    + ", write_seq="@ + text::decimal(write_seq as nat) + ")"@
            },
            PollNotice::Overflowed { dropped, read_seq, write_seq } => {
                "[MmapSubscriber] 环形缓冲区溢出，丢失约 "@ + text::decimal(dropped as nat)
                    + " 条事件 (read_seq="@ + text::decimal(read_seq as nat) + ", write_seq="@
                    + text::decimal(write_seq as nat) + ")"@
            },
            PollNotice::SlotsMissed { missed, start_seq, write_seq } => {
                "[MmapSubscriber] "@ + text::decimal(missed as nat)
                    + " 个槽位读取失败，可能已被发布端覆盖或正在写入 (start_seq="@ + text::decimal(start_seq as nat)
                    + ", write_seq="@ + text::decimal(write_seq as nat) + ")"@
            },
            PollNotice::NotForwarded { failed } => {
                "[MmapSubscriber] "@ + text::decimal(failed as nat)
                    + " 条事件未能转发到本地队列；请确认订阅器已 attach 到 EventEngine 且事件引擎仍在运行"@
            },
            PollNotice::Switched { old_epoch, new_epoch, old_read_seq, new_write_seq } => {
                "[MmapSubscriber] 重新打开共享内存并切换映射 (old_epoch="@ + text::decimal(old_epoch as nat)
                    + ", new_epoch="@ + text::decimal(new_epoch as nat) + ", old_read_seq="@
                    + text::decimal(old_read_seq as nat) + ", new_write_seq="@
                    + text::decimal(new_write_seq as nat) + ")"@
            },
            PollNotice::HeartbeatFailed => {
                "[MmapSubscriber] 更新订阅端 heartbeat 失败，尝试重连: "@ + detail
            },
            PollNotice::ReleaseFailed => {
                "[MmapSubscriber] 释放订阅端 client 槽位失败: "@ + detail
            },
        }
    }

    /// The notice, as users see it.
    pub fn message(&self, shm_name: &str, detail: &str) -> (message: String)
        ensures
            message@ == self.text(shm_name@, detail@),
    {
        match self {
            PollNotice::ConnectFailed => {
                let mut out = String::from_str("连接共享内存 '");
                out.append(shm_name);
                out.append("' 异常: ");
                out.append(detail);
                out
            },
            PollNotice::ReadFailed => {
                let mut out = String::from_str("[MmapSubscriber] 读取异常，尝试重连: ");
                out.append(detail);
                out
            },
            PollNotice::EpochChanged { old_epoch, new_epoch, write_seq } => {
                let mut out = String::from_str("[MmapSubscriber] 检测到共享内存 epoch 变化，重置读指针 (old_epoch=");
                text::push_decimal(&mut out, *old_epoch as u64);
                out.append(", new_epoch=");
                text::push_decimal(&mut out, *new_epoch as u64);
                out.append(", write_seq=");
                text::push_decimal(&mut out, *write_seq as u64);
                out.append(")");
                out
            },
            PollNotice::WentBack { read_seq, write_seq } => {
                let mut out = String::from_str("[MmapSubscriber] 检测到写指针回退，按发布端重启处理 (read_seq=");
                text::push_decimal(&mut out, *read_seq as u64);
                out.append(", write_seq=");
                text::push_decimal(&mut out, *write_seq as u64);
                out.append(")");
                out
            },
            PollNotice::Overflowed { dropped, read_seq, write_seq } => {
                let mut out = String::from_str("[MmapSubscriber] 环形缓冲区溢出，丢失约 ");
                text::push_decimal(&mut out, *dropped as u64);
                out.append(" 条事件 (read_seq=");
                text::push_decimal(&mut out, *read_seq as u64);
                out.append(", write_seq=");
                text::push_decimal(&mut out, *write_seq as u64);
                out.append(")");
                out
            },
            PollNotice::SlotsMissed { missed, start_seq, write_seq } => {
                let mut out = String::from_str("[MmapSubscriber] ");
                text::push_decimal(&mut out, *missed as u64);
                out.append(" 个槽位读取失败，可能已被发布端覆盖或正在写入 (start_seq=");
                text::push_decimal(&mut out, *start_seq as u64);
                out.append(", write_seq=");
                text::push_decimal(&mut out, *write_seq as u64);
                out.append(")");
                out
            },
            PollNotice::NotForwarded { failed } => {
                let mut out = String::from_str("[MmapSubscriber] ");
                text::push_decimal(&mut out, *failed as u64);
                out.append(" 条事件未能转发到本地队列；请确认订阅器已 attach 到 EventEngine 且事件引擎仍在运行");
                out
            },
            PollNotice::Switched { old_epoch, new_epoch, old_read_seq, new_write_seq } => {
                let mut out = String::from_str("[MmapSubscriber] 重新打开共享内存并切换映射 (old_epoch=");
                text::push_decimal(&mut out, *old_epoch as u64);
                out.append(", new_epoch=");
                text::push_decimal(&mut out, *new_epoch as u64);
                out.append(", old_read_seq=");
                text::push_decimal(&mut out, *old_read_seq as u64);
                out.append(", new_write_seq=");
                text::push_decimal(&mut out, *new_write_seq as u64);
                out.append(")");
                out
            },
            PollNotice::HeartbeatFailed => {
                let mut out = String::from_str("[MmapSubscriber] 更新订阅端 heartbeat 失败，尝试重连: ");
                out.append(detail);
                out
            },
            PollNotice::ReleaseFailed => {
                let mut out = String::from_str("[MmapSubscriber] 释放订阅端 client 槽位失败: ");
                out.append(detail);
                out
            },
        }
    }
}


/// Something to do before the next question is answered.
#[derive(Debug, Clone, Copy, PartialEq, Eq)]
pub enum PollEffect {
    /// Put the notice into the log and hand it to the error callback.
    Log(PollNotice),
    /// Hand the notice to the error callback.
    Tell(PollNotice),
    /// Call the disconnect callback.
    Disconnected,
    /// Release the entry in the client table and close the mapping, if one is open.
    CloseMapping,
    /// Release and close the mapping that was just opened again.
    CloseProbe,
    /// Use the mapping that was just opened again.
    AdoptProbe,
    /// Take now for the time of the last heartbeat.
    MarkHeartbeat,
    /// Sleep.
    SleepUs(u64),
    /// Sleep, unless the subscriber stops.
    SleepUnlessStopped { ms: u64 },
}

/// What the loop has to be told next.
#[derive(Debug, Clone, Copy, PartialEq, Eq)]
pub enum PollAsk {
    /// Whether the subscriber is active.
    Active,
    /// The outcome of opening the mapping and registering.
    Open,
    /// The header of the mapping.
    Header,
    /// The outcome of reading one event and forwarding it.
    Slot { seq: u64 },
    /// The outcome of opening the mapping once more beside the one in use.
    Reopen,
    /// The age of the last heartbeat.
    HeartbeatAge,
    /// The outcome of refreshing the heartbeat.
    Heartbeat,
    /// Nothing: the loop is over.
    Exit,
}

/// An answer to what the loop asked.
#[derive(Debug)]
pub enum PollEvent {
    Active(bool),
    Opened { write_seq: u64, epoch: u64 },
    OpenFailed { error: String },
    Header { write_seq: u64, epoch: u64 },
    /// The mapping could not be read; `active` says whether the subscriber still is.
    MappingFailed { active: bool },
    /// The event was read and forwarded.
    SlotForwarded,
    /// The event was read, and no queue took it.
    SlotNotForwarded,
    /// The slot did not hold the event.
    SlotMissed,
    Reopened { write_seq: u64, epoch: u64 },
    ReopenFailed,
    HeartbeatAge { ms: u64 },
    HeartbeatDone,
    HeartbeatFailed,
}

/// The state of the loop.
#[derive(Debug, Clone, Copy)]
pub struct PollLoop {
    /// What the loop waits to be told.
    pub ask: PollAsk,
    /// Whether a mapping is open.
    pub connected: bool,
    /// Number of the last event that was dealt with.
    pub read_seq: u64,
    /// Epoch of the bus, as far as it is known.
    pub current_epoch: u64,
    pub idle_count: u32,
    pub idle_reopen_count: u32,
    /// Whether the user was told that events find no queue.
    pub warned_no_sender: bool,
    /// First event of the batch that is being read.
    pub start_seq: u64,
    /// Last event of the batch that is being read.
    pub write_seq: u64,
    pub missed: u64,
    pub forward_failed: u64,
}

/// What the loop makes of an answer.
pub struct PollNext {
    pub state: PollLoop,
    pub effects: Seq<PollEffect>,
}

/// One more, but never past the largest number.
pub open spec fn one_more32(n: u32) -> u32 {
    if n == u32::MAX {
        n
    } else {
        (n + 1) as u32
    }
}

/// One more, but never past the largest number.
pub open spec fn one_more64(n: u64) -> u64 {
    if n == u64::MAX {
        n
    } else {
        (n + 1) as u64
    }
}

impl PollLoop {
    /// Before the first question.
    pub open spec fn initial() -> PollLoop {
        PollLoop {
            ask: PollAsk::Active,
            connected: false,
            read_seq: 0,
            current_epoch: 0,
            idle_count: 0,
            idle_reopen_count: 0,
            warned_no_sender: false,
            start_seq: 0,
            write_seq: 0,
            missed: 0,
            forward_failed: 0,
        }
    }

    /// First event to read where the last one read is older than the last one published: the
    /// next one, or the oldest that the ring still holds.
    pub open spec fn first_to_read(read_seq: u64, write_seq: u64) -> u64 {
        if write_seq - read_seq > NUM_SLOTS_U64 {
            (write_seq - NUM_SLOTS_U64 + 1) as u64
        } else {
            (read_seq + 1) as u64
        }
    }

    /// How long to sleep after `idle_count` idle polls, in microseconds.
    pub open spec fn idle_sleep_us(idle_count: u32) -> u64 {
        if idle_count >= IDLE_THRESH_FAST + IDLE_THRESH_MED {
            (POLL_IDLE_MS * 1000) as u64
        } else if idle_count >= IDLE_THRESH_FAST {
            POLL_MED_US
        } else {
            POLL_FAST_US
        }
    }

    /// After the header was read: the bus started over, or went back, or has new events, or
    /// nothing new.
    pub open spec fn after_header(self, write_seq: u64, epoch: u64) -> PollNext {
        if self.current_epoch != 0 && epoch != self.current_epoch {
            PollNext {
                state: PollLoop { ask: PollAsk::Active, current_epoch: epoch, read_seq: write_seq, ..self },
                effects: seq![
                    PollEffect::Log(
                        PollNotice::EpochChanged { old_epoch: self.current_epoch, new_epoch: epoch, write_seq },
                    ),
                ],
            }
        } else if write_seq < self.read_seq {
            PollNext {
                state: PollLoop { ask: PollAsk::Active, read_seq: write_seq, ..self },
                effects: seq![
                    PollEffect::Log(PollNotice::WentBack { read_seq: self.read_seq, write_seq }),
                ],
            }
        } else if write_seq > self.read_seq {
            let start_seq = Self::first_to_read(self.read_seq, write_seq);
            PollNext {
                state: PollLoop {
                    ask: PollAsk::Slot { seq: start_seq },
                    idle_count: 0,
                    idle_reopen_count: 0,
                    start_seq,
                    write_seq,
                    missed: 0,
                    forward_failed: 0,
                    ..self
                },
                effects: if write_seq - self.read_seq > NUM_SLOTS_U64 {
                    seq![
                        PollEffect::Log(
                            PollNotice::Overflowed {
                                dropped: (write_seq - self.read_seq - NUM_SLOTS_U64) as u64,
                                read_seq: self.read_seq,
                                write_seq,
                            },
                        ),
                    ]
                } else {
                    seq![]
                },
            }
        } else {
            let idle = one_more32(self.idle_count);
            let reopens = if idle >= IDLE_THRESH_FAST + IDLE_THRESH_MED {
                one_more32(self.idle_reopen_count)
            } else {
                self.idle_reopen_count
            };
            PollNext {
                state: if reopens >= IDLE_REOPEN_CHECKS {
                    PollLoop { ask: PollAsk::Reopen, idle_count: idle, idle_reopen_count: 0, ..self }
                } else {
                    PollLoop { ask: PollAsk::HeartbeatAge, idle_count: idle, idle_reopen_count: reopens, ..self }
                },
                effects: seq![PollEffect::SleepUs(Self::idle_sleep_us(idle))],
            }
        }
    }

    /// After one event of a batch: the next one, or the end of the batch.
    pub open spec fn after_slot(self, seq: u64, missed: bool, forward_failed: bool) -> PollNext {
        let missed_now = if missed {
            one_more64(self.missed)
        } else {
            self.missed
        };
        let failed_now = if forward_failed {
            one_more64(self.forward_failed)
        } else {
            self.forward_failed
        };
        if seq < self.write_seq {
            PollNext {
                state: PollLoop {
                    ask: PollAsk::Slot { seq: (seq + 1) as u64 },
                    missed: missed_now,
                    forward_failed: failed_now,
                    ..self
                },
                effects: seq![],
            }
        } else {
            let warn = failed_now > 0 && !self.warned_no_sender;
            PollNext {
                state: PollLoop {
                    ask: PollAsk::HeartbeatAge,
                    read_seq: self.write_seq,
                    warned_no_sender: self.warned_no_sender || warn,
                    missed: missed_now,
                    forward_failed: failed_now,
                    ..self
                },
                effects: (if missed_now > 0 {
                    seq![
                        PollEffect::Log(
                            PollNotice::SlotsMissed {
                                missed: missed_now,
                                start_seq: self.start_seq,
                                write_seq: self.write_seq,
                            },
                        ),
                    ]
                } else {
                    seq![]
                }) + (if warn {
                    seq![PollEffect::Log(PollNotice::NotForwarded { failed: failed_now })]
                } else {
                    seq![]
                }) + seq![PollEffect::SleepUs(POLL_FAST_US)],
            }
        }
    }

    /// After the mapping was opened once more: it is used where it is another one.
    pub open spec fn after_reopen(self, write_seq: u64, epoch: u64) -> PollNext {
        if epoch != self.current_epoch || write_seq < self.read_seq {
            PollNext {
                state: PollLoop {
                    ask: PollAsk::HeartbeatAge,
                    connected: true,
                    current_epoch: epoch,
                    read_seq: write_seq,
                    ..self
                },
                effects: seq![
                    PollEffect::Log(
                        PollNotice::Switched {
                            old_epoch: self.current_epoch,
                            new_epoch: epoch,
                            old_read_seq: self.read_seq,
                            new_write_seq: write_seq,
                        },
                    ),
                    PollEffect::CloseMapping,
                    PollEffect::MarkHeartbeat,
                    PollEffect::AdoptProbe,
                ],
            }
        } else {
            PollNext {
                state: PollLoop { ask: PollAsk::HeartbeatAge, ..self },
                effects: seq![PollEffect::CloseProbe],
            }
        }
    }

    /// After the mapping could not be read: it is closed, and opened again later.
    pub open spec fn after_failure(self, active: bool) -> PollNext {
        PollNext {
            state: PollLoop { ask: PollAsk::Active, connected: false, ..self },
            effects: (if active {
                seq![PollEffect::Tell(PollNotice::ReadFailed), PollEffect::Disconnected]
            } else {
                seq![]
            }) + seq![
                PollEffect::CloseMapping,
                PollEffect::SleepUnlessStopped { ms: RECONNECT_SLEEP_MS },
            ],
        }
    }

    /// What the loop makes of an answer.  An answer to another question changes nothing.
    pub open spec fn next(self, event: PollEvent) -> PollNext {
        match (self.ask, event) {
            (PollAsk::Active, PollEvent::Active(active)) => if !active {
                PollNext {
                    state: PollLoop { ask: PollAsk::Exit, connected: false, ..self },
                    effects: seq![PollEffect::CloseMapping],
                }
            } else if self.connected {
                PollNext { state: PollLoop { ask: PollAsk::Header, ..self }, effects: seq![] }
            } else {
                PollNext { state: PollLoop { ask: PollAsk::Open, ..self }, effects: seq![] }
            },
            (PollAsk::Open, PollEvent::Opened { write_seq, epoch }) => PollNext {
                state: PollLoop {
                    ask: PollAsk::Header,
                    connected: true,
                    read_seq: write_seq,
                    current_epoch: epoch,
                    idle_count: 0,
                    idle_reopen_count: 0,
                    ..self
                },
                effects: seq![PollEffect::MarkHeartbeat],
            },
            (PollAsk::Open, PollEvent::OpenFailed { error }) => PollNext {
                state: PollLoop { ask: PollAsk::Active, ..self },
                effects: (if names::tells_not_found(error@) {
                    seq![]
                } else {
                    seq![PollEffect::Tell(PollNotice::ConnectFailed)]
                }) + seq![PollEffect::SleepUnlessStopped { ms: RECONNECT_SLEEP_MS }],
            },
            (PollAsk::Header, PollEvent::Header { write_seq, epoch }) => self.after_header(write_seq, epoch),
            (PollAsk::Header, PollEvent::MappingFailed { active }) => self.after_failure(active),
            (PollAsk::Slot { .. }, PollEvent::MappingFailed { active }) => self.after_failure(active),
            (PollAsk::Slot { seq }, PollEvent::SlotForwarded) => self.after_slot(seq, false, false),
            (PollAsk::Slot { seq }, PollEvent::SlotNotForwarded) => self.after_slot(seq, false, true),
            (PollAsk::Slot { seq }, PollEvent::SlotMissed) => self.after_slot(seq, true, false),
            (PollAsk::Reopen, PollEvent::Reopened { write_seq, epoch }) => self.after_reopen(write_seq, epoch),
            (PollAsk::Reopen, PollEvent::ReopenFailed) => PollNext {
                state: PollLoop { ask: PollAsk::HeartbeatAge, ..self },
                effects: seq![],
            },
            (PollAsk::HeartbeatAge, PollEvent::HeartbeatAge { ms }) => if ms < SHM_HEARTBEAT_INTERVAL_MS {
                PollNext { state: PollLoop { ask: PollAsk::Active, ..self }, effects: seq![] }
            } else if self.connected {
                PollNext { state: PollLoop { ask: PollAsk::Heartbeat, ..self }, effects: seq![] }
            } else {
                PollNext {
                    state: PollLoop { ask: PollAsk::Active, ..self },
                    effects: seq![PollEffect::MarkHeartbeat],
                }
            },
            (PollAsk::Heartbeat, PollEvent::HeartbeatDone) => PollNext {
                state: PollLoop { ask: PollAsk::Active, ..self },
                effects: seq![PollEffect::MarkHeartbeat],
            },
            (PollAsk::Heartbeat, PollEvent::HeartbeatFailed) => PollNext {
                state: PollLoop { ask: PollAsk::Active, connected: false, ..self },
                effects: seq![
                    PollEffect::Tell(PollNotice::HeartbeatFailed),
                    PollEffect::Disconnected,
                    PollEffect::CloseMapping,
                    PollEffect::SleepUnlessStopped { ms: RECONNECT_SLEEP_MS },
                ],
            },
            _ => PollNext { state: self, effects: seq![] },
        }
    }

    /// A loop before its first question.
    pub fn new() -> (poll: PollLoop)
        ensures
            poll == PollLoop::initial(),
            poll.ask == PollAsk::Active,
            !poll.connected && !poll.warned_no_sender,
            poll.read_seq == 0 && poll.current_epoch == 0,
            poll.idle_count == 0 && poll.idle_reopen_count == 0,
    {
        PollLoop {
            ask: PollAsk::Active,
            connected: false,
            read_seq: 0,
            current_epoch: 0,
            idle_count: 0,
            idle_reopen_count: 0,
            warned_no_sender: false,
            start_seq: 0,
            write_seq: 0,
            missed: 0,
            forward_failed: 0,
        }
    }

    fn on_header(&mut self, write_seq: u64, epoch: u64) -> (effects: Vec<PollEffect>)
        ensures
            *final(self) == old(self).after_header(write_seq, epoch).state,
            effects@ == old(self).after_header(write_seq, epoch).effects,
    {
        let mut effects: Vec<PollEffect> = Vec::new();
        let ghost start = *self;
        if self.current_epoch != 0 && epoch != self.current_epoch {
            effects.push(
                PollEffect::Log(
                    PollNotice::EpochChanged { old_epoch: self.current_epoch, new_epoch: epoch, write_seq },
                ),
            );
            self.current_epoch = epoch;
            self.read_seq = write_seq;
            self.ask = PollAsk::Active;
        } else if write_seq < self.read_seq {
            effects.push(PollEffect::Log(PollNotice::WentBack { read_seq: self.read_seq, write_seq }));
            self.read_seq = write_seq;
            self.ask = PollAsk::Active;
        } else if write_seq > self.read_seq {
            self.idle_count = 0;
            self.idle_reopen_count = 0;
            let available: u64 = write_seq - self.read_seq;
            let start_seq: u64 = if available > NUM_SLOTS_U64 {
                effects.push(
                    PollEffect::Log(
                        PollNotice::Overflowed {
                            dropped: available - NUM_SLOTS_U64,
                            read_seq: self.read_seq,
                            write_seq,
                        },
                    ),
                );
                write_seq - NUM_SLOTS_U64 + 1
            } else {
                self.read_seq + 1
            };
            self.start_seq = start_seq;
            self.write_seq = write_seq;
            self.missed = 0;
            self.forward_failed = 0;
            self.ask = PollAsk::Slot { seq: start_seq };
        } else {
            self.idle_count = self.idle_count.saturating_add(1);
            if self.idle_count >= IDLE_THRESH_FAST + IDLE_THRESH_MED {
                effects.push(PollEffect::SleepUs(POLL_IDLE_MS * 1000));
                self.idle_reopen_count = self.idle_reopen_count.saturating_add(1);
            } else if self.idle_count >= IDLE_THRESH_FAST {
                effects.push(PollEffect::SleepUs(POLL_MED_US));
            } else {
                effects.push(PollEffect::SleepUs(POLL_FAST_US));
            }
            if self.idle_reopen_count >= IDLE_REOPEN_CHECKS {
                self.idle_reopen_count = 0;
                self.ask = PollAsk::Reopen;
            } else {
                self.ask = PollAsk::HeartbeatAge;
            }
        }
        assert(effects@ =~= start.after_header(write_seq, epoch).effects);
        effects
    }

    fn on_slot(&mut self, seq: u64, missed: bool, forward_failed: bool) -> (effects: Vec<PollEffect>)
        ensures
            *final(self) == old(self).after_slot(seq, missed, forward_failed).state,
            effects@ == old(self).after_slot(seq, missed, forward_failed).effects,
    {
        let mut effects: Vec<PollEffect> = Vec::new();
        let ghost start = *self;
        if missed {
            self.missed = self.missed.saturating_add(1);
        }
        if forward_failed {
            self.forward_failed = self.forward_failed.saturating_add(1);
        }
        if seq < self.write_seq {
            self.ask = PollAsk::Slot { seq: seq + 1 };
        } else {
            if self.missed > 0 {
                effects.push(
                    PollEffect::Log(
                        PollNotice::SlotsMissed {
                            missed: self.missed,
                            start_seq: self.start_seq,
                            write_seq: self.write_seq,
                        },
                    ),
                );
            }
            if self.forward_failed > 0 && !self.warned_no_sender {
                self.warned_no_sender = true;
                effects.push(PollEffect::Log(PollNotice::NotForwarded { failed: self.forward_failed }));
            }
            self.read_seq = self.write_seq;
            effects.push(PollEffect::SleepUs(POLL_FAST_US));
            self.ask = PollAsk::HeartbeatAge;
        }
        assert(effects@ =~= start.after_slot(seq, missed, forward_failed).effects);
        effects
    }

    fn on_reopened(&mut self, write_seq: u64, epoch: u64) -> (effects: Vec<PollEffect>)
        ensures
            *final(self) == old(self).after_reopen(write_seq, epoch).state,
            effects@ == old(self).after_reopen(write_seq, epoch).effects,
    {
        let mut effects: Vec<PollEffect> = Vec::new();
        let ghost start = *self;
        if epoch != self.current_epoch || write_seq < self.read_seq {
            effects.push(
                PollEffect::Log(
                    PollNotice::Switched {
                        old_epoch: self.current_epoch,
                        new_epoch: epoch,
                        old_read_seq: self.read_seq,
                        new_write_seq: write_seq,
                    },
                ),
            );
            effects.push(PollEffect::CloseMapping);
            effects.push(PollEffect::MarkHeartbeat);
            effects.push(PollEffect::AdoptProbe);
            self.connected = true;
            self.current_epoch = epoch;
            self.read_seq = write_seq;
        } else {
            effects.push(PollEffect::CloseProbe);
        }
        self.ask = PollAsk::HeartbeatAge;
        assert(effects@ =~= start.after_reopen(write_seq, epoch).effects);
        effects
    }

    fn on_failure(&mut self, active: bool) -> (effects: Vec<PollEffect>)
        ensures
            *final(self) == old(self).after_failure(active).state,
            effects@ == old(self).after_failure(active).effects,
    {
        let mut effects: Vec<PollEffect> = Vec::new();
        let ghost start = *self;
        if active {
            effects.push(PollEffect::Tell(PollNotice::ReadFailed));
            effects.push(PollEffect::Disconnected);
        }
        effects.push(PollEffect::CloseMapping);
        effects.push(PollEffect::SleepUnlessStopped { ms: RECONNECT_SLEEP_MS });
        self.connected = false;
        self.ask = PollAsk::Active;
        assert(effects@ =~= start.after_failure(active).effects);
        effects
    }

    /// Takes an answer, and says what to do before `ask` is answered next.
    pub fn step(&mut self, event: PollEvent) -> (effects: Vec<PollEffect>)
        ensures
            *final(self) == old(self).next(event).state,
            effects@ == old(self).next(event).effects,
    {
        let mut effects: Vec<PollEffect> = Vec::new();
        let ghost start = *self;
        match (self.ask, event) {
            (PollAsk::Active, PollEvent::Active(active)) => {
                if !active {
                    effects.push(PollEffect::CloseMapping);
                    self.connected = false;
                    self.ask = PollAsk::Exit;
                } else if self.connected {
                    self.ask = PollAsk::Header;
                } else {
                    self.ask = PollAsk::Open;
                }
            },
            (PollAsk::Open, PollEvent::Opened { write_seq, epoch }) => {
                self.read_seq = write_seq;
                self.current_epoch = epoch;
                self.idle_count = 0;
                self.idle_reopen_count = 0;
                self.connected = true;
                effects.push(PollEffect::MarkHeartbeat);
                self.ask = PollAsk::Header;
            },
            (PollAsk::Open, PollEvent::OpenFailed { error }) => {
                if !names::is_not_found_error(error.as_str()) {
                    effects.push(PollEffect::Tell(PollNotice::ConnectFailed));
                }
                effects.push(PollEffect::SleepUnlessStopped { ms: RECONNECT_SLEEP_MS });
                self.ask = PollAsk::Active;
            },
            (PollAsk::Header, PollEvent::Header { write_seq, epoch }) => {
                effects = self.on_header(write_seq, epoch);
            },
            (PollAsk::Header, PollEvent::MappingFailed { active }) => {
                effects = self.on_failure(active);
            },
            (PollAsk::Slot { .. }, PollEvent::MappingFailed { active }) => {
                effects = self.on_failure(active);
            },
            (PollAsk::Slot { seq }, PollEvent::SlotForwarded) => {
                effects = self.on_slot(seq, false, false);
            },
            (PollAsk::Slot { seq }, PollEvent::SlotNotForwarded) => {
                effects = self.on_slot(seq, false, true);
            },
            (PollAsk::Slot { seq }, PollEvent::SlotMissed) => {
                effects = self.on_slot(seq, true, false);
            },
            (PollAsk::Reopen, PollEvent::Reopened { write_seq, epoch }) => {
                effects = self.on_reopened(write_seq, epoch);
            },
            (PollAsk::Reopen, PollEvent::ReopenFailed) => {
                self.ask = PollAsk::HeartbeatAge;
            },
            (PollAsk::HeartbeatAge, PollEvent::HeartbeatAge { ms }) => {
                if ms < SHM_HEARTBEAT_INTERVAL_MS {
                    self.ask = PollAsk::Active;
                } else if self.connected {
                    self.ask = PollAsk::Heartbeat;
                } else {
                    effects.push(PollEffect::MarkHeartbeat);
                    self.ask = PollAsk::Active;
                }
            },
            (PollAsk::Heartbeat, PollEvent::HeartbeatDone) => {
                effects.push(PollEffect::MarkHeartbeat);
                self.ask = PollAsk::Active;
            },
            (PollAsk::Heartbeat, PollEvent::HeartbeatFailed) => {
                effects.push(PollEffect::Tell(PollNotice::HeartbeatFailed));
                effects.push(PollEffect::Disconnected);
                effects.push(PollEffect::CloseMapping);
                effects.push(PollEffect::SleepUnlessStopped { ms: RECONNECT_SLEEP_MS });
                self.connected = false;
                self.ask = PollAsk::Active;
            },
            _ => {},
        }
        assert(effects@ =~= start.next(event).effects);
        effects
    }
}

} // verus!
