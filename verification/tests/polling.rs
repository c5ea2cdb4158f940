use rust_event_engine::poll::{PollAsk, PollEffect, PollEvent, PollLoop, PollNotice};

fn connected(write_seq: u64, epoch: u64) -> PollLoop {
    let mut poll = PollLoop::new();
    assert_eq!(poll.ask, PollAsk::Active);
    assert!(poll.step(PollEvent::Active(true)).is_empty());
    assert_eq!(poll.ask, PollAsk::Open);
    assert_eq!(poll.step(PollEvent::Opened { write_seq, epoch }), vec![PollEffect::MarkHeartbeat]);
    assert_eq!(poll.ask, PollAsk::Header);
    poll
}

fn next_header(poll: &mut PollLoop) {
    assert_eq!(poll.ask, PollAsk::HeartbeatAge);
    assert!(poll.step(PollEvent::HeartbeatAge { ms: 0 }).is_empty());
    assert!(poll.step(PollEvent::Active(true)).is_empty());
    assert_eq!(poll.ask, PollAsk::Header);
}

#[test]
fn subscriber_begins_with_what_comes_next() {
    let mut poll = connected(40, 7);
    assert!(poll.step(PollEvent::Header { write_seq: 42, epoch: 7 }).is_empty());
    assert_eq!(poll.ask, PollAsk::Slot { seq: 41 });
    assert!(poll.step(PollEvent::SlotForwarded).is_empty());
    assert_eq!(poll.ask, PollAsk::Slot { seq: 42 });
    assert_eq!(poll.step(PollEvent::SlotForwarded), vec![PollEffect::SleepUs(100)]);
    assert_eq!(poll.read_seq, 42);
}

#[test]
fn missing_mapping_is_waited_for_in_silence() {
    let mut poll = PollLoop::new();
    poll.step(PollEvent::Active(true));
    let effects = poll.step(PollEvent::OpenFailed { error: "No such file or directory".to_string() });
    assert_eq!(effects, vec![PollEffect::SleepUnlessStopped { ms: 81 }]);
    assert_eq!(poll.ask, PollAsk::Active);
    poll.step(PollEvent::Active(true));
    let effects = poll.step(PollEvent::OpenFailed { error: "permission denied".to_string() });
    assert_eq!(
        effects,
        vec![PollEffect::Tell(PollNotice::ConnectFailed), PollEffect::SleepUnlessStopped { ms: 81 }]
    );
    assert_eq!(
        PollNotice::ConnectFailed.message("bus", "permission denied"),
        "连接共享内存 'bus' 异常: permission denied"
    );
}

#[test]
fn stopping_closes_the_mapping() {
    let mut poll = connected(0, 1);
    poll.step(PollEvent::Header { write_seq: 0, epoch: 1 });
    poll.step(PollEvent::HeartbeatAge { ms: 0 });
    assert_eq!(poll.step(PollEvent::Active(false)), vec![PollEffect::CloseMapping]);
    assert_eq!(poll.ask, PollAsk::Exit);
    assert!(poll.step(PollEvent::Active(true)).is_empty());
    assert_eq!(poll.ask, PollAsk::Exit);
}

#[test]
fn overflow_keeps_the_newest_round() {
    let mut poll = connected(10, 7);
    let notice = PollNotice::Overflowed { dropped: 6, read_seq: 10, write_seq: 16_400 };
    assert_eq!(
        poll.step(PollEvent::Header { write_seq: 16_400, epoch: 7 }),
        vec![PollEffect::Log(notice)]
    );
    assert_eq!(poll.ask, PollAsk::Slot { seq: 17 });
    assert_eq!(
        notice.message("bus", ""),
        "[MmapSubscriber] 环形缓冲区溢出，丢失约 6 条事件 (read_seq=10, write_seq=16400)"
    );
    let mut poll = connected(10, 7);
    assert!(poll.step(PollEvent::Header { write_seq: 16_394, epoch: 7 }).is_empty());
    assert_eq!(poll.ask, PollAsk::Slot { seq: 11 });
}

#[test]
fn epoch_change_starts_over() {
    let mut poll = connected(10, 7);
    let notice = PollNotice::EpochChanged { old_epoch: 7, new_epoch: 8, write_seq: 3 };
    assert_eq!(poll.step(PollEvent::Header { write_seq: 3, epoch: 8 }), vec![PollEffect::Log(notice)]);
    assert_eq!((poll.read_seq, poll.current_epoch, poll.ask), (3, 8, PollAsk::Active));
    assert_eq!(
        notice.message("bus", ""),
        "[MmapSubscriber] 检测到共享内存 epoch 变化，重置读指针 (old_epoch=7, new_epoch=8, write_seq=3)"
    );
}

#[test]
fn going_back_starts_over() {
    let mut poll = connected(10, 7);
    let notice = PollNotice::WentBack { read_seq: 10, write_seq: 3 };
    assert_eq!(poll.step(PollEvent::Header { write_seq: 3, epoch: 7 }), vec![PollEffect::Log(notice)]);
    assert_eq!((poll.read_seq, poll.ask), (3, PollAsk::Active));
    assert_eq!(
        notice.message("bus", ""),
        "[MmapSubscriber] 检测到写指针回退，按发布端重启处理 (read_seq=10, write_seq=3)"
    );
}

#[test]
fn missed_and_unforwarded_events_are_told() {
    let mut poll = connected(0, 7);
    poll.step(PollEvent::Header { write_seq: 3, epoch: 7 });
    poll.step(PollEvent::SlotMissed);
    poll.step(PollEvent::SlotNotForwarded);
    let missed = PollNotice::SlotsMissed { missed: 1, start_seq: 1, write_seq: 3 };
    let failed = PollNotice::NotForwarded { failed: 2 };
    assert_eq!(
        poll.step(PollEvent::SlotNotForwarded),
        vec![PollEffect::Log(missed), PollEffect::Log(failed), PollEffect::SleepUs(100)]
    );
    assert_eq!(
        missed.message("bus", ""),
        "[MmapSubscriber] 1 个槽位读取失败，可能已被发布端覆盖或正在写入 (start_seq=1, write_seq=3)"
    );
    assert_eq!(
        failed.message("bus", ""),
        "[MmapSubscriber] 2 条事件未能转发到本地队列；请确认订阅器已 attach 到 EventEngine 且事件引擎仍在运行"
    );
    // The missing queue is told of once.
    next_header(&mut poll);
    poll.step(PollEvent::Header { write_seq: 4, epoch: 7 });
    assert_eq!(poll.step(PollEvent::SlotNotForwarded), vec![PollEffect::SleepUs(100)]);
}

#[test]
fn idle_polling_slows_down_and_opens_again() {
    let mut poll = connected(5, 7);
    let mut polls = 0u32;
    loop {
        let effects = poll.step(PollEvent::Header { write_seq: 5, epoch: 7 });
        polls += 1;
        let us = if polls >= 90 { 1_000 } else if polls >= 50 { 500 } else { 100 };
        assert_eq!(effects, vec![PollEffect::SleepUs(us)]);
        if poll.ask == PollAsk::Reopen {
            break;
        }
        next_header(&mut poll);
    }
    assert_eq!(polls, 90 + 80);
    assert_eq!(poll.step(PollEvent::Reopened { write_seq: 5, epoch: 7 }), vec![PollEffect::CloseProbe]);
    next_header(&mut poll);
}

fn about_to_reopen() -> PollLoop {
    let mut poll = connected(5, 7);
    while poll.ask != PollAsk::Reopen {
        poll.step(PollEvent::Header { write_seq: 5, epoch: 7 });
        if poll.ask == PollAsk::HeartbeatAge {
            next_header(&mut poll);
        }
    }
    poll
}

#[test]
fn another_mapping_is_adopted() {
    let mut poll = about_to_reopen();
    let notice = PollNotice::Switched { old_epoch: 7, new_epoch: 9, old_read_seq: 5, new_write_seq: 6 };
    assert_eq!(
        poll.step(PollEvent::Reopened { write_seq: 6, epoch: 9 }),
        vec![
            PollEffect::Log(notice),
            PollEffect::CloseMapping,
            PollEffect::MarkHeartbeat,
            PollEffect::AdoptProbe,
        ]
    );
    assert_eq!((poll.read_seq, poll.current_epoch), (6, 9));
    assert_eq!(
        notice.message("bus", ""),
        "[MmapSubscriber] 重新打开共享内存并切换映射 (old_epoch=7, new_epoch=9, old_read_seq=5, new_write_seq=6)"
    );
    let mut poll = about_to_reopen();
    assert!(poll.step(PollEvent::ReopenFailed).is_empty());
    next_header(&mut poll);
}

#[test]
fn heartbeat_is_refreshed_every_second() {
    let mut poll = connected(5, 7);
    poll.step(PollEvent::Header { write_seq: 5, epoch: 7 });
    assert!(poll.step(PollEvent::HeartbeatAge { ms: 1_000 }).is_empty());
    assert_eq!(poll.ask, PollAsk::Heartbeat);
    assert_eq!(poll.step(PollEvent::HeartbeatDone), vec![PollEffect::MarkHeartbeat]);
    poll.step(PollEvent::Active(true));
    poll.step(PollEvent::Header { write_seq: 5, epoch: 7 });
    poll.step(PollEvent::HeartbeatAge { ms: 5_000 });
    assert_eq!(
        poll.step(PollEvent::HeartbeatFailed),
        vec![
            PollEffect::Tell(PollNotice::HeartbeatFailed),
            PollEffect::Disconnected,
            PollEffect::CloseMapping,
            PollEffect::SleepUnlessStopped { ms: 81 },
        ]
    );
    poll.step(PollEvent::Active(true));
    assert_eq!(poll.ask, PollAsk::Open);
    assert_eq!(
        PollNotice::HeartbeatFailed.message("bus", "x"),
        "[MmapSubscriber] 更新订阅端 heartbeat 失败，尝试重连: x"
    );
    assert_eq!(
        PollNotice::ReleaseFailed.message("bus", "x"),
        "[MmapSubscriber] 释放订阅端 client 槽位失败: x"
    );
}

#[test]
fn unreadable_mapping_is_closed() {
    let mut poll = connected(5, 7);
    assert_eq!(
        poll.step(PollEvent::MappingFailed { active: true }),
        vec![
            PollEffect::Tell(PollNotice::ReadFailed),
            PollEffect::Disconnected,
            PollEffect::CloseMapping,
            PollEffect::SleepUnlessStopped { ms: 81 },
        ]
    );
    assert!(!poll.connected);
    assert_eq!(PollNotice::ReadFailed.message("bus", "x"), "[MmapSubscriber] 读取异常，尝试重连: x");
    let mut poll = connected(5, 7);
    poll.step(PollEvent::Header { write_seq: 6, epoch: 7 });
    assert_eq!(
        poll.step(PollEvent::MappingFailed { active: false }),
        vec![PollEffect::CloseMapping, PollEffect::SleepUnlessStopped { ms: 81 }]
    );
}
