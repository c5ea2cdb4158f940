use rust_event_engine::engine::{
    ensure_callable, Attached, EngineError, EngineStart, EventEngine, PutAsk, PutOutcome, StartAsk, StartEvent,
    StartFailure,
};
use rust_event_engine::event::{extract_type, Event, EventTypeError, Found, EVENT_TICK, EVENT_TIMER};
use rust_event_engine::publisher::{
    check_ready, ErrorKind, FirstReport, MmapPublisher, PublishError, PublisherLoop, WorkerAsk, WorkerEffect, WorkerEvent,
};
use rust_event_engine::subscriber::{MmapSubscriber, Queue, SubscribeError, SubscriberStart};
use rust_event_engine::teardown::{
    joined, skips_join, CloseAsk, EngineParts, EngineShutdown, FirstError, PublisherClose, ShutdownAsk, StopAsk, SubscriberStop,
};
use rust_event_engine::workers::{
    build_failed_message, decode_failed_message, ProcessAsk, ProcessEffect, ProcessEvent, ProcessLoop, TimerAsk,
    TimerEvent, TimerLoop,
};

type Engine = EventEngine<u32, &'static str, &'static str, u8>;

fn text(s: &str) -> String {
    s.to_string()
}

#[test]
fn event_parts() {
    let mut event = Event::new("eTick.", None, -1);
    assert_eq!((event.type_(), *event.data()), ("eTick.", -1));
    event.set_type_(text("eLog"));
    event.set_data(5);
    assert_eq!(event.__repr__(), "Event(type_='eLog')");
    assert_eq!(*Event::new("", Some(3), 0).data(), 3);
    assert_eq!((EVENT_TIMER, EVENT_TICK), ("eTimer.", "eTick."));
}

#[test]
fn event_state_carries_over() {
    let from = Event::new_owned(text("a"), vec![1, 2]);
    let (type_, data) = from.__getstate__();
    let mut onto = Event::new_owned(text("b"), vec![]);
    onto.__setstate__((type_, data.clone()));
    assert_eq!((onto.type_(), onto.data()), ("a", &vec![1, 2]));
}

#[test]
fn event_types_are_found() {
    assert_eq!(extract_type(Found::Text(text("a")), Found::Text(text("b"))), Ok(text("a")));
    assert_eq!(extract_type(Found::Nothing, Found::Text(text("b"))), Ok(text("b")));
    let error = extract_type(Found::Other { detail: text("int") }, Found::Text(text("b"))).unwrap_err();
    assert_eq!(error.message(), "事件属性 type_ 类型错误: int");
    let error = extract_type(Found::Nothing, Found::Other { detail: text("int") }).unwrap_err();
    assert_eq!(error.message(), "事件键 type_ 类型错误: int");
    let error = extract_type(Found::Nothing, Found::Nothing).unwrap_err();
    assert_eq!(error, EventTypeError::Missing);
    assert_eq!(error.message(), "事件对象必须提供 type_ 属性或 type_ 键");
}

#[test]
fn publisher_takes_events_until_it_closes() {
    let mut publisher = MmapPublisher::new(text("bus"), 7u32, 8u8);
    assert_eq!(publisher.shm_name(), "bus");
    assert_eq!(publisher.check_open(), Ok(()));
    assert_eq!(publisher.publish(4096), Ok(&7));
    assert_eq!(publisher.publish(4097), Err(PublishError::TooLarge { len: 4097 }));
    assert_eq!(publisher.close(), Some((Some(7), Some(8))));
    assert_eq!(publisher.check_open(), Err(PublishError::Closed));
    assert_eq!(publisher.publish(1), Err(PublishError::ChannelClosed));
    assert_eq!(publisher.close(), None);
}

#[test]
fn publisher_errors() {
    let cases = [
        (PublishError::Closed, "共享内存发布器已关闭", ErrorKind::Runtime),
        (PublishError::TooLarge { len: 5000 }, "事件序列化后 5000B 超过 MAX_PAYLOAD=4096B", ErrorKind::Value),
        (PublishError::ChannelClosed, "共享内存发布通道已关闭", ErrorKind::Runtime),
        (PublishError::SendFailed { detail: text("x") }, "发送发布命令失败: x", ErrorKind::Runtime),
        (PublishError::AckLost { detail: text("x") }, "等待发布确认失败: x", ErrorKind::Runtime),
        (PublishError::Rejected { detail: text("x") }, "发布事件失败: x", ErrorKind::Runtime),
        (
            PublishError::CreateFailed { name: text("bus"), detail: text("x") },
            "创建共享内存 'bus' 失败: x",
            ErrorKind::Io,
        ),
        (PublishError::SpawnFailed { detail: text("x") }, "启动共享内存发布线程失败: x", ErrorKind::Runtime),
        (PublishError::InitLost { detail: text("x") }, "等待共享内存发布线程初始化失败: x", ErrorKind::Runtime),
        (PublishError::CloseSendFailed { detail: text("x") }, "发送关闭命令失败: x", ErrorKind::Runtime),
        (PublishError::CloseAckLost { detail: text("x") }, "等待关闭确认失败: x", ErrorKind::Runtime),
    ];
    for (error, message, kind) in cases {
        assert_eq!(error.message(), message);
        assert_eq!(error.kind(), kind);
    }
}

#[test]
fn publisher_worker_releases_when_it_ends() {
    let mut worker = PublisherLoop::new();
    assert!(worker.step(WorkerEvent::Created).is_empty());
    assert_eq!(worker.ask, WorkerAsk::InitialSeq);
    assert_eq!(worker.step(WorkerEvent::SeqRead), vec![WorkerEffect::Ready]);
    assert_eq!(worker.step(WorkerEvent::Publish), vec![WorkerEffect::Publish]);
    assert_eq!(worker.step(WorkerEvent::Timeout), vec![WorkerEffect::Heartbeat]);
    let mut gone = worker;
    assert_eq!(worker.step(WorkerEvent::Close), vec![WorkerEffect::ConfirmClose, WorkerEffect::Release]);
    assert_eq!(worker.ask, WorkerAsk::Exit);
    assert_eq!(gone.step(WorkerEvent::Disconnected), vec![WorkerEffect::Release]);
    assert_eq!(gone.ask, WorkerAsk::Exit);
    let mut failed = PublisherLoop::new();
    assert_eq!(failed.step(WorkerEvent::CreateFailed), vec![WorkerEffect::NotReady]);
    assert_eq!(failed.ask, WorkerAsk::Exit);
    let mut unread = PublisherLoop::new();
    unread.step(WorkerEvent::Created);
    assert_eq!(unread.step(WorkerEvent::SeqFailed), vec![WorkerEffect::NotReady]);
    assert_eq!(unread.ask, WorkerAsk::Exit);
}

#[test]
fn closing_a_publisher() {
    let mut close: PublisherClose<&str> = PublisherClose::begin(true, true);
    assert_eq!(close.ask, CloseAsk::Send);
    assert_eq!(close.step(None), None);
    assert_eq!(close.ask, CloseAsk::Confirm);
    assert_eq!(close.step(Some("ack")), None);
    assert_eq!(close.ask, CloseAsk::Join);
    assert_eq!(close.step(Some("join")), Some("join"));
    assert_eq!(close.ask, CloseAsk::Done);
    assert_eq!(close.errors.into_result(), Err("ack"));

    let mut close: PublisherClose<&str> = PublisherClose::begin(true, true);
    assert_eq!(close.step(Some("send")), None);
    assert_eq!(close.ask, CloseAsk::Join);
    let close: PublisherClose<&str> = PublisherClose::begin(false, false);
    assert_eq!(close.ask, CloseAsk::Done);
    assert_eq!(close.errors.into_result(), Ok(()));
}

fn subscriber() -> MmapSubscriber<u32, u8> {
    MmapSubscriber::new(text("bus"), None, Some(true), Some(Ok(()))).unwrap()
}

#[test]
fn subscriber_is_made_from_callbacks_and_an_engine() {
    type Made = Result<MmapSubscriber<u32, u8>, EngineError>;
    let made: Made = MmapSubscriber::new(text("bus"), Some(true), None, None);
    let made = made.unwrap();
    assert!(!made.active());
    assert_eq!(made.forward_raw_event(), None);
    let made: Made = MmapSubscriber::new(text("bus"), Some(false), Some(false), Some(Err(text("x"))));
    assert_eq!(made.unwrap_err().message(), "log_exception 必须是可调用对象");
    let made: Made = MmapSubscriber::new(text("bus"), Some(true), Some(false), Some(Err(text("x"))));
    assert_eq!(made.unwrap_err().message(), "on_disconnect 必须是可调用对象");
    let made: Made = MmapSubscriber::new(text("bus"), None, None, Some(Err(text("x"))));
    assert_eq!(made.unwrap_err().message(), "event_engine 必须是 EventEngine 实例: x");
}

#[test]
fn queue_that_is_gone_is_let_go() {
    let mut subscriber = subscriber();
    assert!(!subscriber.forwarded(false));
    assert_eq!(subscriber.forward_raw_event(), None);
    subscriber.set_sender(Some(3));
    assert!(subscriber.forwarded(true));
    assert_eq!(subscriber.forward_raw_event(), Some(&3));
    assert!(!subscriber.forwarded(false));
    assert_eq!(subscriber.forward_raw_event(), None);
}

#[test]
fn attached_subscriber_runs_with_the_engine() {
    let mut waits = subscriber();
    assert_eq!(waits.attach(Queue::Waits), None);
    assert_eq!((waits.active(), waits.forward_raw_event()), (false, None));
    let mut gets = subscriber();
    assert_eq!(gets.attach(Queue::Gets(4)), None);
    assert_eq!((gets.active(), gets.forward_raw_event()), (false, Some(&4)));
    let mut starts = subscriber();
    assert_eq!(starts.attach(Queue::Starts(4)), Some(SubscriberStart::Spawn));
    assert_eq!((starts.active(), starts.forward_raw_event()), (true, Some(&4)));
    assert_eq!(starts.attach(Queue::Starts(5)), Some(SubscriberStart::Running));
    assert_eq!(starts.forward_raw_event(), Some(&5));
}

#[test]
fn publisher_is_made_once_its_worker_is_ready() {
    assert_eq!(check_ready(text("bus"), FirstReport::Ready), Ok(text("bus")));
    let error = check_ready(text("bus"), FirstReport::NotReady { detail: text("x") }).unwrap_err();
    assert_eq!(error.message(), "创建共享内存 'bus' 失败: x");
    let error = check_ready(text("bus"), FirstReport::Lost { detail: text("x") }).unwrap_err();
    assert_eq!(error.message(), "等待共享内存发布线程初始化失败: x");
}

#[test]
fn threads_do_not_wait_for_themselves() {
    assert_eq!(skips_join(false, "EventTimer"), None);
    assert_eq!(skips_join(true, "EventTimer"), Some(text("[EventTimer] 跳过当前线程 join，避免自 join 死锁")));
    assert_eq!(joined(false, "EventTimer"), Ok(()));
    assert_eq!(joined(true, "EventTimer"), Err(EngineError::ThreadDied { name: text("EventTimer") }));
}

#[test]
fn failed_start_leaves_the_engine_stopped() {
    for failing in 0..3 {
        let mut engine = Engine::new(1).unwrap();
        assert!(engine.start());
        let mut start = EngineStart::new();
        let mut spawned = 0;
        while start.ask != StartAsk::Done {
            let event = match start.ask {
                StartAsk::Record => StartEvent::Recorded { subscriber: true },
                StartAsk::SpawnProcess | StartAsk::SpawnTimer | StartAsk::StartSubscriber => {
                    spawned += 1;
                    if spawned - 1 == failing { StartEvent::Failed } else { StartEvent::Succeeded }
                }
                _ => StartEvent::Succeeded,
            };
            engine.step_start(&mut start, event);
        }
        assert!(start.failure.is_some());
        assert!(!engine.active());
    }
    let mut engine = Engine::new(1).unwrap();
    engine.start();
    let mut start = EngineStart::new();
    engine.step_start(&mut start, StartEvent::Succeeded);
    engine.step_start(&mut start, StartEvent::Succeeded);
    engine.step_start(&mut start, StartEvent::Recorded { subscriber: false });
    assert_eq!(start.ask, StartAsk::Done);
    assert!(engine.active());
}

#[test]
fn course_given_up_stops_a_later_start_no_more() {
    let mut engine = Engine::new(1).unwrap();
    engine.start();
    let mut start = EngineStart::new();
    engine.step_start(&mut start, StartEvent::Succeeded);
    engine.step_start(&mut start, StartEvent::Failed);
    assert!(!engine.active());
    assert!(engine.start());
    engine.step_start(&mut start, StartEvent::Succeeded);
    assert_eq!(start.ask, StartAsk::Done);
    assert!(engine.active());
}

#[test]
fn subscriber_starts_once_and_only_with_a_queue() {
    let mut subscriber = subscriber();
    assert_eq!(subscriber.shm_name(), "bus");
    assert!(!subscriber.active());
    assert_eq!(subscriber.start(), SubscriberStart::Refused(SubscribeError::NotAttached));
    assert!(!subscriber.active());
    assert_eq!(subscriber.start_with_sender(4), SubscriberStart::Spawn);
    assert!(subscriber.active());
    subscriber.spawned(Some(9));
    assert_eq!(subscriber.start(), SubscriberStart::Running);
    assert_eq!(subscriber.forward_raw_event(), Some(&4));
    assert_eq!(subscriber.stop(), Some(9));
    assert!(!subscriber.active());
    assert_eq!(subscriber.stop(), None);
    subscriber.clear_sender();
    assert_eq!(subscriber.forward_raw_event(), None);
    subscriber.set_sender(Some(5));
    assert_eq!(subscriber.start(), SubscriberStart::Spawn);
    subscriber.spawned(None);
    assert!(!subscriber.active());
    assert_eq!(subscriber.set_active(true), Err(SubscribeError::ActiveIsReadOnly));
}

#[test]
fn subscriber_errors() {
    assert_eq!(
        SubscribeError::NotAttached.message(),
        "MmapSubscriber 尚未绑定 EventEngine 队列；请先调用 EventEngine.attach_subscriber() 再启动"
    );
    assert_eq!(
        SubscribeError::ActiveIsReadOnly.message(),
        "active 为只读运行状态，请使用 start()/stop() 改变 MmapSubscriber 生命周期"
    );
    assert_eq!(SubscribeError::SpawnFailed { detail: text("x") }.message(), "启动订阅轮询线程失败: x");
}

#[test]
fn subscriber_ends_before_its_queue_goes() {
    let mut stop: SubscriberStop<&str> = SubscriberStop::begin(true);
    assert_eq!(stop.ask, StopAsk::Join);
    assert_eq!(stop.step(Some("join")), None);
    assert_eq!(stop.ask, StopAsk::ClearSender);
    assert_eq!(stop.step(Some("clear")), Some("clear"));
    assert_eq!(stop.ask, StopAsk::Done);
    assert_eq!(stop.errors.into_result(), Err("join"));
    let stop: SubscriberStop<&str> = SubscriberStop::begin(false);
    assert_eq!(stop.ask, StopAsk::ClearSender);
}

#[test]
fn shutdown_goes_through_every_part() {
    let parts = EngineParts { subscriber: true, publisher: true, timer: true, process: true };
    let mut shutdown: EngineShutdown<u8> = EngineShutdown::begin(parts);
    let mut asks = vec![];
    let mut logged = vec![];
    let mut n = 0;
    while shutdown.ask != ShutdownAsk::Done {
        asks.push(shutdown.ask);
        n += 1;
        if let Some(error) = shutdown.step(if n > 1 { Some(n) } else { None }) {
            logged.push(error);
        }
    }
    assert_eq!(
        asks,
        vec![
            ShutdownAsk::StopSubscriber,
            ShutdownAsk::ClosePublisher,
            ShutdownAsk::JoinTimer,
            ShutdownAsk::JoinProcess,
        ]
    );
    assert_eq!(logged, vec![3, 4]);
    assert_eq!(shutdown.errors.into_result(), Err(2));
    let parts = EngineParts { subscriber: false, publisher: true, timer: false, process: true };
    let mut shutdown: EngineShutdown<u8> = EngineShutdown::begin(parts);
    assert_eq!(shutdown.ask, ShutdownAsk::ClosePublisher);
    shutdown.step(None);
    assert_eq!(shutdown.ask, ShutdownAsk::JoinProcess);
}

#[test]
fn first_error_wins() {
    let mut errors = FirstError::new();
    assert_eq!(errors.record(None), None);
    assert_eq!(errors.record(Some(1)), None);
    assert_eq!(errors.record(Some(2)), Some(2));
    assert_eq!(errors.into_result(), Err(1));
}

#[test]
fn engine_needs_an_interval() {
    assert!(matches!(Engine::new(0), Err(EngineError::IntervalZero)));
    let engine = Engine::new(1).unwrap();
    assert_eq!(engine.interval, 1);
    assert!(!engine.active());
    assert_eq!(engine.channel(), "");
    assert_eq!(engine.set_active(true), Err(EngineError::ActiveIsReadOnly));
}

#[test]
fn engine_starts_and_stops_once() {
    let mut engine = Engine::new(1).unwrap();
    engine.set_channel(text("main"));
    engine.attach_publisher("pub");
    engine.attach_subscriber("sub");
    assert!(engine.start());
    assert!(!engine.start());
    engine.started(5, 1, 2);
    assert!(engine.is_loop_running(false));
    assert!(!engine.is_loop_running(true));
    assert!(engine.stop());
    assert!(!engine.stop());
    assert!(!engine.is_loop_running(false));
    let parts = engine.take_runtime_parts();
    assert_eq!(
        (parts.event_tx, parts.publisher, parts.process_thread, parts.timer_thread),
        (Some(5), Some("pub"), Some(1), Some(2))
    );
    assert_eq!((engine.publisher, engine.subscriber), (None, Some("sub")));
    assert_eq!(engine.channel(), "main");
    assert!(engine.start());
}

#[test]
fn stopped_engine_drops_events() {
    let mut engine = Engine::new(1).unwrap();
    assert_eq!(engine.event_to_queue_raw(), None);
    engine.start();
    assert_eq!(engine.event_to_queue_raw(), None);
    engine.started(5, 1, 2);
    assert_eq!(engine.event_to_queue_raw(), Some(&5));
    engine.stop();
    assert_eq!(engine.event_to_queue_raw(), None);
}

#[test]
fn attached_subscriber_gets_the_queue() {
    let mut engine = Engine::new(1).unwrap();
    engine.attach_subscriber("sub");
    assert!(matches!(engine.attached(), Attached::Waits));
    engine.start();
    engine.started(5, 1, 2);
    assert!(matches!(engine.attached(), Attached::Starts(&5)));
    engine.stop();
    assert!(matches!(engine.attached(), Attached::GetsQueue(&5)));
}

#[test]
fn ticks_go_over_the_bus() {
    let mut engine = Engine::new(1).unwrap();
    assert_eq!(engine.put(&text(EVENT_TICK)).ask, PutAsk::Queue);
    engine.attach_publisher("pub");
    assert_eq!(engine.put(&text(EVENT_TIMER)).ask, PutAsk::Queue);
    assert_eq!(engine.put(&text("eTick.x")).ask, PutAsk::Queue);
    let mut put = engine.put(&text(EVENT_TICK));
    assert_eq!(put.ask, PutAsk::Publish);
    assert_eq!(put.step(None), None);
    assert_eq!((put.ask, put.outcome), (PutAsk::Done, Some(PutOutcome::Done)));
}

#[test]
fn failure_to_publish_stops() {
    let mut engine = Engine::new(1).unwrap();
    engine.attach_publisher("pub");
    let mut put = engine.put(&text(EVENT_TICK));
    assert_eq!(
        put.step(Some("RuntimeError: 发布事件失败: x")),
        Some(text("[EventEngine] mmap publish 失败，不降级本地队列，停止事件引擎: RuntimeError: 发布事件失败: x"))
    );
    assert_eq!(put.ask, PutAsk::Stop);
    assert_eq!(put.step(None), None);
    assert_eq!((put.ask, put.outcome), (PutAsk::Done, Some(PutOutcome::PublishFailed)));

    let mut put = engine.put(&text(EVENT_TICK));
    assert_eq!(put.step(Some("RuntimeError: 共享内存发布器已关闭")), None);
    assert_eq!(put.ask, PutAsk::Stop);
    put.step(None);
    assert_eq!(put.outcome, Some(PutOutcome::Done));

    let mut put = engine.put(&text(EVENT_TICK));
    put.step(Some("共享内存发布通道已关闭"));
    put.step(Some("stop failed"));
    assert_eq!(put.outcome, Some(PutOutcome::StepFailed));

    let mut put = engine.put(&text(EVENT_TIMER));
    assert_eq!(put.step(Some("gone")), None);
    assert_eq!((put.ask, put.outcome), (PutAsk::Done, Some(PutOutcome::StepFailed)));
}

#[test]
fn engine_start_is_all_or_nothing() {
    let mut start = EngineStart::new();
    start.step(StartEvent::Succeeded);
    assert_eq!(start.ask, StartAsk::SpawnTimer);
    let mut timer = start;
    start.step(StartEvent::Succeeded);
    assert_eq!(start.ask, StartAsk::Record);
    let mut alone = start;
    alone.step(StartEvent::Recorded { subscriber: false });
    assert_eq!((alone.ask, alone.active, alone.failure), (StartAsk::Done, true, None));
    start.step(StartEvent::Recorded { subscriber: true });
    assert_eq!(start.ask, StartAsk::StartSubscriber);
    let mut good = start;
    good.step(StartEvent::Succeeded);
    assert_eq!((good.ask, good.active, good.failure), (StartAsk::Done, true, None));
    start.step(StartEvent::Failed);
    assert_eq!((start.ask, start.active), (StartAsk::ShutDown, false));
    start.step(StartEvent::Failed);
    assert_eq!((start.ask, start.failure), (StartAsk::Done, Some(StartFailure::Subscriber)));
    timer.step(StartEvent::Failed);
    assert_eq!((timer.ask, timer.active), (StartAsk::JoinProcess, false));
    timer.step(StartEvent::Succeeded);
    assert_eq!((timer.ask, timer.failure), (StartAsk::Done, Some(StartFailure::Timer)));
    let mut process = EngineStart::new();
    process.step(StartEvent::Failed);
    assert_eq!((process.ask, process.active, process.failure), (StartAsk::Done, false, Some(StartFailure::Process)));
}

#[test]
fn engine_errors() {
    let cases = [
        (EngineError::IntervalZero, "interval 必须大于 0 秒", ErrorKind::Value),
        (
            EngineError::ActiveIsReadOnly,
            "active 为只读运行状态，请使用 start()/stop() 改变 EventEngine 生命周期",
            ErrorKind::Runtime,
        ),
        (StartFailure::Process.into_error(text("x")), "启动事件处理线程失败: x", ErrorKind::Runtime),
        (StartFailure::Timer.into_error(text("x")), "启动定时器线程失败: x", ErrorKind::Runtime),
        (StartFailure::Subscriber.into_error(text("x")), "启动共享内存订阅者失败: x", ErrorKind::Runtime),
        (EngineError::QueueFailed { detail: text("x") }, "发送事件到本地队列失败: x", ErrorKind::Runtime),
        (EngineError::PublishFailed { detail: text("x") }, "共享内存发布失败，事件引擎已停止: x", ErrorKind::Runtime),
        (EngineError::ClockFailed { detail: text("x") }, "获取 datetime.now() 失败: x", ErrorKind::Runtime),
        (EngineError::EventFailed { detail: text("x") }, "构造 Event 失败: x", ErrorKind::Runtime),
        (EngineError::ThreadDied { name: text("EventTimer") }, "EventTimer 线程异常退出", ErrorKind::Runtime),
        (EngineError::NotCallable { name: text("handler") }, "handler 必须是可调用对象", ErrorKind::Type),
        (EngineError::NotAnEngine { detail: text("x") }, "event_engine 必须是 EventEngine 实例: x", ErrorKind::Type),
        (
            EngineError::LockFailed { context: text("读取 channel"), detail: text("x") },
            "读取 channel 失败: x",
            ErrorKind::Runtime,
        ),
    ];
    for (error, message, kind) in cases {
        assert_eq!(error.message(), message);
        assert_eq!(error.kind(), kind);
    }
    assert_eq!(ensure_callable(true, "handler"), Ok(()));
    assert_eq!(ensure_callable(false, "handler"), Err(EngineError::NotCallable { name: text("handler") }));
}

#[test]
fn process_thread_follows_the_running_state() {
    let mut process = ProcessLoop::new();
    assert_eq!(process.step(ProcessEvent::Received { active: true }), None);
    assert_eq!(process.ask, ProcessAsk::Decode);
    assert_eq!(process.step(ProcessEvent::Decoded { active: true }), Some(ProcessEffect::Dispatch));
    process.step(ProcessEvent::Received { active: true });
    assert_eq!(process.step(ProcessEvent::Decoded { active: false }), None);
    process.step(ProcessEvent::Received { active: true });
    assert_eq!(process.step(ProcessEvent::DecodeFailed), Some(ProcessEffect::LogDecodeFailed));
    assert_eq!(process.ask, ProcessAsk::Receive);
    let mut other = process;
    process.step(ProcessEvent::Received { active: false });
    assert_eq!(process.ask, ProcessAsk::Exit);
    other.step(ProcessEvent::Received { active: true });
    other.step(ProcessEvent::Detached);
    assert_eq!(other.ask, ProcessAsk::Exit);
    let mut gone = ProcessLoop::new();
    gone.step(ProcessEvent::Disconnected);
    assert_eq!(gone.ask, ProcessAsk::Exit);
    assert_eq!(decode_failed_message("x"), "[EventEngine] 反序列化事件失败: x");
}

#[test]
fn timer_sends_after_each_interval() {
    let mut timer = TimerLoop::new();
    assert!(!timer.step(TimerEvent::Checked { active: true }));
    assert_eq!(timer.ask, TimerAsk::Sleep);
    timer.step(TimerEvent::Slept);
    timer.step(TimerEvent::Checked { active: true });
    assert_eq!(timer.ask, TimerAsk::Build);
    let mut failing = timer;
    timer.step(TimerEvent::Built);
    assert_eq!(timer.ask, TimerAsk::Send);
    let mut unsent = timer;
    timer.step(TimerEvent::Sent);
    assert_eq!(timer.ask, TimerAsk::Check);
    timer.step(TimerEvent::Checked { active: false });
    assert_eq!(timer.ask, TimerAsk::Exit);
    unsent.step(TimerEvent::SendFailed);
    assert_eq!(unsent.ask, TimerAsk::Exit);
    let mut detached = failing;
    assert!(failing.step(TimerEvent::BuildFailed));
    assert_eq!(failing.ask, TimerAsk::Check);
    detached.step(TimerEvent::Detached);
    assert_eq!(detached.ask, TimerAsk::Exit);
    let mut stopped = TimerLoop::new();
    stopped.step(TimerEvent::Checked { active: true });
    stopped.step(TimerEvent::Slept);
    stopped.step(TimerEvent::Checked { active: false });
    assert_eq!(stopped.ask, TimerAsk::Exit);
    assert_eq!(build_failed_message("x"), "[EventEngine] 定时器事件构造失败: x");
}
