use rust_event_engine::dispatch::{Dispatch, DispatchAsk, DispatchEffect, DispatchEvent, DispatchNotice};
use rust_event_engine::handlers::{is_same_handler, HandlerList, HandlerMap};

const NOTHING: DispatchEffect = DispatchEffect { retire: false, notice: None };

fn tick() -> String {
    "eTick.".to_string()
}

fn same(items: Option<&Vec<u32>>, one: u32) -> Vec<bool> {
    items.map(|items| items.iter().map(|item| *item == one).collect()).unwrap_or_default()
}

fn register(map: &mut HandlerMap<u32>, type_: &str, handler: u32) {
    let type_ = type_.to_string();
    let found = same(map.handlers(&type_), handler);
    assert_eq!(map.register(type_, handler, true, &found), Ok(()));
}

fn unregister(map: &mut HandlerMap<u32>, type_: &str, handler: u32) {
    let type_ = type_.to_string();
    let found = same(map.handlers(&type_), handler);
    map.unregister(&type_, &found);
}

#[test]
fn handlers_are_same_by_identity_or_equality() {
    assert!(is_same_handler(true, None));
    assert!(is_same_handler(true, Some(false)));
    assert!(is_same_handler(false, Some(true)));
    assert!(!is_same_handler(false, Some(false)));
    assert!(!is_same_handler(false, None));
}

#[test]
fn handler_is_registered_once_per_type() {
    let mut map = HandlerMap::new();
    register(&mut map, "eTick.", 1);
    register(&mut map, "eTick.", 2);
    register(&mut map, "eTick.", 1);
    register(&mut map, "eLog", 1);
    assert_eq!(map.handlers(&tick()), Some(&vec![1, 2]));
    assert_eq!(map.handlers(&"eLog".to_string()), Some(&vec![1]));
    assert_eq!(map.handlers(&"eOther".to_string()), None);
}

#[test]
fn unregistering_keeps_the_order_of_the_others() {
    let mut map = HandlerMap::new();
    for handler in [1, 2, 3] {
        register(&mut map, "eTick.", handler);
    }
    unregister(&mut map, "eTick.", 2);
    assert_eq!(map.handlers(&tick()), Some(&vec![1, 3]));
    unregister(&mut map, "eTick.", 9);
    assert_eq!(map.handlers(&tick()), Some(&vec![1, 3]));
    unregister(&mut map, "eLog", 1);
    unregister(&mut map, "eTick.", 1);
    unregister(&mut map, "eTick.", 3);
    assert_eq!(map.handlers(&tick()), None);
}

#[test]
fn type_without_handlers_goes_and_others_stay() {
    let mut map = HandlerMap::new();
    for type_ in ["a", "b", "c"] {
        register(&mut map, type_, 1);
    }
    unregister(&mut map, "b", 1);
    assert_eq!(map.handlers(&"a".to_string()), Some(&vec![1]));
    assert_eq!(map.handlers(&"b".to_string()), None);
    assert_eq!(map.handlers(&"c".to_string()), Some(&vec![1]));
    register(&mut map, "b", 2);
    assert_eq!(map.handlers(&"b".to_string()), Some(&vec![2]));
}

#[test]
fn short_verdicts_leave_the_rest() {
    let mut map = HandlerMap::new();
    register(&mut map, "eTick.", 1);
    register(&mut map, "eTick.", 2);
    map.unregister(&tick(), &vec![true]);
    assert_eq!(map.handlers(&tick()), Some(&vec![2]));
    assert_eq!(map.register("eNew".to_string(), 5, true, &vec![true]), Ok(()));
    assert_eq!(map.handlers(&"eNew".to_string()), Some(&vec![5]));
}

#[test]
fn general_handlers() {
    let mut list: HandlerList<u32> = HandlerList::new();
    for handler in [1, 2, 1, 3] {
        let found = same(Some(list.handlers()), handler);
        assert_eq!(list.register(handler, true, &found), Ok(()));
    }
    assert_eq!(list.handlers(), &vec![1, 2, 3]);
    list.unregister(&vec![true, false, true]);
    assert_eq!(list.handlers(), &vec![2]);
}

#[test]
fn what_cannot_be_called_is_not_registered() {
    let mut map = HandlerMap::new();
    register(&mut map, "eTick.", 1);
    let error = map.register(tick(), 2, false, &vec![false]).unwrap_err();
    assert_eq!(error.message(), "handler 必须是可调用对象");
    assert_eq!(map.handlers(&tick()), Some(&vec![1]));
    assert!(map.register("eNew".to_string(), 2, false, &vec![]).is_err());
    assert_eq!(map.handlers(&"eNew".to_string()), None);
    let mut list: HandlerList<u32> = HandlerList::new();
    let error = list.register(2, false, &vec![]).unwrap_err();
    assert_eq!(error.message(), "general_handler 必须是可调用对象");
    assert_eq!(list.handlers(), &Vec::<u32>::new());
}

#[test]
fn events_without_a_type_go_nowhere() {
    assert_eq!(Dispatch::dispatch_event_isolated(None), Err(DispatchNotice::TypeFailed));
    assert_eq!(Dispatch::dispatch_event_isolated(Some("")), Err(DispatchNotice::EmptyType));
}

#[test]
fn every_handler_is_called_whatever_fails() {
    let mut dispatch = Dispatch::dispatch_event_isolated(Some("eTick.")).unwrap();
    let mut asks = vec![];
    let mut effects = vec![];
    while dispatch.ask != DispatchAsk::Done {
        asks.push(dispatch.ask);
        let event = match dispatch.ask {
            DispatchAsk::TakeSpecific => DispatchEvent::Taken { count: 3 },
            DispatchAsk::TakeGeneral => DispatchEvent::Taken { count: 2 },
            DispatchAsk::CallSpecific { index: 1 } => {
                DispatchEvent::Raised { error: "RuntimeError: Event loop is closed".to_string() }
            }
            DispatchAsk::CallGeneral { index: 1 } | DispatchAsk::CallSpecific { index: 2 } => {
                DispatchEvent::Raised { error: "ValueError: x".to_string() }
            }
            _ => DispatchEvent::Returned,
        };
        effects.push(dispatch.step(&event));
    }
    assert_eq!(
        asks,
        vec![
            DispatchAsk::TakeSpecific,
            DispatchAsk::CallSpecific { index: 0 },
            DispatchAsk::CallSpecific { index: 1 },
            DispatchAsk::CallSpecific { index: 2 },
            DispatchAsk::TakeGeneral,
            DispatchAsk::CallGeneral { index: 0 },
            DispatchAsk::CallGeneral { index: 1 },
        ]
    );
    assert_eq!(
        effects,
        vec![
            NOTHING,
            NOTHING,
            DispatchEffect { retire: true, notice: Some(DispatchNotice::HandlerEnded) },
            DispatchEffect { retire: false, notice: Some(DispatchNotice::HandlerRaised) },
            NOTHING,
            NOTHING,
            DispatchEffect { retire: false, notice: Some(DispatchNotice::GeneralRaised) },
        ]
    );
}

#[test]
fn event_without_handlers_is_done() {
    let mut dispatch = Dispatch::dispatch_event_isolated(Some("x")).unwrap();
    dispatch.step(&DispatchEvent::Taken { count: 0 });
    assert_eq!(dispatch.ask, DispatchAsk::TakeGeneral);
    dispatch.step(&DispatchEvent::Taken { count: 0 });
    assert_eq!(dispatch.ask, DispatchAsk::Done);
}

#[test]
fn ended_general_handler_is_retired() {
    let mut dispatch = Dispatch::dispatch_event_isolated(Some("x")).unwrap();
    dispatch.step(&DispatchEvent::Taken { count: 0 });
    dispatch.step(&DispatchEvent::Taken { count: 1 });
    let error = "cannot schedule new futures after shutdown".to_string();
    assert_eq!(
        dispatch.step(&DispatchEvent::Raised { error }),
        DispatchEffect { retire: true, notice: Some(DispatchNotice::GeneralEnded) }
    );
}

#[test]
fn dispatch_notices() {
    let cases = [
        (DispatchNotice::EmptyType, "[EventEngine] handler 跳过空事件类型"),
        (DispatchNotice::TypeFailed, "[EventEngine] 提取事件类型失败: x"),
        (DispatchNotice::HandlerRaised, "[EventEngine] handler 异常 type=eTick.: x"),
        (DispatchNotice::HandlerEnded, "[EventEngine] handler 生命周期已结束，已自动注销 type=eTick.: x"),
        (DispatchNotice::GeneralRaised, "[EventEngine] general_handler 异常: x"),
        (DispatchNotice::GeneralEnded, "[EventEngine] general_handler 生命周期已结束，已自动注销: x"),
    ];
    for (notice, message) in cases {
        assert_eq!(notice.message("eTick.", "x"), message);
    }
}
