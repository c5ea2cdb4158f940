//! Handing an event to its handlers: first those for its type, then those for every event.
use vstd::prelude::*;

use crate::names;

verus! {

/// What dispatching an event puts into the log.
#[derive(Debug, Clone, Copy, PartialEq, Eq)]
pub enum DispatchNotice {
    /// The type of the event is empty.
    EmptyType,
    /// The event has no type.
    TypeFailed,
    /// A handler for the type of the event failed.
    HandlerRaised,
    /// A handler for the type of the event is over, and no longer registered.
    HandlerEnded,
    /// A handler for every event failed.
    GeneralRaised,
    /// A handler for every event is over, and no longer registered.
    GeneralEnded,
}

impl DispatchNotice {
    /// The text of the notice.  `type_` is the type of the event, `detail` the error behind it,
    /// if there is one.
    pub open spec fn text(self, type_: Seq<char>, detail: Seq<char>) -> Seq<char> {
        match self {
            DispatchNotice::EmptyType => {
                "[EventEngine] handler 跳过空事件类型"@
            },
            DispatchNotice::TypeFailed => {
                "[EventEngine] 提取事件类型失败: "@ + detail
            },
            DispatchNotice::HandlerRaised => {
                "[EventEngine] handler 异常 type="@ + type_ + ": "@ + detail
            },
            DispatchNotice::HandlerEnded => {
                "[EventEngine] handler 生命周期已结束，已自动注销 type="@ + type_ + ": "@ + detail
            },
            DispatchNotice::GeneralRaised => {
                "[EventEngine] general_handler 异常: "@ + detail
            },
            DispatchNotice::GeneralEnded => {
                "[EventEngine] general_handler 生命周期已结束，已自动注销: "@ + detail
            },
        }
    }

    /// The notice, as users see it.
    pub fn message(&self, type_: &str, detail: &str) -> (message: String)
        ensures
            message@ == self.text(type_@, detail@),
    {
        match self {
            DispatchNotice::EmptyType => {
                String::from_str("[EventEngine] handler 跳过空事件类型")
            },
            DispatchNotice::TypeFailed => {
                let mut out = String::from_str("[EventEngine] 提取事件类型失败: ");
                out.append(detail);
                out
            },
            DispatchNotice::HandlerRaised => {
                let mut out = String::from_str("[EventEngine] handler 异常 type=");
                out.append(type_);
                out.append(": ");
                out.append(detail);
                out
            },
            DispatchNotice::HandlerEnded => {
                let mut out = String::from_str("[EventEngine] handler 生命周期已结束，已自动注销 type=");
                out.append(type_);
                out.append(": ");
                out.append(detail);
                out
            },
            DispatchNotice::GeneralRaised => {
                let mut out = String::from_str("[EventEngine] general_handler 异常: ");
                out.append(detail);
                out
            },
            DispatchNotice::GeneralEnded => {
                let mut out = String::from_str("[EventEngine] general_handler 生命周期已结束，已自动注销: ");
                out.append(detail);
                out
            },
        }
    }
}

/// What dispatching an event comes to next.
#[derive(Debug, Clone, Copy, PartialEq, Eq)]
pub enum DispatchAsk {
    /// Take down which handlers the type has now.
    TakeSpecific,
    /// Call this one of them.
    CallSpecific { index: usize },
    /// Take down which handlers there are now for every event.
    TakeGeneral,
    /// Call this one of them.
    CallGeneral { index: usize },
    Done,
}

/// What came of it.
#[derive(Debug, PartialEq, Eq)]
pub enum DispatchEvent {
    /// There are so many handlers.
    Taken { count: usize },
    /// The handler returned.
    Returned,
    /// The handler failed.
    Raised { error: String },
}

/// What is to be done about it.
#[derive(Debug, Clone, Copy, PartialEq, Eq)]
pub struct DispatchEffect {
    /// Whether the handler that was called no longer stays registered.
    pub retire: bool,
    /// What goes into the log.
    pub notice: Option<DispatchNotice>,
}

/// The course of dispatching an event.
#[derive(Debug, Clone, Copy, PartialEq, Eq)]
pub struct Dispatch {
    pub ask: DispatchAsk,
    /// How many handlers were taken down.
    pub count: usize,
}

/// What is to be done about a handler that was called.
pub open spec fn effect_of(event: DispatchEvent, raised: DispatchNotice, ended: DispatchNotice) -> DispatchEffect {
    match event {
        DispatchEvent::Raised { error } => if names::tells_handler_ended(error@) {
            DispatchEffect { retire: true, notice: Some(ended) }
        } else {
            DispatchEffect { retire: false, notice: Some(raised) }
        },
        _ => DispatchEffect { retire: false, notice: None },
    }
}

/// What is to be done about a handler that was called.
fn judge(event: &DispatchEvent, raised: DispatchNotice, ended: DispatchNotice) -> (effect: DispatchEffect)
    ensures
        effect == effect_of(*event, raised, ended),
{
    match event {
        DispatchEvent::Raised { error } => if names::is_handler_lifecycle_error(error.as_str()) {
            DispatchEffect { retire: true, notice: Some(ended) }
        } else {
            DispatchEffect { retire: false, notice: Some(raised) }
        },
        _ => DispatchEffect { retire: false, notice: None },
    }
}

impl Dispatch {
    /// Starts dispatching an event of a type.  An event whose type is empty, or that has none,
    /// goes to no handler.
    pub fn dispatch_event_isolated(type_: Option<&str>) -> (start: Result<Dispatch, DispatchNotice>)
        ensures
            start == (match type_ {
                None => Err::<Dispatch, DispatchNotice>(DispatchNotice::TypeFailed),
                Some(text) => if text@.len() == 0 {
                    Err(DispatchNotice::EmptyType)
                } else {
                    Ok(Dispatch { ask: DispatchAsk::TakeSpecific, count: 0 })
                },
            }),
    {
        match type_ {
            None => Err(DispatchNotice::TypeFailed),
            Some(text) => if text.unicode_len() == 0 {
                Err(DispatchNotice::EmptyType)
            } else {
                Ok(Dispatch { ask: DispatchAsk::TakeSpecific, count: 0 })
            },
        }
    }

    /// The handler for the type of the event that comes at `index`, or what follows the last.
    pub open spec fn specific_at(index: int, count: usize) -> DispatchAsk {
        if index < count {
            DispatchAsk::CallSpecific { index: index as usize }
        } else {
            DispatchAsk::TakeGeneral
        }
    }

    /// The handler for every event that comes at `index`, or what follows the last.
    pub open spec fn general_at(index: int, count: usize) -> DispatchAsk {
        if index < count {
            DispatchAsk::CallGeneral { index: index as usize }
        } else {
            DispatchAsk::Done
        }
    }

    /// What follows an outcome.  A handler that fails holds up no other.
    pub open spec fn next(self, event: DispatchEvent) -> (Dispatch, DispatchEffect) {
        let nothing = DispatchEffect { retire: false, notice: None };
        match (self.ask, event) {
            (DispatchAsk::TakeSpecific, DispatchEvent::Taken { count }) => (
                Dispatch { ask: Self::specific_at(0, count), count },
                nothing,
            ),
            (DispatchAsk::TakeGeneral, DispatchEvent::Taken { count }) => (
                Dispatch { ask: Self::general_at(0, count), count },
                nothing,
            ),
            (DispatchAsk::CallSpecific { index }, DispatchEvent::Returned)
            | (DispatchAsk::CallSpecific { index }, DispatchEvent::Raised { .. }) => (
                Dispatch { ask: Self::specific_at(index + 1, self.count), ..self },
                effect_of(event, DispatchNotice::HandlerRaised, DispatchNotice::HandlerEnded),
            ),
            (DispatchAsk::CallGeneral { index }, DispatchEvent::Returned)
            | (DispatchAsk::CallGeneral { index }, DispatchEvent::Raised { .. }) => (
                Dispatch { ask: Self::general_at(index + 1, self.count), ..self },
                effect_of(event, DispatchNotice::GeneralRaised, DispatchNotice::GeneralEnded),
            ),
            _ => (self, nothing),
        }
    }

    /// Takes what came of what was asked for, and says what to do about it.
    pub fn step(&mut self, event: &DispatchEvent) -> (effect: DispatchEffect)
        ensures
            (*final(self), effect) == old(self).next(*event),
    {
        let nothing = DispatchEffect { retire: false, notice: None };
        match (self.ask, event) {
            (DispatchAsk::TakeSpecific, DispatchEvent::Taken { count }) => {
                self.count = *count;
                self.ask = if *count > 0 {
                    DispatchAsk::CallSpecific { index: 0 }
                } else {
                    DispatchAsk::TakeGeneral
                };
                nothing
            },
            (DispatchAsk::TakeGeneral, DispatchEvent::Taken { count }) => {
                self.count = *count;
                self.ask = if *count > 0 {
                    DispatchAsk::CallGeneral { index: 0 }
                } else {
                    DispatchAsk::Done
                };
                nothing
            },
            (DispatchAsk::CallSpecific { index }, DispatchEvent::Returned)
            | (DispatchAsk::CallSpecific { index }, DispatchEvent::Raised { .. }) => {
                self.ask = if index < self.count && self.count - index > 1 {
                    DispatchAsk::CallSpecific { index: index + 1 }
                } else {
                    DispatchAsk::TakeGeneral
                };
                judge(event, DispatchNotice::HandlerRaised, DispatchNotice::HandlerEnded)
            },
            (DispatchAsk::CallGeneral { index }, DispatchEvent::Returned)
            | (DispatchAsk::CallGeneral { index }, DispatchEvent::Raised { .. }) => {
                self.ask = if index < self.count && self.count - index > 1 {
                    DispatchAsk::CallGeneral { index: index + 1 }
                } else {
                    DispatchAsk::Done
                };
                judge(event, DispatchNotice::GeneralRaised, DispatchNotice::GeneralEnded)
            },
            _ => nothing,
        }
    }

    /// The dispatch after all of these outcomes.
    pub open spec fn run(self, events: Seq<DispatchEvent>) -> Dispatch
        decreases events.len(),
    {
        if events.len() == 0 {
            self
        } else {
            self.run(events.drop_last()).next(events.last()).0
        }
    }
}

/// What dispatching an event comes to at step `k`, where `specific` handlers are there for its
/// type and `general` ones for every event.
pub open spec fn ask_at(specific: usize, general: usize, k: int) -> DispatchAsk {
    if k == 0 {
        DispatchAsk::TakeSpecific
    } else if k <= specific {
        DispatchAsk::CallSpecific { index: (k - 1) as usize }
    } else if k == specific + 1 {
        DispatchAsk::TakeGeneral
    } else if k <= specific + 1 + general {
        DispatchAsk::CallGeneral { index: (k - specific - 2) as usize }
    } else {
        DispatchAsk::Done
    }
}

/// Whether these are outcomes of steps 0, 1, ..: the counts where handlers are taken down, and
/// a return or any failure where one is called.
pub open spec fn outcomes(specific: usize, general: usize, events: Seq<DispatchEvent>) -> bool {
    forall|k: int|
        0 <= k < events.len() ==> match ask_at(specific, general, k) {
            DispatchAsk::TakeSpecific => events[k] == (DispatchEvent::Taken { count: specific }),
            DispatchAsk::TakeGeneral => events[k] == (DispatchEvent::Taken { count: general }),
            DispatchAsk::Done => true,
            _ => #[trigger] events[k] !is Taken,
        }
}

/// Law: whichever handlers fail and however, each handler for the type of the event is called
/// once, in order, and after them each handler for every event.
pub proof fn every_handler_is_called(specific: usize, general: usize, events: Seq<DispatchEvent>)
    requires
        outcomes(specific, general, events),
    ensures
        (Dispatch { ask: DispatchAsk::TakeSpecific, count: 0 }).run(events).ask == ask_at(
            specific,
            general,
            events.len() as int,
        ),
{
    lemma_run(specific, general, events);
}

proof fn lemma_run(specific: usize, general: usize, events: Seq<DispatchEvent>)
    requires
        outcomes(specific, general, events),
    ensures
        (Dispatch { ask: DispatchAsk::TakeSpecific, count: 0 }).run(events) == (Dispatch {
            ask: ask_at(specific, general, events.len() as int),
            count: if events.len() == 0 {
                0
            } else if events.len() <= specific + 1 {
                specific
            } else {
                general
            },
        }),
    decreases events.len(),
{
    if events.len() > 0 {
        let k = events.len() - 1;
        let before = events.drop_last();
        assert(outcomes(specific, general, before)) by {
            assert forall|i: int| 0 <= i < before.len() implies #[trigger] before[i] == events[i] by {}
        }
        lemma_run(specific, general, before);
        assert(events.last() == events[k]);
    }
}

/// Law: a handler is retired only when its failure says that it is over, and every failure
/// goes into the log.
pub proof fn failures_are_logged(dispatch: Dispatch, error: String)
    requires
        dispatch.ask is CallSpecific || dispatch.ask is CallGeneral,
    ensures
        dispatch.next(DispatchEvent::Raised { error }).1.notice is Some,
        dispatch.next(DispatchEvent::Raised { error }).1.retire == names::tells_handler_ended(error@),
        dispatch.next(DispatchEvent::Returned).1 == (DispatchEffect { retire: false, notice: None }),
{
}

/// Law: what the log gets says who failed and how, and a handler that did not fail is neither
/// logged nor retired.
pub proof fn notices_tell_who_failed(dispatch: Dispatch, error: String, count: usize)
    ensures
        ({
            let effect = dispatch.next(DispatchEvent::Raised { error }).1;
            let ended = names::tells_handler_ended(error@);
            &&& dispatch.ask is CallSpecific ==> effect == (DispatchEffect {
                retire: ended,
                notice: Some(
                    if ended {
                        DispatchNotice::HandlerEnded
                    } else {
                        DispatchNotice::HandlerRaised
                    },
                ),
            })
            &&& dispatch.ask is CallGeneral ==> effect == (DispatchEffect {
                retire: ended,
                notice: Some(
                    if ended {
                        DispatchNotice::GeneralEnded
                    } else {
                        DispatchNotice::GeneralRaised
                    },
                ),
            })
        }),
        dispatch.next(DispatchEvent::Returned).1 == (DispatchEffect { retire: false, notice: None }),
        dispatch.next(DispatchEvent::Taken { count }).1 == (DispatchEffect { retire: false, notice: None }),
{
}

/// Law: how a call ends makes no difference to what is called next.
pub proof fn failures_hold_up_nobody(dispatch: Dispatch, error: String)
    ensures
        dispatch.next(DispatchEvent::Raised { error }).0 == dispatch.next(DispatchEvent::Returned).0,
{
}

/// Law: dispatching ends: it takes one step for each handler and one for each list, and is then
/// done; and each handler that is called is one of those that were taken down.
pub proof fn dispatching_ends(specific: usize, general: usize, events: Seq<DispatchEvent>)
    requires
        outcomes(specific, general, events),
    ensures
        ({
            let d = (Dispatch { ask: DispatchAsk::TakeSpecific, count: 0 }).run(events);
            &&& d.ask == DispatchAsk::Done <==> events.len() >= specific + general + 2
            &&& d.ask matches DispatchAsk::CallSpecific { index } ==> index < specific && index == events.len() - 1
            &&& d.ask matches DispatchAsk::CallGeneral { index } ==> index < general && index == events.len() - 2
                - specific
        }),
{
    lemma_run(specific, general, events);
}

} // verus!
