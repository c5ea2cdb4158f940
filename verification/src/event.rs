//! Events, and how the type of an event is found.
use vstd::prelude::*;

verus! {

/// The type of the events that the timer makes.
pub const EVENT_TIMER: &'static str = "eTimer.";

/// The type of the events that go out over the bus.
pub const EVENT_TICK: &'static str = "eTick.";

/// An event: a type, and any data.
#[derive(Debug)]
pub struct Event<D> {
    pub type_: String,
    pub data: D,
}

impl<D> Event<D> {
    /// The state of an event: all there is to it.
    pub open spec fn state(self) -> (Seq<char>, D) {
        (self.type_@, self.data)
    }

    /// An event of these parts.
    pub fn new_owned(type_: String, data: D) -> (event: Event<D>)
        ensures
            event == (Event { type_, data }),
    {
        Event { type_, data }
    }

    /// An event; `none` stands in for data that is not given.
    pub fn new(type_: &str, data: Option<D>, none: D) -> (event: Event<D>)
        ensures
            event.type_@ == type_@,
            event.data == (match data {
                Some(data) => data,
                None => none,
            }),
    {
        let type_ = type_.to_owned();
        match data {
            Some(data) => Self::new_owned(type_, data),
            None => Self::new_owned(type_, none),
        }
    }

    /// The type.
    pub fn type_(&self) -> (type_: &str)
        ensures
            type_@ == self.type_@,
    {
        self.type_.as_str()
    }

    /// Sets the type.
    pub fn set_type_(&mut self, value: String)
        ensures
            *final(self) == (Event { type_: value, data: old(self).data }),
    {
        self.type_ = value;
    }

    /// The data.
    pub fn data(&self) -> (data: &D)
        ensures
            *data == self.data,
    {
        &self.data
    }

    /// Sets the data.
    pub fn set_data(&mut self, value: D)
        ensures
            *final(self) == (Event { type_: old(self).type_, data: value }),
    {
        self.data = value;
    }

    /// The state of the event, for serialization.
    pub fn __getstate__(&self) -> (state: (String, &D))
        ensures
            (state.0@, *state.1) == self.state(),
    {
        (self.type_.clone(), &self.data)
    }

    /// Restores the state of an event: that of the event that it was taken from.
    pub fn __setstate__(&mut self, state: (String, D))
        ensures
            final(self).state() == (state.0@, state.1),
    {
        self.type_ = state.0;
        self.data = state.1;
    }

    /// The event in words.
    pub fn __repr__(&self) -> (repr: String)
        ensures
            repr@ == "Event(type_='"@ + self.type_@ + "')"@,
    {
        let mut out = String::from_str("Event(type_='");
        out.append(self.type_.as_str());
        out.append("')");
        out
    }
}

/// Why an event has no type.
#[derive(Debug, PartialEq, Eq)]
pub enum EventTypeError {
    /// The attribute `type_` is no text.
    Attribute { detail: String },
    /// The item `type_` is no text.
    Item { detail: String },
    /// There is neither.
    Missing,
}

impl EventTypeError {
    /// The text of the message.
    pub open spec fn text(self) -> Seq<char> {
        match self {
            EventTypeError::Attribute { detail } => {
                "事件属性 type_ 类型错误: "@ + detail@
            },
            EventTypeError::Item { detail } => {
                "事件键 type_ 类型错误: "@ + detail@
            },
            EventTypeError::Missing => {
                "事件对象必须提供 type_ 属性或 type_ 键"@
            },
        }
    }

    /// The message, as users see it.
    pub fn message(&self) -> (message: String)
        ensures
            message@ == self.text(),
    {
        match self {
            EventTypeError::Attribute { detail } => {
                let mut out = String::from_str("事件属性 type_ 类型错误: ");
                out.append(detail.as_str());
                out
            },
            EventTypeError::Item { detail } => {
                let mut out = String::from_str("事件键 type_ 类型错误: ");
                out.append(detail.as_str());
                out
            },
            EventTypeError::Missing => {
                String::from_str("事件对象必须提供 type_ 属性或 type_ 键")
            },
        }
    }
}

/// What was found where the type of an event may stand: nothing, a text, or something else.
#[derive(Debug)]
pub enum Found {
    Nothing,
    Text(String),
    Other { detail: String },
}

/// The type of an event: its attribute `type_`, or else its item `type_`.
pub fn extract_type(attribute: Found, item: Found) -> (type_: Result<String, EventTypeError>)
    ensures
        type_ == (match attribute {
            Found::Text(text) => Ok::<String, EventTypeError>(text),
            Found::Other { detail } => Err(EventTypeError::Attribute { detail }),
            Found::Nothing => match item {
                Found::Text(text) => Ok(text),
                Found::Other { detail } => Err(EventTypeError::Item { detail }),
                Found::Nothing => Err(EventTypeError::Missing),
            },
        }),
{
    match attribute {
        Found::Text(text) => Ok(text),
        Found::Other { detail } => Err(EventTypeError::Attribute { detail }),
        Found::Nothing => match item {
            Found::Text(text) => Ok(text),
            Found::Other { detail } => Err(EventTypeError::Item { detail }),
            Found::Nothing => Err(EventTypeError::Missing),
        },
    }
}

} // verus!
