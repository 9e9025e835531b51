//! Keys, input events and the actions that an operator answers with.
use vstd::prelude::*;

verus! {

/// A key, by its Linux input event code.
#[derive(Clone, Copy, Debug, PartialEq, Eq, Hash, Structural)]
pub struct Key(pub u16);

impl Key {
    /// The numeric event code of the key.
    pub fn code(self) -> (c: u16)
        ensures
            c == self.0,
    {
        self.0
    }
}

/// What happened to a key: the value of an input event of type key.
#[derive(Clone, Copy, Debug, PartialEq, Eq, Hash, Structural)]
pub enum KeyValue {
    Release,
    Press,
    Repeat,
}

/// The device that an event came from, by an identifier of the caller's choice.
#[derive(Clone, Copy, Debug, PartialEq, Eq, Hash, Structural)]
pub struct DeviceId(pub u32);

/// A key event: a key and what happened to it.
#[derive(Clone, Copy, Debug, PartialEq, Eq, Hash, Structural)]
pub struct KeyEvent {
    pub key: Key,
    pub value: KeyValue,
}

impl KeyEvent {
    pub fn new(key: Key, value: KeyValue) -> (e: KeyEvent)
        ensures
            e.key == key,
            e.value == value,
    {
        KeyEvent { key, value }
    }
}

/// An input event that is not a key event, kept as its raw type, code and value.
#[derive(Clone, Copy, Debug, PartialEq, Eq, Hash, Structural)]
pub struct InputEvent {
    pub event_type: u16,
    pub code: u16,
    pub value: i32,
}

/// An event that reaches an operator.
#[derive(Clone, Copy, Debug, PartialEq, Eq, Hash, Structural)]
pub enum Event {
    /// A key event from a device.
    KeyEvent(DeviceId, KeyEvent),
    /// Any other input event from a device.
    Input(DeviceId, InputEvent),
    /// A timer tick.
    Tick,
}

impl Event {
    pub fn key_press(device: DeviceId, key: Key) -> (e: Event)
        ensures
            e == Event::KeyEvent(device, KeyEvent { key, value: KeyValue::Press }),
    {
        Event::KeyEvent(device, KeyEvent { key, value: KeyValue::Press })
    }

    pub fn key_release(device: DeviceId, key: Key) -> (e: Event)
        ensures
            e == Event::KeyEvent(device, KeyEvent { key, value: KeyValue::Release }),
    {
        Event::KeyEvent(device, KeyEvent { key, value: KeyValue::Release })
    }

    pub fn key_repeat(device: DeviceId, key: Key) -> (e: Event)
        ensures
            e == Event::KeyEvent(device, KeyEvent { key, value: KeyValue::Repeat }),
    {
        Event::KeyEvent(device, KeyEvent { key, value: KeyValue::Repeat })
    }
}

/// A key event that an operator asks to be sent out.
#[derive(Clone, Copy, Debug, PartialEq, Eq, Hash, Structural)]
pub struct Emit {
    pub device: DeviceId,
    pub key: Key,
    pub value: KeyValue,
}

impl Emit {
    pub open spec fn press(device: DeviceId, key: Key) -> Emit {
        Emit { device, key, value: KeyValue::Press }
    }

    pub open spec fn release(device: DeviceId, key: Key) -> Emit {
        Emit { device, key, value: KeyValue::Release }
    }

    pub open spec fn repeat(device: DeviceId, key: Key) -> Emit {
        Emit { device, key, value: KeyValue::Repeat }
    }

    pub fn key_press(device: DeviceId, key: Key) -> (e: Emit)
        ensures
            e == Emit::press(device, key),
    {
        Emit { device, key, value: KeyValue::Press }
    }

    pub fn key_release(device: DeviceId, key: Key) -> (e: Emit)
        ensures
            e == Emit::release(device, key),
    {
        Emit { device, key, value: KeyValue::Release }
    }

    pub fn key_repeat(device: DeviceId, key: Key) -> (e: Emit)
        ensures
            e == Emit::repeat(device, key),
    {
        Emit { device, key, value: KeyValue::Repeat }
    }
}

/// An operator's answer to one event.
#[derive(Debug)]
pub enum OperatorAction {
    /// Nothing is decided yet; the event was kept or dropped.
    Undecided,
    /// Emit these key events, then hand these events on; the operator stays active.
    Partial(Vec<Emit>, Vec<Event>),
    /// Emit these key events, then hand these events on; the operator is finished.
    Done(Vec<Emit>, Vec<Event>),
    /// The operator does not handle the event: it passes on unchanged.
    Unhandled,
}

/// The mathematical value of an [`OperatorAction`].
#[verifier::ext_equal]
pub enum ActionView {
    Undecided,
    Partial(Seq<Emit>, Seq<Event>),
    Done(Seq<Emit>, Seq<Event>),
    Unhandled,
}

impl View for OperatorAction {
    type V = ActionView;

    open spec fn view(&self) -> ActionView {
        match self {
            OperatorAction::Undecided => ActionView::Undecided,
            OperatorAction::Partial(e, u) => ActionView::Partial(e@, u@),
            OperatorAction::Done(e, u) => ActionView::Done(e@, u@),
            OperatorAction::Unhandled => ActionView::Unhandled,
        }
    }
}

} // verus!
