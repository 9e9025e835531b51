//! The tap-hold-next-release operator.
//!
//! When the trigger key is pressed, every following event is buffered. The
//! first of these settles the matter:
//! 1. the trigger is released before a key pressed after it is released: tap;
//! 2. a key pressed after the trigger is released while the trigger is held: hold;
//! 3. a key pressed before the trigger is released: still undecided, buffered;
//! 4. the timeout passes while undecided: hold, with `timeout_button` if set.
use vstd::prelude::*;
use std::collections::HashSet;
use std::time::Instant;
use crate::clock::{instant_nanos_since, instant_now, nanos_between};
use crate::config::TapHoldNextRelease;
use crate::event::{ActionView, DeviceId, Emit, Event, Key, KeyEvent, KeyValue, OperatorAction};

verus! {

broadcast use vstd::std_specs::hash::group_hash_axioms;

/// The configured operator for one trigger key, before the key is pressed.
#[derive(Debug)]
pub struct TapHoldNextReleaseOperator {
    tap: Vec<Key>,
    hold: Vec<Key>,
    timeout: u64,
    timeout_button: Option<Vec<Key>>,
}

/// The settings that a [`TapHoldNextReleaseOperator`] holds.
#[verifier::ext_equal]
pub struct OperatorView {
    pub tap: Seq<Key>,
    pub hold: Seq<Key>,
    /// Milliseconds.
    pub timeout: u64,
    pub timeout_button: Option<Seq<Key>>,
}

pub open spec fn opt_keys_view(keys: Option<Vec<Key>>) -> Option<Seq<Key>> {
    match keys {
        Some(v) => Some(v@),
        None => None,
    }
}

/// The settings of a configuration entry, as an operator holds them.
pub open spec fn config_view(config: TapHoldNextRelease) -> OperatorView {
    OperatorView {
        tap: config.tap@,
        hold: config.hold@,
        timeout: config.timeout,
        timeout_button: opt_keys_view(config.timeout_button),
    }
}

impl View for TapHoldNextReleaseOperator {
    type V = OperatorView;

    closed spec fn view(&self) -> OperatorView {
        OperatorView {
            tap: self.tap@,
            hold: self.hold@,
            timeout: self.timeout,
            timeout_button: opt_keys_view(self.timeout_button),
        }
    }
}

/// Where an active operator stands.
#[derive(Clone, Copy, Debug, PartialEq, Eq, Structural)]
pub enum State {
    /// Created; the trigger's own press has not been seen yet.
    New,
    /// The trigger is down and nothing is decided; events are buffered.
    Undecided,
    /// Decided as hold; the hold keys are down.
    Held,
    /// Finished.
    Done,
}

/// An operator whose trigger key has been pressed.
#[derive(Debug)]
pub struct ActiveTapHoldNextReleaseOperator {
    device: DeviceId,
    key: Key,
    tap: Vec<Key>,
    hold: Vec<Key>,
    timeout: u64,
    timeout_button: Option<Vec<Key>>,
    start_inst: Instant,
    buffered: Vec<Event>,
    pressed_after: HashSet<u16>,
    state: State,
    active_hold_keys: Vec<Key>,
}

/// What an active operator holds, but for the instant at which it started.
#[verifier::ext_equal]
pub struct ActiveView {
    pub device: DeviceId,
    pub key: Key,
    pub tap: Seq<Key>,
    pub hold: Seq<Key>,
    /// Milliseconds.
    pub timeout: u64,
    pub timeout_button: Option<Seq<Key>>,
    /// Events kept while undecided, oldest first.
    pub buffered: Seq<Event>,
    /// Codes of the keys pressed after the trigger, while undecided.
    pub pressed_after: Set<u16>,
    pub state: State,
    /// The keys pressed when the operator decided for hold.
    pub active_hold_keys: Seq<Key>,
}

impl View for ActiveTapHoldNextReleaseOperator {
    type V = ActiveView;

    closed spec fn view(&self) -> ActiveView {
        ActiveView {
            device: self.device,
            key: self.key,
            tap: self.tap@,
            hold: self.hold@,
            timeout: self.timeout,
            timeout_button: opt_keys_view(self.timeout_button),
            buffered: self.buffered@,
            pressed_after: self.pressed_after@,
            state: self.state,
            active_hold_keys: self.active_hold_keys@,
        }
    }
}

/// Presses of `keys`, in order.
pub open spec fn presses(device: DeviceId, keys: Seq<Key>) -> Seq<Emit> {
    Seq::new(keys.len(), |i: int| Emit::press(device, keys[i]))
}

/// Releases of `keys`, last key first.
pub open spec fn releases_reversed(device: DeviceId, keys: Seq<Key>) -> Seq<Emit> {
    Seq::new(keys.len(), |i: int| Emit::release(device, keys[keys.len() - 1 - i]))
}

/// Repeats of `keys`, in order.
pub open spec fn repeats(device: DeviceId, keys: Seq<Key>) -> Seq<Emit> {
    Seq::new(keys.len(), |i: int| Emit::repeat(device, keys[i]))
}

/// A tap of `keys`: each pressed in order, then released in reverse order.
pub open spec fn tap_emits(device: DeviceId, keys: Seq<Key>) -> Seq<Emit> {
    presses(device, keys) + releases_reversed(device, keys)
}

/// Whether `elapsed_ns` nanoseconds exceed a timeout of `timeout_ms` milliseconds.
pub open spec fn timed_out(elapsed_ns: u128, timeout_ms: u64) -> bool {
    elapsed_ns > timeout_ms * 1_000_000
}

impl ActiveView {
    /// The keys to hold when the timeout decides.
    pub open spec fn timeout_keys(self) -> Seq<Key> {
        match self.timeout_button {
            Some(keys) => keys,
            None => self.hold,
        }
    }

    /// The shape that every state of an active operator has.
    pub open spec fn wf(self) -> bool {
        &&& self.state is New ==> {
            &&& self.buffered.len() == 0
            &&& self.pressed_after == Set::<u16>::empty()
        }
        &&& (self.state is New || self.state is Undecided) ==> self.active_hold_keys.len() == 0
        &&& self.state is Held ==> {
            &&& self.buffered.len() == 0
            &&& (self.active_hold_keys == self.hold || self.active_hold_keys == self.timeout_keys())
        }
    }

    /// The step taken on a key press from `device`.
    pub open spec fn press_step(self, device: DeviceId, ev: KeyEvent) -> (ActiveView, ActionView) {
        match self.state {
            State::New => (ActiveView { state: State::Undecided, ..self }, ActionView::Undecided),
            State::Undecided => if ev.key == self.key {
                (self, ActionView::Undecided)
            } else {
                (ActiveView {
                    pressed_after: self.pressed_after.insert(ev.key.0),
                    buffered: self.buffered.push(Event::KeyEvent(device, ev)),
                    ..self
                }, ActionView::Undecided)
            },
            State::Held => if ev.key == self.key {
                (self, ActionView::Partial(Seq::empty(), Seq::empty()))
            } else {
                (self, ActionView::Unhandled)
            },
            State::Done => (self, ActionView::Unhandled),
        }
    }

    /// The step taken on a key release from `device`.
    pub open spec fn release_step(self, device: DeviceId, ev: KeyEvent) -> (ActiveView, ActionView) {
        match self.state {
            State::Undecided => if ev.key == self.key {
                (ActiveView { state: State::Done, buffered: Seq::empty(), ..self },
                 ActionView::Done(tap_emits(device, self.tap), self.buffered))
            } else if self.pressed_after.contains(ev.key.0) {
                (ActiveView {
                    state: State::Held,
                    active_hold_keys: self.hold,
                    buffered: Seq::empty(),
                    ..self
                }, ActionView::Partial(presses(device, self.hold), self.buffered.push(Event::KeyEvent(device, ev))))
            } else {
                (ActiveView { buffered: self.buffered.push(Event::KeyEvent(device, ev)), ..self },
                 ActionView::Undecided)
            },
            State::Held => if ev.key == self.key {
                (ActiveView { state: State::Done, ..self },
                 ActionView::Done(releases_reversed(device, self.active_hold_keys), Seq::empty()))
            } else {
                (self, ActionView::Unhandled)
            },
            _ => (self, ActionView::Unhandled),
        }
    }

    /// The step taken on a key repeat from `device`.
    pub open spec fn repeat_step(self, device: DeviceId, ev: KeyEvent) -> (ActiveView, ActionView) {
        match self.state {
            State::Undecided => if ev.key == self.key {
                (self, ActionView::Undecided)
            } else {
                (ActiveView { buffered: self.buffered.push(Event::KeyEvent(device, ev)), ..self },
                 ActionView::Undecided)
            },
            State::Held => if ev.key == self.key {
                (self, ActionView::Partial(repeats(device, self.active_hold_keys), Seq::empty()))
            } else {
                (self, ActionView::Unhandled)
            },
            _ => (self, ActionView::Unhandled),
        }
    }

    /// The step taken on a timer tick, `elapsed_ns` nanoseconds after the trigger was pressed.
    pub open spec fn tick_step(self, elapsed_ns: u128) -> (ActiveView, ActionView) {
        match self.state {
            State::Undecided => if !timed_out(elapsed_ns, self.timeout) {
                (self, ActionView::Undecided)
            } else {
                (ActiveView {
                    state: State::Held,
                    active_hold_keys: self.timeout_keys(),
                    buffered: Seq::empty(),
                    ..self
                }, ActionView::Partial(presses(self.device, self.timeout_keys()), self.buffered))
            },
            _ => (self, ActionView::Unhandled),
        }
    }

    /// The step taken on any other event.
    pub open spec fn other_step(self, event: Event) -> (ActiveView, ActionView) {
        match self.state {
            State::Undecided => (ActiveView { buffered: self.buffered.push(event), ..self }, ActionView::Undecided),
            _ => (self, ActionView::Unhandled),
        }
    }
}

/// A copy of `keys`.
fn copy_keys(keys: &Vec<Key>) -> (r: Vec<Key>)
    ensures
        r@ == keys@,
{
    let mut r: Vec<Key> = Vec::new();
    let mut i: usize = 0;
    while i < keys.len()
        invariant
            i <= keys.len(),
            r@ == keys@.subrange(0, i as int),
        decreases keys.len() - i,
    {
        r.push(keys[i]);
        i = i + 1;
        assert(r@ == keys@.subrange(0, i as int));
    }
    r
}

fn copy_opt_keys(keys: &Option<Vec<Key>>) -> (r: Option<Vec<Key>>)
    ensures
        opt_keys_view(r) == opt_keys_view(*keys),
{
    match keys {
        Some(v) => Some(copy_keys(v)),
        None => None,
    }
}

/// Presses of `keys`, in order.
fn press_all(device: DeviceId, keys: &Vec<Key>) -> (r: Vec<Emit>)
    ensures
        r@ == presses(device, keys@),
{
    let mut r: Vec<Emit> = Vec::new();
    let mut i: usize = 0;
    while i < keys.len()
        invariant
            i <= keys.len(),
            r@ == presses(device, keys@.subrange(0, i as int)),
        decreases keys.len() - i,
    {
        r.push(Emit::key_press(device, keys[i]));
        i = i + 1;
        assert(r@ =~= presses(device, keys@.subrange(0, i as int)));
    }
    assert(keys@.subrange(0, keys@.len() as int) =~= keys@);
    r
}

/// Repeats of `keys`, in order.
fn repeat_all(device: DeviceId, keys: &Vec<Key>) -> (r: Vec<Emit>)
    ensures
        r@ == repeats(device, keys@),
{
    let mut r: Vec<Emit> = Vec::new();
    let mut i: usize = 0;
    while i < keys.len()
        invariant
            i <= keys.len(),
            r@ == repeats(device, keys@.subrange(0, i as int)),
        decreases keys.len() - i,
    {
        r.push(Emit::key_repeat(device, keys[i]));
        i = i + 1;
        assert(r@ =~= repeats(device, keys@.subrange(0, i as int)));
    }
    assert(keys@.subrange(0, keys@.len() as int) =~= keys@);
    r
}

/// Appends releases of `keys`, last key first.
fn push_releases_reversed(emit: &mut Vec<Emit>, device: DeviceId, keys: &Vec<Key>)
    ensures
        final(emit)@ == old(emit)@ + releases_reversed(device, keys@),
{
    let ghost start = emit@;
    let n = keys.len();
    let mut i: usize = n;
    while i > 0
        invariant
            i <= n,
            n == keys@.len(),
            emit@ == start + releases_reversed(device, keys@).subrange(0, (n - i) as int),
        decreases i,
    {
        i = i - 1;
        emit.push(Emit::key_release(device, keys[i]));
        assert(emit@ =~= start + releases_reversed(device, keys@).subrange(0, (n - i) as int));
    }
    assert(releases_reversed(device, keys@).subrange(0, n as int) =~= releases_reversed(device, keys@));
}

/// Takes the buffered events out, leaving the buffer empty.
fn take_events(buffered: &mut Vec<Event>) -> (r: Vec<Event>)
    ensures
        r@ == old(buffered)@,
        final(buffered)@ == Seq::<Event>::empty(),
{
    let mut r: Vec<Event> = Vec::new();
    std::mem::swap(&mut r, buffered);
    r
}

impl TapHoldNextReleaseOperator {
    /// The timeout, in milliseconds.
    pub fn timeout(&self) -> (ms: u64)
        ensures
            ms == self@.timeout,
    {
        self.timeout
    }

    /// The operators that a tap-hold-next-release entry installs: one, on `key`.
    pub fn get_ops(key: Key, config: &TapHoldNextRelease) -> (ops: Vec<(Key, TapHoldNextReleaseOperator)>)
        ensures
            ops@.len() == 1,
            ops@[0].0 == key,
            ops@[0].1@ == config_view(*config),
    {
        let op = TapHoldNextReleaseOperator {
            tap: copy_keys(&config.tap),
            hold: copy_keys(&config.hold),
            timeout: config.timeout,
            timeout_button: copy_opt_keys(&config.timeout_button),
        };
        let mut ops: Vec<(Key, TapHoldNextReleaseOperator)> = Vec::new();
        ops.push((key, op));
        ops
    }

    /// Activates the operator on the press of its trigger key, which `event` is.
    /// The operator starts its clock now.
    pub fn get_active_operator(&self, event: &Event) -> (active: ActiveTapHoldNextReleaseOperator)
        requires
            event is KeyEvent,
        ensures
            active@ == (ActiveView {
                device: event->KeyEvent_0,
                key: event->KeyEvent_1.key,
                tap: self@.tap,
                hold: self@.hold,
                timeout: self@.timeout,
                timeout_button: self@.timeout_button,
                buffered: Seq::empty(),
                pressed_after: Set::empty(),
                state: State::New,
                active_hold_keys: Seq::empty(),
            }),
            active@.wf(),
    {
        let (device, key) = match event {
            Event::KeyEvent(device, key_event) => (*device, key_event.key),
            // Excluded by the precondition: only a key event activates the operator.
            _ => (DeviceId(0), Key(0)),
        };
        let active = ActiveTapHoldNextReleaseOperator {
            device,
            key,
            tap: copy_keys(&self.tap),
            hold: copy_keys(&self.hold),
            timeout: self.timeout,
            timeout_button: copy_opt_keys(&self.timeout_button),
            start_inst: instant_now(),
            buffered: Vec::new(),
            pressed_after: HashSet::new(),
            state: State::New,
            active_hold_keys: Vec::new(),
        };
        assert(active@.buffered =~= Seq::<Event>::empty());
        assert(active@.active_hold_keys =~= Seq::<Key>::empty());
        active
    }
}

impl ActiveTapHoldNextReleaseOperator {
    /// The instant at which the operator started its clock: the activation
    /// by its trigger's press. The timeout runs from it.
    pub closed spec fn started(&self) -> Instant {
        self.start_inst
    }

    /// Where the operator stands.
    pub fn state(&self) -> (s: State)
        ensures
            s == self@.state,
    {
        self.state
    }

    /// A press of `key_event.key` from `device`.
    pub fn on_press(&mut self, device: DeviceId, key_event: &KeyEvent) -> (action: OperatorAction)
        requires
            old(self)@.wf(),
            !(old(self)@.state is Done),
        ensures
            (final(self)@, action@) == old(self)@.press_step(device, *key_event),
            final(self)@.wf(),
            final(self).started() == old(self).started(),
    {
        match self.state {
            State::New => {
                self.state = State::Undecided;
                OperatorAction::Undecided
            },
            State::Undecided => {
                if key_event.key == self.key {
                    // A spurious press of the trigger while undecided is dropped.
                    OperatorAction::Undecided
                } else {
                    self.pressed_after.insert(key_event.key.0);
                    self.buffered.push(Event::KeyEvent(device, *key_event));
                    OperatorAction::Undecided
                }
            },
            State::Held => {
                if key_event.key == self.key {
                    // A spurious press of the trigger while held is dropped.
                    OperatorAction::Partial(Vec::new(), Vec::new())
                } else {
                    OperatorAction::Unhandled
                }
            },
            State::Done => OperatorAction::Unhandled,
        }
    }

    /// A release of `key_event.key` from `device`.
    pub fn on_release(&mut self, device: DeviceId, key_event: &KeyEvent) -> (action: OperatorAction)
        requires
            old(self)@.wf(),
            old(self)@.state is Undecided || old(self)@.state is Held,
        ensures
            (final(self)@, action@) == old(self)@.release_step(device, *key_event),
            final(self)@.wf(),
            final(self).started() == old(self).started(),
    {
        match self.state {
            State::Undecided => {
                if key_event.key == self.key {
                    // The trigger is released before any key pressed after it: tap.
                    self.state = State::Done;
                    let mut emit = press_all(device, &self.tap);
                    push_releases_reversed(&mut emit, device, &self.tap);
                    let unhandled = take_events(&mut self.buffered);
                    OperatorAction::Done(emit, unhandled)
                } else if self.pressed_after.contains(&key_event.key.0) {
                    // A key pressed after the trigger is released first: hold.
                    self.state = State::Held;
                    self.active_hold_keys = copy_keys(&self.hold);
                    let emit = press_all(device, &self.hold);
                    self.buffered.push(Event::KeyEvent(device, *key_event));
                    let unhandled = take_events(&mut self.buffered);
                    OperatorAction::Partial(emit, unhandled)
                } else {
                    // A key pressed before the trigger: still undecided.
                    self.buffered.push(Event::KeyEvent(device, *key_event));
                    OperatorAction::Undecided
                }
            },
            State::Held => {
                if key_event.key == self.key {
                    // The trigger is released: release the held keys.
                    self.state = State::Done;
                    let mut emit: Vec<Emit> = Vec::new();
                    push_releases_reversed(&mut emit, device, &self.active_hold_keys);
                    assert(emit@ =~= releases_reversed(device, self.active_hold_keys@));
                    OperatorAction::Done(emit, Vec::new())
                } else {
                    OperatorAction::Unhandled
                }
            },
            _ => OperatorAction::Unhandled,
        }
    }

    /// A repeat of `key_event.key` from `device`.
    pub fn on_repeat(&mut self, device: DeviceId, key_event: &KeyEvent) -> (action: OperatorAction)
        requires
            old(self)@.wf(),
            old(self)@.state is Undecided || old(self)@.state is Held,
        ensures
            (final(self)@, action@) == old(self)@.repeat_step(device, *key_event),
            final(self)@.wf(),
            final(self).started() == old(self).started(),
    {
        match self.state {
            State::Undecided => {
                if key_event.key == self.key {
                    OperatorAction::Undecided
                } else {
                    self.buffered.push(Event::KeyEvent(device, *key_event));
                    OperatorAction::Undecided
                }
            },
            State::Held => {
                if key_event.key == self.key {
                    let emit = repeat_all(device, &self.active_hold_keys);
                    OperatorAction::Partial(emit, Vec::new())
                } else {
                    OperatorAction::Unhandled
                }
            },
            _ => OperatorAction::Unhandled,
        }
    }

    /// A timer tick, `elapsed_ns` nanoseconds after the trigger was pressed.
    pub fn on_tick_after(&mut self, elapsed_ns: u128) -> (action: OperatorAction)
        requires
            old(self)@.wf(),
            old(self)@.state is Undecided || old(self)@.state is Held,
        ensures
            (final(self)@, action@) == old(self)@.tick_step(elapsed_ns),
            final(self)@.wf(),
            final(self).started() == old(self).started(),
    {
        match self.state {
            State::Undecided => {
                let timeout_ns: u128 = (self.timeout as u128) * 1_000_000u128;
                if elapsed_ns <= timeout_ns {
                    OperatorAction::Undecided
                } else {
                    // The timeout passed while undecided: hold.
                    self.state = State::Held;
                    let hold_keys = match &self.timeout_button {
                        Some(keys) => copy_keys(keys),
                        None => copy_keys(&self.hold),
                    };
                    let emit = press_all(self.device, &hold_keys);
                    self.active_hold_keys = hold_keys;
                    let unhandled = take_events(&mut self.buffered);
                    OperatorAction::Partial(emit, unhandled)
                }
            },
            _ => OperatorAction::Unhandled,
        }
    }

    /// A timer tick: reads the clock and takes the step for the time elapsed
    /// since the operator started, at its trigger's press.
    pub fn on_tick(&mut self) -> (action: OperatorAction)
        requires
            old(self)@.wf(),
            old(self)@.state is Undecided || old(self)@.state is Held,
        ensures
            exists|now: Instant|
                (final(self)@, action@) == old(self)@.tick_step(nanos_between(old(self).started(), now)),
            final(self)@.wf(),
            final(self).started() == old(self).started(),
    {
        let now = instant_now();
        let elapsed_ns = instant_nanos_since(&now, &self.start_inst);
        self.on_tick_after(elapsed_ns)
    }

    /// Any other event.
    pub fn on_other(&mut self, event: &Event) -> (action: OperatorAction)
        requires
            old(self)@.wf(),
            old(self)@.state is Undecided || old(self)@.state is Held,
        ensures
            (final(self)@, action@) == old(self)@.other_step(*event),
            final(self)@.wf(),
            final(self).started() == old(self).started(),
    {
        match self.state {
            State::Undecided => {
                self.buffered.push(*event);
                OperatorAction::Undecided
            },
            _ => OperatorAction::Unhandled,
        }
    }
}

} // verus!
