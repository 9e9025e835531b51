use evdev::KeyCode;
use xremap_tap_hold::config::{deserialize_tap_hold_next_release, ExpmapOperator, TapHoldNextRelease};
use xremap_tap_hold::event::{DeviceId, Emit, Event, Key, KeyEvent, KeyValue, OperatorAction};
use xremap_tap_hold::operator::{ActiveTapHoldNextReleaseOperator, TapHoldNextReleaseOperator};

const DEVICE: DeviceId = DeviceId(0);
/// The timeout of the configurations below, in milliseconds.
const TIMEOUT_MS: u64 = 20;

fn key(code: KeyCode) -> Key {
    Key(code.code())
}

fn press(code: KeyCode) -> Event {
    Event::key_press(DEVICE, key(code))
}

fn release(code: KeyCode) -> Event {
    Event::key_release(DEVICE, key(code))
}

fn repeat(code: KeyCode) -> Event {
    Event::key_repeat(DEVICE, key(code))
}

fn config(tap: &[KeyCode], hold: &[KeyCode], timeout_button: Option<&[KeyCode]>) -> TapHoldNextRelease {
    TapHoldNextRelease {
        tap: tap.iter().map(|k| key(*k)).collect(),
        hold: hold.iter().map(|k| key(*k)).collect(),
        timeout: TIMEOUT_MS,
        timeout_button: timeout_button.map(|keys| keys.iter().map(|k| key(*k)).collect()),
    }
}

/// Routes events through one tap-hold-next-release operator on one trigger
/// key, as the event handler of a remapper does: events that no operator
/// takes pass through, and what an operator hands back is routed again.
/// The clock is simulated: every routed event takes one microsecond.
struct Handler {
    trigger: Key,
    operator: TapHoldNextReleaseOperator,
    active: Option<ActiveTapHoldNextReleaseOperator>,
    now_ns: u128,
    started_ns: u128,
}

impl Handler {
    fn new(trigger: KeyCode, config: &TapHoldNextRelease) -> Handler {
        let mut ops = TapHoldNextReleaseOperator::get_ops(key(trigger), config);
        assert_eq!(ops.len(), 1);
        let (trigger, operator) = ops.pop().unwrap();
        Handler { trigger, operator, active: None, now_ns: 0, started_ns: 0 }
    }

    fn sleep_ms(&mut self, ms: u64) {
        self.now_ns += ms as u128 * 1_000_000;
    }

    fn map_evs(&mut self, events: Vec<Event>) -> Vec<Event> {
        let mut out = vec![];
        for event in events {
            self.route(event, &mut out);
        }
        out
    }

    fn route(&mut self, event: Event, out: &mut Vec<Event>) {
        self.now_ns += 1_000;
        let action = match self.active.as_mut() {
            Some(active) => match event {
                Event::KeyEvent(device, key_event) => match key_event.value {
                    KeyValue::Press => active.on_press(device, &key_event),
                    KeyValue::Release => active.on_release(device, &key_event),
                    KeyValue::Repeat => active.on_repeat(device, &key_event),
                },
                Event::Tick => active.on_tick_after(self.now_ns - self.started_ns),
                Event::Input(..) => active.on_other(&event),
            },
            None => match event {
                Event::KeyEvent(device, key_event)
                    if key_event.key == self.trigger && key_event.value == KeyValue::Press =>
                {
                    let mut active = self.operator.get_active_operator(&event);
                    self.started_ns = self.now_ns;
                    let action = active.on_press(device, &key_event);
                    self.active = Some(active);
                    action
                }
                _ => OperatorAction::Unhandled,
            },
        };
        match action {
            OperatorAction::Undecided => {}
            OperatorAction::Unhandled => {
                if event != Event::Tick {
                    out.push(event);
                }
            }
            OperatorAction::Partial(emit, unhandled) => {
                self.emit(emit, out);
                for e in unhandled {
                    self.route(e, out);
                }
            }
            OperatorAction::Done(emit, unhandled) => {
                self.active = None;
                self.emit(emit, out);
                for e in unhandled {
                    self.route(e, out);
                }
            }
        }
    }

    fn emit(&self, emit: Vec<Emit>, out: &mut Vec<Event>) {
        for e in emit {
            out.push(Event::KeyEvent(e.device, KeyEvent::new(e.key, e.value)));
        }
    }

    fn assert_base_state(&self) {
        assert!(self.active.is_none());
    }
}

fn get_handler() -> Handler {
    Handler::new(
        KeyCode::KEY_CAPSLOCK,
        &config(&[KeyCode::KEY_ESC], &[KeyCode::KEY_LEFTCTRL], None),
    )
}

fn assert_events(actual: Vec<Event>, expected: Vec<Event>) {
    assert_eq!(actual, expected);
}

#[test]
fn test_tap_hold_next_release_alone_tap() {
    let mut handler = get_handler();

    assert_events(handler.map_evs(vec![press(KeyCode::KEY_CAPSLOCK)]), vec![]);
    assert_events(
        handler.map_evs(vec![release(KeyCode::KEY_CAPSLOCK)]),
        vec![press(KeyCode::KEY_ESC), release(KeyCode::KEY_ESC)],
    );

    handler.assert_base_state();
}

#[test]
fn test_tap_hold_next_release_sequential_tap() {
    let mut handler = get_handler();

    // Tap Capslock -> Esc
    assert_events(handler.map_evs(vec![press(KeyCode::KEY_CAPSLOCK)]), vec![]);
    assert_events(
        handler.map_evs(vec![release(KeyCode::KEY_CAPSLOCK)]),
        vec![press(KeyCode::KEY_ESC), release(KeyCode::KEY_ESC)],
    );

    // Tap A -> A
    assert_events(handler.map_evs(vec![press(KeyCode::KEY_A)]), vec![press(KeyCode::KEY_A)]);
    assert_events(handler.map_evs(vec![release(KeyCode::KEY_A)]), vec![release(KeyCode::KEY_A)]);

    handler.assert_base_state();
}

#[test]
fn test_tap_hold_next_release_roll_released_first() {
    // Typing roll: Pesc Pa Resc Ra -> xa
    let mut handler = get_handler();

    assert_events(handler.map_evs(vec![press(KeyCode::KEY_CAPSLOCK)]), vec![]);
    assert_events(handler.map_evs(vec![press(KeyCode::KEY_A)]), vec![]);

    // Capslock released before A was released -> resolves to TAP!
    assert_events(
        handler.map_evs(vec![release(KeyCode::KEY_CAPSLOCK)]),
        vec![press(KeyCode::KEY_ESC), release(KeyCode::KEY_ESC), press(KeyCode::KEY_A)],
    );

    assert_events(handler.map_evs(vec![release(KeyCode::KEY_A)]), vec![release(KeyCode::KEY_A)]);

    handler.assert_base_state();
}

#[test]
fn test_tap_hold_next_release_pre_pressed_release() {
    // Pa Pesc Ra Resc -> ax
    let mut handler = get_handler();

    assert_events(handler.map_evs(vec![press(KeyCode::KEY_A)]), vec![press(KeyCode::KEY_A)]);

    // Press Capslock while A is already down
    assert_events(handler.map_evs(vec![press(KeyCode::KEY_CAPSLOCK)]), vec![]);

    // Release A. Since A was pressed BEFORE Capslock, it does NOT trigger hold!
    assert_events(handler.map_evs(vec![release(KeyCode::KEY_A)]), vec![]);

    // Release Capslock -> TAP!
    assert_events(
        handler.map_evs(vec![release(KeyCode::KEY_CAPSLOCK)]),
        vec![press(KeyCode::KEY_ESC), release(KeyCode::KEY_ESC), release(KeyCode::KEY_A)],
    );

    handler.assert_base_state();
}

#[test]
fn test_tap_hold_next_release_modifier_hold() {
    // Pesc Ta Resc -> A (shifted/ctrl'd)
    let mut handler = get_handler();

    assert_events(handler.map_evs(vec![press(KeyCode::KEY_CAPSLOCK)]), vec![]);
    assert_events(handler.map_evs(vec![press(KeyCode::KEY_A)]), vec![]);

    // Release A while Capslock is held -> triggers HOLD!
    assert_events(
        handler.map_evs(vec![release(KeyCode::KEY_A)]),
        vec![press(KeyCode::KEY_LEFTCTRL), press(KeyCode::KEY_A), release(KeyCode::KEY_A)],
    );

    // Release Capslock -> releases LeftCtrl
    assert_events(
        handler.map_evs(vec![release(KeyCode::KEY_CAPSLOCK)]),
        vec![release(KeyCode::KEY_LEFTCTRL)],
    );

    handler.assert_base_state();
}

#[test]
fn test_tap_hold_next_release_timeout_without_other_keys() {
    let mut handler = get_handler();

    assert_events(handler.map_evs(vec![press(KeyCode::KEY_CAPSLOCK)]), vec![]);
    assert_events(handler.map_evs(vec![Event::Tick]), vec![]);

    handler.sleep_ms(TIMEOUT_MS);

    // Timeout elapsed -> switches to HOLD!
    assert_events(handler.map_evs(vec![Event::Tick]), vec![press(KeyCode::KEY_LEFTCTRL)]);

    // Subsequent press passes through while held
    assert_events(handler.map_evs(vec![press(KeyCode::KEY_A)]), vec![press(KeyCode::KEY_A)]);
    assert_events(handler.map_evs(vec![release(KeyCode::KEY_A)]), vec![release(KeyCode::KEY_A)]);

    // Release Capslock -> releases LeftCtrl
    assert_events(
        handler.map_evs(vec![release(KeyCode::KEY_CAPSLOCK)]),
        vec![release(KeyCode::KEY_LEFTCTRL)],
    );

    handler.assert_base_state();
}

#[test]
fn test_tap_hold_next_release_timeout_with_buffered_key() {
    let mut handler = get_handler();

    assert_events(handler.map_evs(vec![press(KeyCode::KEY_CAPSLOCK)]), vec![]);
    assert_events(handler.map_evs(vec![press(KeyCode::KEY_A)]), vec![]);

    handler.sleep_ms(TIMEOUT_MS);

    // Timeout elapsed while A is buffered -> emits LeftCtrl press then A press
    assert_events(
        handler.map_evs(vec![Event::Tick]),
        vec![press(KeyCode::KEY_LEFTCTRL), press(KeyCode::KEY_A)],
    );

    assert_events(handler.map_evs(vec![release(KeyCode::KEY_A)]), vec![release(KeyCode::KEY_A)]);

    assert_events(
        handler.map_evs(vec![release(KeyCode::KEY_CAPSLOCK)]),
        vec![release(KeyCode::KEY_LEFTCTRL)],
    );

    handler.assert_base_state();
}

#[test]
fn test_tap_hold_next_release_timeout_button() {
    let mut handler = Handler::new(
        KeyCode::KEY_CAPSLOCK,
        &config(&[KeyCode::KEY_X], &[KeyCode::KEY_LEFTSHIFT], Some(&[KeyCode::KEY_X])),
    );

    assert_events(handler.map_evs(vec![press(KeyCode::KEY_CAPSLOCK)]), vec![]);

    handler.sleep_ms(TIMEOUT_MS);

    // Timeout elapsed -> emits timeout_button (x) instead of hold (leftshift)
    assert_events(handler.map_evs(vec![Event::Tick]), vec![press(KeyCode::KEY_X)]);

    // Repeat while held repeats the timeout_button
    assert_events(handler.map_evs(vec![repeat(KeyCode::KEY_CAPSLOCK)]), vec![repeat(KeyCode::KEY_X)]);

    assert_events(handler.map_evs(vec![release(KeyCode::KEY_CAPSLOCK)]), vec![release(KeyCode::KEY_X)]);

    handler.assert_base_state();
}

#[test]
fn test_tap_hold_next_release_kebab_case() {
    let entry = config(&[KeyCode::KEY_ESC], &[KeyCode::KEY_LEFTCTRL], None);
    let parsed = deserialize_tap_hold_next_release(vec![("tap-hold-next-release".to_string(), entry)]).unwrap();
    let mut handler = Handler::new(KeyCode::KEY_CAPSLOCK, &parsed);

    assert_events(handler.map_evs(vec![press(KeyCode::KEY_CAPSLOCK)]), vec![]);
    assert_events(
        handler.map_evs(vec![release(KeyCode::KEY_CAPSLOCK)]),
        vec![press(KeyCode::KEY_ESC), release(KeyCode::KEY_ESC)],
    );

    handler.assert_base_state();
}

#[test]
fn test_tap_hold_next_release_multiple_keys() {
    let mut handler = Handler::new(
        KeyCode::KEY_CAPSLOCK,
        &config(
            &[KeyCode::KEY_LEFTCTRL, KeyCode::KEY_C],
            &[KeyCode::KEY_LEFTSHIFT, KeyCode::KEY_LEFTALT],
            None,
        ),
    );

    // Tap emits sequential press and reverse release
    assert_events(handler.map_evs(vec![press(KeyCode::KEY_CAPSLOCK)]), vec![]);
    assert_events(
        handler.map_evs(vec![release(KeyCode::KEY_CAPSLOCK)]),
        vec![
            press(KeyCode::KEY_LEFTCTRL),
            press(KeyCode::KEY_C),
            release(KeyCode::KEY_C),
            release(KeyCode::KEY_LEFTCTRL),
        ],
    );

    // Hold emits both modifiers, releases in reverse
    assert_events(handler.map_evs(vec![press(KeyCode::KEY_CAPSLOCK)]), vec![]);
    assert_events(handler.map_evs(vec![press(KeyCode::KEY_A)]), vec![]);
    assert_events(
        handler.map_evs(vec![release(KeyCode::KEY_A)]),
        vec![
            press(KeyCode::KEY_LEFTSHIFT),
            press(KeyCode::KEY_LEFTALT),
            press(KeyCode::KEY_A),
            release(KeyCode::KEY_A),
        ],
    );
    assert_events(
        handler.map_evs(vec![release(KeyCode::KEY_CAPSLOCK)]),
        vec![release(KeyCode::KEY_LEFTALT), release(KeyCode::KEY_LEFTSHIFT)],
    );

    handler.assert_base_state();
}

#[test]
fn test_tap_hold_next_release_repeats() {
    let mut handler = get_handler();

    // Repeat while undecided is suppressed
    assert_events(handler.map_evs(vec![press(KeyCode::KEY_CAPSLOCK)]), vec![]);
    assert_events(handler.map_evs(vec![repeat(KeyCode::KEY_CAPSLOCK)]), vec![]);

    // Release -> Esc tap
    assert_events(
        handler.map_evs(vec![release(KeyCode::KEY_CAPSLOCK)]),
        vec![press(KeyCode::KEY_ESC), release(KeyCode::KEY_ESC)],
    );

    // Repeat while held
    assert_events(handler.map_evs(vec![press(KeyCode::KEY_CAPSLOCK)]), vec![]);
    assert_events(handler.map_evs(vec![press(KeyCode::KEY_A)]), vec![]);
    assert_events(
        handler.map_evs(vec![release(KeyCode::KEY_A)]),
        vec![press(KeyCode::KEY_LEFTCTRL), press(KeyCode::KEY_A), release(KeyCode::KEY_A)],
    );
    assert_events(
        handler.map_evs(vec![repeat(KeyCode::KEY_CAPSLOCK)]),
        vec![repeat(KeyCode::KEY_LEFTCTRL)],
    );
    assert_events(
        handler.map_evs(vec![release(KeyCode::KEY_CAPSLOCK)]),
        vec![release(KeyCode::KEY_LEFTCTRL)],
    );

    handler.assert_base_state();
}

#[test]
fn test_tap_hold_next_release_select() {
    let select = ExpmapOperator::Select(vec![ExpmapOperator::TapHoldNextRelease(config(
        &[KeyCode::KEY_ESC],
        &[KeyCode::KEY_LEFTCTRL],
        None,
    ))]);
    let chosen = match select {
        ExpmapOperator::Select(mut candidates) => match candidates.remove(0) {
            ExpmapOperator::TapHoldNextRelease(config) => config,
            other => panic!("unexpected operator {:?}", other),
        },
        other => panic!("unexpected operator {:?}", other),
    };
    let mut handler = Handler::new(KeyCode::KEY_CAPSLOCK, &chosen);

    assert_events(handler.map_evs(vec![press(KeyCode::KEY_CAPSLOCK)]), vec![]);
    assert_events(
        handler.map_evs(vec![release(KeyCode::KEY_CAPSLOCK)]),
        vec![press(KeyCode::KEY_ESC), release(KeyCode::KEY_ESC)],
    );

    handler.assert_base_state();
}

#[test]
fn test_tap_hold_next_release_integration_actions() {
    let mut handler = Handler::new(
        KeyCode::KEY_CAPSLOCK,
        &config(&[KeyCode::KEY_ESC], &[KeyCode::KEY_LEFTSHIFT], None),
    );
    let actions: Vec<KeyEvent> = handler
        .map_evs(vec![
            press(KeyCode::KEY_CAPSLOCK),
            press(KeyCode::KEY_A),
            release(KeyCode::KEY_A),
            release(KeyCode::KEY_CAPSLOCK),
        ])
        .into_iter()
        .map(|e| match e {
            Event::KeyEvent(_, key_event) => key_event,
            other => panic!("unexpected event {:?}", other),
        })
        .collect();
    assert_eq!(
        actions,
        vec![
            KeyEvent::new(key(KeyCode::KEY_LEFTSHIFT), KeyValue::Press),
            KeyEvent::new(key(KeyCode::KEY_A), KeyValue::Press),
            KeyEvent::new(key(KeyCode::KEY_A), KeyValue::Release),
            KeyEvent::new(key(KeyCode::KEY_LEFTSHIFT), KeyValue::Release),
        ],
    );
}
