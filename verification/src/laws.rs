//! What holds of the operator over whole runs of events.
use vstd::prelude::*;
use crate::event::{ActionView, DeviceId, Emit, Event, Key, KeyEvent, KeyValue};
use crate::operator::{ActiveView, State, timed_out};

verus! {

/// One event as it reaches an active operator, with the method that takes it.
pub enum Input {
    Press(DeviceId, KeyEvent),
    Release(DeviceId, KeyEvent),
    Repeat(DeviceId, KeyEvent),
    /// A tick, with the nanoseconds elapsed since the trigger was pressed.
    Tick(u128),
    Other(Event),
}

/// The step that the operator in `s` takes on `input`.
pub open spec fn step(s: ActiveView, input: Input) -> (ActiveView, ActionView) {
    match input {
        Input::Press(d, ev) => s.press_step(d, ev),
        Input::Release(d, ev) => s.release_step(d, ev),
        Input::Repeat(d, ev) => s.repeat_step(d, ev),
        Input::Tick(e) => s.tick_step(e),
        Input::Other(e) => s.other_step(e),
    }
}

/// The state after `inputs`, and the actions answered, one per input.
pub open spec fn run(s: ActiveView, inputs: Seq<Input>) -> (ActiveView, Seq<ActionView>)
    decreases inputs.len(),
{
    if inputs.len() == 0 {
        (s, Seq::empty())
    } else {
        let (s1, acts) = run(s, inputs.drop_last());
        let (s2, a) = step(s1, inputs.last());
        (s2, acts.push(a))
    }
}

/// The events of `input` that must reach the rest of the system once the
/// operator on `trigger` has decided: everything but the trigger's own
/// presses, repeats and release, and ticks.
pub open spec fn kept(trigger: Key, input: Input) -> Seq<Event> {
    match input {
        Input::Press(d, ev) => if ev.key == trigger { Seq::empty() } else { seq![Event::KeyEvent(d, ev)] },
        Input::Release(d, ev) => if ev.key == trigger { Seq::empty() } else { seq![Event::KeyEvent(d, ev)] },
        Input::Repeat(d, ev) => if ev.key == trigger { Seq::empty() } else { seq![Event::KeyEvent(d, ev)] },
        Input::Tick(_) => Seq::empty(),
        Input::Other(e) => seq![e],
    }
}

/// The events of all `inputs` that must reach the rest of the system, in order.
pub open spec fn kept_all(trigger: Key, inputs: Seq<Input>) -> Seq<Event>
    decreases inputs.len(),
{
    if inputs.len() == 0 {
        Seq::empty()
    } else {
        kept_all(trigger, inputs.drop_last()) + kept(trigger, inputs.last())
    }
}

/// The events that an action hands back.
pub open spec fn handed_back(a: ActionView) -> Seq<Event> {
    match a {
        ActionView::Partial(_, u) => u,
        ActionView::Done(_, u) => u,
        _ => Seq::empty(),
    }
}

/// Whether `input` is a release of the trigger key `trigger`.
pub open spec fn is_trigger_release(trigger: Key, input: Input) -> bool {
    input matches Input::Release(_, ev) && ev.key == trigger
}

/// Whether `e` is a press of the key with code `code`.
pub open spec fn is_press_of(e: Event, code: u16) -> bool {
    e matches Event::KeyEvent(_, ev) && ev.key.0 == code && ev.value == KeyValue::Press
}

/// Whether a press of the key with code `code` is among `buffered`.
pub open spec fn buffers_press_of(buffered: Seq<Event>, code: u16) -> bool {
    exists|i: int| 0 <= i < buffered.len() && is_press_of(#[trigger] buffered[i], code)
}

/// While undecided, the keys recorded as pressed after the trigger are
/// exactly those whose press is buffered.
pub open spec fn records_presses(s: ActiveView) -> bool {
    (s.state is New || s.state is Undecided) ==> forall|c: u16|
        #[trigger] s.pressed_after.contains(c) <==> buffers_press_of(s.buffered, c)
}

/// Whether each input reaches the method of its own kind of event.
pub open spec fn dispatched(input: Input) -> bool {
    match input {
        Input::Press(_, ev) => ev.value == KeyValue::Press,
        Input::Release(_, ev) => ev.value == KeyValue::Release,
        Input::Repeat(_, ev) => ev.value == KeyValue::Repeat,
        Input::Tick(_) => true,
        Input::Other(e) => !(e is KeyEvent),
    }
}

/// The keys of a sequence of emitted key events.
pub open spec fn emit_keys(emits: Seq<Emit>) -> Seq<Key> {
    emits.map_values(|e: Emit| e.key)
}

/// Whether every emitted key event has the value `value`.
pub open spec fn all_of_value(emits: Seq<Emit>, value: KeyValue) -> bool {
    forall|i: int| 0 <= i < emits.len() ==> (#[trigger] emits[i]).value == value
}

proof fn lemma_run_len(s: ActiveView, inputs: Seq<Input>)
    ensures
        run(s, inputs).1.len() == inputs.len(),
    decreases inputs.len(),
{
    if inputs.len() > 0 {
        lemma_run_len(s, inputs.drop_last());
    }
}

proof fn lemma_step_keeps_settings(s: ActiveView, input: Input)
    ensures
        step(s, input).0.key == s.key,
        step(s, input).0.device == s.device,
        step(s, input).0.tap == s.tap,
        step(s, input).0.hold == s.hold,
        step(s, input).0.timeout == s.timeout,
        step(s, input).0.timeout_button == s.timeout_button,
{
}

/// An undecided operator that answers an input with `Undecided` stays
/// undecided, and keeps in its buffer just what the input contributes.
proof fn lemma_undecided_step(s: ActiveView, input: Input)
    requires
        s.wf(),
        s.state is Undecided,
        step(s, input).1 is Undecided,
    ensures
        step(s, input).0.state is Undecided,
        step(s, input).0.wf(),
        step(s, input).0.buffered == s.buffered + kept(s.key, input),
{
    match input {
        Input::Press(d, ev) => {
            if ev.key != s.key {
                assert(s.buffered.push(Event::KeyEvent(d, ev)) =~= s.buffered + seq![Event::KeyEvent(d, ev)]);
            } else {
                assert(s.buffered =~= s.buffered + Seq::<Event>::empty());
            }
        },
        Input::Release(d, ev) => {
            assert(s.buffered.push(Event::KeyEvent(d, ev)) =~= s.buffered + seq![Event::KeyEvent(d, ev)]);
        },
        Input::Repeat(d, ev) => {
            if ev.key != s.key {
                assert(s.buffered.push(Event::KeyEvent(d, ev)) =~= s.buffered + seq![Event::KeyEvent(d, ev)]);
            } else {
                assert(s.buffered =~= s.buffered + Seq::<Event>::empty());
            }
        },
        Input::Tick(_) => {
            assert(s.buffered =~= s.buffered + Seq::<Event>::empty());
        },
        Input::Other(e) => {
            assert(s.buffered.push(e) =~= s.buffered + seq![e]);
        },
    }
}

/// While an operator stays undecided, its buffer holds, in order, every
/// event that it was given apart from the trigger's own presses and repeats
/// and the ticks.
pub proof fn lemma_undecided_run_buffers(s: ActiveView, inputs: Seq<Input>)
    requires
        s.wf(),
        s.state is Undecided,
        forall|j: int| 0 <= j < inputs.len() ==> #[trigger] run(s, inputs).1[j] is Undecided,
    ensures
        run(s, inputs).0.state is Undecided,
        run(s, inputs).0.wf(),
        run(s, inputs).0.key == s.key,
        run(s, inputs).0.buffered == s.buffered + kept_all(s.key, inputs),
    decreases inputs.len(),
{
    if inputs.len() == 0 {
        assert(s.buffered + Seq::<Event>::empty() =~= s.buffered);
    } else {
        let prefix = inputs.drop_last();
        lemma_run_len(s, prefix);
        let (s1, acts) = run(s, prefix);
        assert forall|j: int| 0 <= j < prefix.len() implies #[trigger] run(s, prefix).1[j] is Undecided by {
            assert(run(s, inputs).1[j] == acts[j]);
        }
        lemma_undecided_run_buffers(s, prefix);
        assert(run(s, inputs).1[inputs.len() - 1] == step(s1, inputs.last()).1);
        lemma_undecided_step(s1, inputs.last());
        lemma_step_keeps_settings(s1, inputs.last());
        assert(s.buffered + kept_all(s.key, prefix) + kept(s.key, inputs.last())
            =~= s.buffered + kept_all(s.key, inputs));
    }
}

/// No event is lost or reordered: when an undecided operator decides, it
/// hands back the events it had buffered followed by every event given to it
/// since, apart from the trigger's own presses, repeats and release and the
/// ticks, in the order in which they came.
pub proof fn lemma_decision_hands_back_kept(s: ActiveView, inputs: Seq<Input>)
    requires
        s.wf(),
        s.state is Undecided,
        inputs.len() > 0,
        forall|j: int| 0 <= j < inputs.len() - 1 ==> #[trigger] run(s, inputs).1[j] is Undecided,
        !(run(s, inputs).1[inputs.len() - 1] is Undecided),
    ensures
        handed_back(run(s, inputs).1[inputs.len() - 1]) == s.buffered + kept_all(s.key, inputs),
{
    let prefix = inputs.drop_last();
    lemma_run_len(s, prefix);
    let (s1, acts) = run(s, prefix);
    assert forall|j: int| 0 <= j < prefix.len() implies #[trigger] run(s, prefix).1[j] is Undecided by {
        assert(run(s, inputs).1[j] == acts[j]);
    }
    lemma_undecided_run_buffers(s, prefix);
    let last = inputs.last();
    assert(run(s, inputs).1[inputs.len() - 1] == step(s1, last).1);
    match last {
        Input::Release(d, ev) => {
            if ev.key != s.key {
                assert(s1.buffered.push(Event::KeyEvent(d, ev)) =~= s1.buffered + seq![Event::KeyEvent(d, ev)]);
            } else {
                assert(s1.buffered =~= s1.buffered + Seq::<Event>::empty());
            }
        },
        Input::Tick(_) => {
            assert(s1.buffered =~= s1.buffered + Seq::<Event>::empty());
        },
        _ => {},
    }
    assert(s.buffered + kept_all(s.key, prefix) + kept(s.key, last) =~= s.buffered + kept_all(s.key, inputs));
}

/// While held, everything but the release of the trigger leaves the
/// operator as it is.
pub proof fn lemma_held_is_stable(s: ActiveView, input: Input)
    requires
        s.state is Held,
        !is_trigger_release(s.key, input),
    ensures
        step(s, input).0 == s,
{
}

/// A held operator stays as it is through any run without a release of the trigger.
pub proof fn lemma_held_run_is_stable(s: ActiveView, inputs: Seq<Input>)
    requires
        s.state is Held,
        forall|j: int| 0 <= j < inputs.len() ==> !is_trigger_release(s.key, #[trigger] inputs[j]),
    ensures
        run(s, inputs).0 == s,
    decreases inputs.len(),
{
    if inputs.len() > 0 {
        let prefix = inputs.drop_last();
        assert forall|j: int| 0 <= j < prefix.len() implies !is_trigger_release(s.key, #[trigger] prefix[j]) by {
            assert(prefix[j] == inputs[j]);
        }
        lemma_held_run_is_stable(s, prefix);
        lemma_held_is_stable(s, inputs[inputs.len() - 1]);
    }
}

/// Every key that the operator holds down when it decides for hold is
/// released when the trigger is released, whatever came between: the
/// releases name the pressed keys in reverse order.
pub proof fn lemma_hold_released_in_reverse(
    s: ActiveView,
    decider: Input,
    between: Seq<Input>,
    device: DeviceId,
    release: KeyEvent,
)
    requires
        s.wf(),
        s.state is Undecided,
        step(s, decider).0.state is Held,
        forall|j: int| 0 <= j < between.len() ==> !is_trigger_release(s.key, #[trigger] between[j]),
        release.key == s.key,
    ensures
        ({
            let held = step(s, decider);
            let after = run(held.0, between).0;
            let fin = after.release_step(device, release);
            &&& held.1 matches ActionView::Partial(pressed, _)
            &&& fin.0.state is Done
            &&& fin.1 matches ActionView::Done(released, rest)
            &&& rest.len() == 0
            &&& all_of_value(pressed, KeyValue::Press)
            &&& all_of_value(released, KeyValue::Release)
            &&& emit_keys(released) == emit_keys(pressed).reverse()
        }),
{
    let held = step(s, decider);
    lemma_step_keeps_settings(s, decider);
    lemma_held_run_is_stable(held.0, between);
    let after = run(held.0, between).0;
    assert(after == held.0);
    let keys = held.0.active_hold_keys;
    match held.1 {
        ActionView::Partial(pressed, _) => {
            let released = releases_reversed_of(after, device);
            assert(emit_keys(pressed) =~= keys);
            assert(emit_keys(released) =~= keys.reverse());
        },
        _ => {
            assert(false);
        },
    }
}

spec fn releases_reversed_of(s: ActiveView, device: DeviceId) -> Seq<Emit> {
    crate::operator::releases_reversed(device, s.active_hold_keys)
}

/// A tap presses the tap keys in order and then releases them in reverse order.
pub proof fn lemma_tap_is_balanced(device: DeviceId, keys: Seq<Key>)
    ensures
        emit_keys(crate::operator::tap_emits(device, keys)) == keys + keys.reverse(),
        all_of_value(crate::operator::tap_emits(device, keys).subrange(0, keys.len() as int), KeyValue::Press),
        all_of_value(crate::operator::tap_emits(device, keys).subrange(keys.len() as int, 2 * keys.len() as int), KeyValue::Release),
{
    let t = crate::operator::tap_emits(device, keys);
    assert(emit_keys(t) =~= keys + keys.reverse());
}

/// While undecided, the keys recorded as pressed after the trigger stay
/// exactly those whose press is buffered, as long as each event reaches the
/// method of its own kind.
pub proof fn lemma_step_records_presses(s: ActiveView, input: Input)
    requires
        s.wf(),
        records_presses(s),
        dispatched(input),
    ensures
        records_presses(step(s, input).0),
{
    let s2 = step(s, input).0;
    if s2.state is Undecided && s.state is Undecided {
        assert forall|c: u16| #[trigger] s2.pressed_after.contains(c) <==> buffers_press_of(s2.buffered, c) by {
            if s2.buffered.len() == s.buffered.len() + 1 {
                let e = s2.buffered.last();
                assert(s2.buffered == s.buffered.push(e));
                if buffers_press_of(s.buffered, c) {
                    let i = choose|i: int| 0 <= i < s.buffered.len() && is_press_of(#[trigger] s.buffered[i], c);
                    assert(s2.buffered[i] == s.buffered[i]);
                }
                if buffers_press_of(s2.buffered, c) {
                    let i = choose|i: int| 0 <= i < s2.buffered.len() && is_press_of(#[trigger] s2.buffered[i], c);
                    if i < s.buffered.len() {
                        assert(s.buffered[i] == s2.buffered[i]);
                    }
                }
                if is_press_of(e, c) {
                    assert(is_press_of(s2.buffered[s.buffered.len() as int], c));
                }
            }
        }
    }
}

/// The hold rule: an undecided operator that keeps its record of presses
/// decides for hold on the release of another key exactly when that key
/// was pressed after the trigger.
pub proof fn lemma_release_holds_iff_pressed_after(s: ActiveView, device: DeviceId, ev: KeyEvent)
    requires
        s.wf(),
        records_presses(s),
        s.state is Undecided,
        ev.key != s.key,
    ensures
        s.release_step(device, ev).0.state is Held <==> buffers_press_of(s.buffered, ev.key.0),
        !buffers_press_of(s.buffered, ev.key.0) ==> s.release_step(device, ev).1 is Undecided,
{
}

/// The timeout: a tick that leaves the operator undecided would leave it
/// undecided at any earlier time too, and a tick past the timeout decides.
pub proof fn lemma_tick_monotonic(s: ActiveView, earlier: u128, later: u128)
    requires
        s.state is Undecided,
        earlier <= later,
    ensures
        s.tick_step(later).1 is Undecided ==> s.tick_step(earlier).1 is Undecided,
        timed_out(later, s.timeout) ==> s.tick_step(later).0.state is Held,
{
}

/// A freshly activated operator keeps the record of presses, and the press
/// of its trigger makes it undecided with nothing buffered.
pub proof fn lemma_activation_starts_undecided(s: ActiveView, device: DeviceId, ev: KeyEvent)
    requires
        s.wf(),
        s.state is New,
    ensures
        records_presses(s),
        s.press_step(device, ev).0.state is Undecided,
        s.press_step(device, ev).0.buffered.len() == 0,
        s.press_step(device, ev).0.wf(),
        records_presses(s.press_step(device, ev).0),
        s.press_step(device, ev).1 is Undecided,
{
    assert forall|c: u16| #[trigger] s.pressed_after.contains(c) <==> buffers_press_of(s.buffered, c) by {
        if buffers_press_of(s.buffered, c) {
            let i = choose|i: int| 0 <= i < s.buffered.len() && is_press_of(#[trigger] s.buffered[i], c);
        }
    }
}

/// An operator finishes only on the release of its trigger key.
pub proof fn lemma_only_trigger_release_finishes(s: ActiveView, input: Input)
    requires
        !(s.state is Done),
        step(s, input).0.state is Done,
    ensures
        is_trigger_release(s.key, input),
{
}

/// The key events that an action asks to be sent out.
pub open spec fn emits_of(a: ActionView) -> Seq<Emit> {
    match a {
        ActionView::Partial(e, _) => e,
        ActionView::Done(e, _) => e,
        _ => Seq::empty(),
    }
}

/// All key events that a sequence of actions asks to be sent out, in order.
pub open spec fn emitted(acts: Seq<ActionView>) -> Seq<Emit>
    decreases acts.len(),
{
    if acts.len() == 0 {
        Seq::empty()
    } else {
        emitted(acts.drop_last()) + emits_of(acts.last())
    }
}

/// The keys left pressed after `emits`, starting from the keys `down`, last
/// pressed last; `None` when a release does not match the key pressed last
/// of those still down. Repeats change nothing.
pub open spec fn pending_from(down: Seq<Key>, emits: Seq<Emit>) -> Option<Seq<Key>>
    decreases emits.len(),
{
    if emits.len() == 0 {
        Some(down)
    } else {
        match pending_from(down, emits.drop_last()) {
            None => None,
            Some(st) => {
                let e = emits.last();
                match e.value {
                    KeyValue::Press => Some(st.push(e.key)),
                    KeyValue::Repeat => Some(st),
                    KeyValue::Release => if st.len() > 0 && st.last() == e.key {
                        Some(st.drop_last())
                    } else {
                        None
                    },
                }
            },
        }
    }
}

/// The keys left pressed after `emits`, from none: `Some` of the empty
/// sequence exactly when every press is matched by one later release of
/// the same key, releases come in reverse order of the presses, and no
/// release comes without its press.
pub open spec fn pending(emits: Seq<Emit>) -> Option<Seq<Key>> {
    pending_from(Seq::empty(), emits)
}

/// The keys that the operator in `s` holds down.
pub open spec fn held_keys(s: ActiveView) -> Seq<Key> {
    if s.state is Held {
        s.active_hold_keys
    } else {
        Seq::empty()
    }
}

/// Whether the operator in `s` may be given `input`: a finished operator
/// takes no event, and one that has not seen its trigger's press takes
/// only a press.
pub open spec fn allowed(s: ActiveView, input: Input) -> bool {
    match input {
        Input::Press(_, _) => !(s.state is Done),
        _ => s.state is Undecided || s.state is Held,
    }
}

proof fn lemma_pending_append(down: Seq<Key>, a: Seq<Emit>, b: Seq<Emit>)
    ensures
        pending_from(down, a + b) == match pending_from(down, a) {
            Some(st) => pending_from(st, b),
            None => None,
        },
    decreases b.len(),
{
    if b.len() == 0 {
        assert(a + b =~= a);
    } else {
        lemma_pending_append(down, a, b.drop_last());
        assert((a + b).drop_last() =~= a + b.drop_last());
        assert((a + b).last() == b.last());
    }
}

proof fn lemma_pending_presses(down: Seq<Key>, device: DeviceId, keys: Seq<Key>)
    ensures
        pending_from(down, crate::operator::presses(device, keys)) == Some(down + keys),
    decreases keys.len(),
{
    let p = crate::operator::presses(device, keys);
    if keys.len() == 0 {
        assert(down + keys =~= down);
        assert(p.len() == 0);
    } else {
        let k = keys.drop_last();
        lemma_pending_presses(down, device, k);
        assert(p.drop_last() =~= crate::operator::presses(device, k));
        assert(down + keys =~= (down + k).push(keys.last()));
    }
}

proof fn lemma_pending_repeats(down: Seq<Key>, device: DeviceId, keys: Seq<Key>)
    ensures
        pending_from(down, crate::operator::repeats(device, keys)) == Some(down),
    decreases keys.len(),
{
    let r = crate::operator::repeats(device, keys);
    if keys.len() > 0 {
        let k = keys.drop_last();
        lemma_pending_repeats(down, device, k);
        assert(r.drop_last() =~= crate::operator::repeats(device, k));
    }
}

proof fn lemma_pending_releases(down: Seq<Key>, device: DeviceId, keys: Seq<Key>)
    ensures
        pending_from(down + keys, crate::operator::releases_reversed(device, keys)) == Some(down),
    decreases keys.len(),
{
    let r = crate::operator::releases_reversed(device, keys);
    if keys.len() == 0 {
        assert(down + keys =~= down);
        assert(r.len() == 0);
    } else {
        // Releasing the last key first leaves the rest to release.
        let first = seq![crate::event::Emit::release(device, keys.last())];
        let rest = crate::operator::releases_reversed(device, keys.drop_last());
        assert(r =~= first + rest);
        lemma_pending_append(down + keys, first, rest);
        assert(first.drop_last() =~= Seq::<Emit>::empty());
        assert(pending_from(down + keys, first.drop_last()) == Some(down + keys));
        assert((down + keys).last() == keys.last());
        assert((down + keys).drop_last() =~= down + keys.drop_last());
        assert(pending_from(down + keys, first) == Some(down + keys.drop_last()));
        lemma_pending_releases(down, device, keys.drop_last());
    }
}

/// One allowed step leaves pressed exactly the keys that the operator then holds.
proof fn lemma_step_pending(s: ActiveView, input: Input)
    requires
        s.wf(),
        allowed(s, input),
    ensures
        pending_from(held_keys(s), emits_of(step(s, input).1)) == Some(held_keys(step(s, input).0)),
        step(s, input).0.wf(),
{
    let e: Seq<Key> = Seq::empty();
    match input {
        Input::Press(..) => {},
        Input::Release(d, ev) => {
            if s.state is Undecided {
                if ev.key == s.key {
                    lemma_pending_presses(e, d, s.tap);
                    lemma_pending_append(e, crate::operator::presses(d, s.tap), crate::operator::releases_reversed(d, s.tap));
                    lemma_pending_releases(e, d, s.tap);
                    assert(e + s.tap =~= s.tap);
                } else if s.pressed_after.contains(ev.key.0) {
                    lemma_pending_presses(e, d, s.hold);
                    assert(e + s.hold =~= s.hold);
                }
            } else if ev.key == s.key {
                lemma_pending_releases(e, d, s.active_hold_keys);
                assert(e + s.active_hold_keys =~= s.active_hold_keys);
            }
        },
        Input::Repeat(d, ev) => {
            if s.state is Held && ev.key == s.key {
                lemma_pending_repeats(s.active_hold_keys, d, s.active_hold_keys);
            }
        },
        Input::Tick(t) => {
            if s.state is Undecided && timed_out(t, s.timeout) {
                lemma_pending_presses(e, s.device, s.timeout_keys());
                assert(e + s.timeout_keys() =~= s.timeout_keys());
            }
        },
        Input::Other(_) => {},
    }
}

/// Over any run of allowed steps, the keys left pressed by all that the
/// operator sent out are exactly the keys it holds down.
pub proof fn lemma_run_pending(s: ActiveView, inputs: Seq<Input>)
    requires
        s.wf(),
        forall|j: int| 0 <= j < inputs.len() ==> allowed(#[trigger] run(s, inputs.take(j)).0, inputs[j]),
    ensures
        pending_from(held_keys(s), emitted(run(s, inputs).1)) == Some(held_keys(run(s, inputs).0)),
        run(s, inputs).0.wf(),
    decreases inputs.len(),
{
    if inputs.len() == 0 {
        assert(run(s, inputs).1.len() == 0);
    } else {
        let prefix = inputs.drop_last();
        assert forall|j: int| 0 <= j < prefix.len() implies allowed(#[trigger] run(s, prefix.take(j)).0, prefix[j]) by {
            assert(prefix.take(j) =~= inputs.take(j));
            assert(run(s, inputs.take(j)).0 == run(s, prefix.take(j)).0);
        }
        lemma_run_pending(s, prefix);
        let (s1, acts) = run(s, prefix);
        assert(inputs.take(inputs.len() - 1) =~= prefix);
        assert(allowed(run(s, inputs.take(inputs.len() - 1)).0, inputs[inputs.len() - 1]));
        lemma_step_pending(s1, inputs.last());
        let all = run(s, inputs).1;
        assert(all.drop_last() =~= acts);
        lemma_pending_append(held_keys(s), emitted(acts), emits_of(all.last()));
    }
}

/// No key is left pressed: over a whole activation, from the operator's
/// creation to its finish, the key events it sends out (repeats aside)
/// match every press with one later release of the same key, release in
/// reverse order of the presses, and release nothing not pressed.
pub proof fn lemma_no_key_left_pressed(s: ActiveView, inputs: Seq<Input>)
    requires
        s.wf(),
        s.state is New,
        forall|j: int| 0 <= j < inputs.len() ==> allowed(#[trigger] run(s, inputs.take(j)).0, inputs[j]),
        run(s, inputs).0.state is Done,
    ensures
        pending(emitted(run(s, inputs).1)) == Some(Seq::<Key>::empty()),
{
    lemma_run_pending(s, inputs);
}

/// Whether `input` is a press, release or repeat of the trigger key `trigger`.
pub open spec fn is_about_trigger(trigger: Key, input: Input) -> bool {
    match input {
        Input::Press(_, ev) => ev.key == trigger,
        Input::Release(_, ev) => ev.key == trigger,
        Input::Repeat(_, ev) => ev.key == trigger,
        _ => false,
    }
}

/// While held, the operator passes through, and stays as it is on, every
/// event that is not about its trigger key: presses, releases and repeats of
/// other keys from any device, other input events, and ticks.
pub proof fn lemma_held_passes_through(s: ActiveView, input: Input)
    requires
        s.state is Held,
        !is_about_trigger(s.key, input),
    ensures
        step(s, input).0 == s,
        step(s, input).1 is Unhandled,
{
}

/// While held, a press of the trigger from any device is swallowed: nothing
/// is sent out, nothing handed back, and the operator stays as it is.
pub proof fn lemma_held_swallows_trigger_press(s: ActiveView, device: DeviceId, ev: KeyEvent)
    requires
        s.state is Held,
        ev.key == s.key,
    ensures
        s.press_step(device, ev).0 == s,
        s.press_step(device, ev).1 matches ActionView::Partial(e, u) && e.len() == 0 && u.len() == 0,
{
}

/// When the release of a key pressed after the trigger decides for hold, the
/// operator presses exactly the configured hold keys, in order, on the
/// releasing device, whatever the timeout button is; it holds those keys,
/// and hands back its buffer followed by the deciding release.
pub proof fn lemma_release_hold_presses_hold_keys(s: ActiveView, device: DeviceId, ev: KeyEvent)
    requires
        s.state is Undecided,
        ev.key != s.key,
        s.pressed_after.contains(ev.key.0),
    ensures
        ({
            let (s2, a) = s.release_step(device, ev);
            &&& s2.state is Held
            &&& s2.active_hold_keys == s.hold
            &&& a matches ActionView::Partial(pressed, handed)
            &&& pressed.len() == s.hold.len()
            &&& forall|i: int| 0 <= i < pressed.len() ==>
                #[trigger] pressed[i] == (Emit { device, key: s.hold[i], value: KeyValue::Press })
            &&& handed == s.buffered.push(Event::KeyEvent(device, ev))
        }),
{
}

/// When the timeout decides for hold, the operator presses, in order and on
/// the trigger's device, the timeout button's keys if it has them and the
/// hold keys otherwise; it holds those keys and hands back its buffer.
pub proof fn lemma_timeout_hold_presses_timeout_keys(s: ActiveView, elapsed_ns: u128)
    requires
        s.state is Undecided,
        elapsed_ns > s.timeout * 1_000_000,
    ensures
        ({
            let (s2, a) = s.tick_step(elapsed_ns);
            let keys = match s.timeout_button {
                Some(b) => b,
                None => s.hold,
            };
            &&& s2.state is Held
            &&& s2.active_hold_keys == keys
            &&& a matches ActionView::Partial(pressed, handed)
            &&& pressed.len() == keys.len()
            &&& forall|i: int| 0 <= i < pressed.len() ==>
                #[trigger] pressed[i] == (Emit { device: s.device, key: keys[i], value: KeyValue::Press })
            &&& handed == s.buffered
        }),
{
}

/// While held, whatever came between, a repeat of the trigger repeats, in
/// order and on the repeating device, exactly the keys that the operator
/// pressed when it decided for hold, and leaves the operator as it is.
pub proof fn lemma_hold_repeats_pressed_keys(
    s: ActiveView,
    decider: Input,
    between: Seq<Input>,
    device: DeviceId,
    rep: KeyEvent,
)
    requires
        s.wf(),
        s.state is Undecided,
        step(s, decider).0.state is Held,
        forall|j: int| 0 <= j < between.len() ==> !is_trigger_release(s.key, #[trigger] between[j]),
        rep.key == s.key,
    ensures
        ({
            let held = step(s, decider);
            let after = run(held.0, between).0;
            let r = after.repeat_step(device, rep);
            &&& held.1 matches ActionView::Partial(pressed, _)
            &&& r.0 == after
            &&& r.1 matches ActionView::Partial(repeated, handed)
            &&& handed.len() == 0
            &&& repeated.len() == pressed.len()
            &&& forall|i: int| 0 <= i < repeated.len() ==>
                #[trigger] repeated[i] == (Emit { device, key: pressed[i].key, value: KeyValue::Repeat })
        }),
{
    let held = step(s, decider);
    lemma_step_keeps_settings(s, decider);
    lemma_held_run_is_stable(held.0, between);
}

} // verus!
