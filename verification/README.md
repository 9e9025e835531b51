# xremap_tap_hold

The tap-hold-next-release key of an input remapper, as a Verus-verified library.

- `src/event.rs`: keys (by evdev code), key events, devices (by identifier), the events an operator receives and the actions it answers with.
- `src/config.rs`: the expmap configuration as plain values; picking a `tap_hold_next_release` / `tap-hold-next-release` entry; default timeouts.
- `src/operator.rs`: the operator and its active state machine; each method's contract is a step of the model (`ActiveView::*_step`).
- `src/laws.rs`: runs of the model and what holds of them (no event lost, no key left pressed, hold keys released in reverse, the hold rule, the timeout).
- `src/clock.rs`: the monotonic clock, behind trusted wrappers.
- `app/lib.rs`: serde reading of the configuration, evdev key codes, the remapper's timer and log, event dispatch.
