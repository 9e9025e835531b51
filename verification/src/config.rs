//! The configuration of the expmap operators, as plain values.
//!
//! Durations are whole milliseconds, the unit in which the configuration
//! file writes them.
use vstd::prelude::*;
use crate::event::Key;

verus! {

/// One operator of the experimental map.
#[derive(Debug)]
pub enum ExpmapOperator {
    DoubleTap(DoubleTap),
    /// Throttle, with its interval in milliseconds.
    Throttle(u64),
    OneShot(Key),
    Select(Vec<ExpmapOperator>),
    TapHoldNextRelease(TapHoldNextRelease),
}

/// The settings of a tap-hold-next-release key.
#[derive(Clone, Debug)]
pub struct TapHoldNextRelease {
    /// Keys emitted when the trigger is tapped.
    pub tap: Vec<Key>,
    /// Keys held while the trigger is held.
    pub hold: Vec<Key>,
    /// Milliseconds after which an undecided trigger counts as held.
    pub timeout: u64,
    /// Keys held when the timeout decides; `hold` when absent.
    pub timeout_button: Option<Vec<Key>>,
}

/// The settings of a double-tap key.
#[derive(Clone, Debug)]
pub struct DoubleTap {
    pub actions: Vec<ExpmapAction>,
    /// Milliseconds within which the second tap must come.
    pub timeout: u64,
}

#[derive(Clone, Copy, Debug, PartialEq, Eq, Structural)]
pub enum ExpmapAction {
    Key(Key),
}

/// The timeout of a tap-hold-next-release key when the configuration gives none.
pub open spec fn spec_default_tap_hold_timeout() -> u64 {
    200
}

/// The timeout of a double-tap key when the configuration gives none.
pub open spec fn spec_default_dbltap_timeout() -> u64 {
    200
}

/// The default timeout of a tap-hold-next-release key, in milliseconds.
pub fn default_tap_hold_timeout() -> (ms: u64)
    ensures
        ms == spec_default_tap_hold_timeout(),
{
    200
}

/// The default timeout of a double-tap key, in milliseconds.
pub fn default_dbltap_timeout() -> (ms: u64)
    ensures
        ms == spec_default_dbltap_timeout(),
{
    200
}

/// Why a configuration entry was refused.
#[derive(Clone, Copy, Debug, PartialEq, Eq, Structural)]
pub enum ExpmapConfigError {
    /// The entry is not a single `tap_hold_next_release` or `tap-hold-next-release` key.
    ExpectedTapHoldNextRelease,
}

impl ExpmapConfigError {
    /// The message that the configuration reader reports for this error.
    pub fn message(&self) -> (s: String)
        ensures
            s@ == "expected tap_hold_next_release or tap-hold-next-release"@,
    {
        "expected tap_hold_next_release or tap-hold-next-release".to_owned()
    }
}

/// The names under which a tap-hold-next-release operator may be written:
/// snake case, or kebab case as in KMonad.
pub open spec fn is_tap_hold_next_release_name(name: Seq<char>) -> bool {
    ||| name == "tap_hold_next_release"@
    ||| name == "tap-hold-next-release"@
}

/// Picks the tap-hold-next-release settings out of a configuration map,
/// given as its entries: the map must hold exactly one entry, named
/// `tap_hold_next_release` or `tap-hold-next-release`.
pub fn deserialize_tap_hold_next_release<T>(map: Vec<(String, T)>) -> (r: Result<T, ExpmapConfigError>)
    ensures
        (map@.len() == 1 && is_tap_hold_next_release_name(map@[0].0@)) ==> r == Ok::<T, ExpmapConfigError>(map@[0].1),
        !(map@.len() == 1 && is_tap_hold_next_release_name(map@[0].0@)) ==> r == Err::<T, ExpmapConfigError>(ExpmapConfigError::ExpectedTapHoldNextRelease),
{
    let mut map = map;
    if map.len() != 1 {
        return Err(ExpmapConfigError::ExpectedTapHoldNextRelease);
    }
    let ghost first = map@[0];
    let (name, value) = map.pop().unwrap();
    assert(name == first.0 && value == first.1);
    let snake = "tap_hold_next_release".to_owned();
    let kebab = "tap-hold-next-release".to_owned();
    if name == snake || name == kebab {
        Ok(value)
    } else {
        Err(ExpmapConfigError::ExpectedTapHoldNextRelease)
    }
}

/// Picks the value out of a configuration map, given as its entries, that
/// must hold exactly one entry, named `key`; `None` when it does not.
pub fn deserialize_single_field<T>(map: Vec<(String, T)>, key: &str) -> (r: Option<T>)
    ensures
        (map@.len() == 1 && map@[0].0@ == key@) ==> r == Some(map@[0].1),
        !(map@.len() == 1 && map@[0].0@ == key@) ==> r is None,
{
    let mut map = map;
    if map.len() != 1 {
        return None;
    }
    let ghost first = map@[0];
    let (name, value) = map.pop().unwrap();
    assert(name == first.0 && value == first.1);
    let expected = key.to_owned();
    if name == expected {
        Some(value)
    } else {
        None
    }
}

} // verus!
