//! Key presses as they come in, and the round of the main loop that they come in by.

use crate::keys::{printable, Keypress};
use crate::state::AppState;
use nix::poll::PollFlags;
use vstd::prelude::*;

verus! {

/// How long to wait for something to happen while keys are shown, in milliseconds.
pub const POLL_INTERVAL: u16 = 100;

/// Which way a key went.
#[derive(Debug, Clone, Copy, PartialEq, Eq, Structural)]
pub enum KeyDirection {
    Up,
    Down,
}

/// What to do with the keyboard state about a key that changed, in this order.
#[derive(Debug, Clone, Copy, PartialEq, Eq, Structural)]
pub struct KeyUpdate {
    /// The code by which the keymap knows the key.
    pub code: u32,
    /// How the key changes the state.
    pub direction: KeyDirection,
    /// Whether to ask the changed state for the name and the text of the key.
    pub ask: bool,
}

/// What is said where the input devices of the seat cannot be had.
pub fn seat_error() -> (r: &'static str)
    ensures
        r@ == "Failed to assign seat"@,
{
    "Failed to assign seat"
}

impl AppState {
    /// What to do with the keyboard state about a key that was pressed or released; `None` without
    /// a keymap. The keymap counts eight more than the input device.
    pub fn key_changed(&self, key: u32, pressed: bool) -> (r: Option<KeyUpdate>)
        requires
            self.xkb_state ==> key + 8 <= u32::MAX,
        ensures
            r == (if self.xkb_state {
                Some(
                    KeyUpdate {
                        code: (key + 8) as u32,
                        direction: if pressed {
                            KeyDirection::Down
                        } else {
                            KeyDirection::Up
                        },
                        ask: pressed,
                    },
                )
            } else {
                None
            }),
            r is Some <==> self.xkb_state,
            r matches Some(update) ==> update.code - key == 8 && update.ask == pressed && (
            update.direction == KeyDirection::Down <==> pressed),
    {
        if self.xkb_state {
            let direction = if pressed {
                KeyDirection::Down
            } else {
                KeyDirection::Up
            };
            Some(KeyUpdate { code: key + 8, direction, ask: pressed })
        } else {
            None
        }
    }

    /// Takes note of a key that changed at `now`, in seconds, after what [`AppState::key_changed`]
    /// says was done: of its name and its text where it was pressed, of nothing but the time where it was released. Without a keymap nothing
    /// happens.
    pub fn handle_libinput_event(&mut self, pressed: Option<(String, String)>, now: i64)
        ensures
            !old(self).xkb_state ==> *final(self) == *old(self),
            old(self).xkb_state ==> *final(self) == (AppState {
                keys: final(self).keys,
                last_key: now,
                ..*old(self)
            }),
            old(self).xkb_state ==> match pressed {
                Some((name, utf8)) => {
                    &&& (forall|i: int| 0 <= i < utf8@.len() ==> utf8@[i] > ' ') ==> final(self).keys@.last().utf8@ == utf8@
                    &&& (exists|i: int| 0 <= i < utf8@.len() && utf8@[i] <= ' ') ==> final(self).keys@.last().utf8@.len() == 0
                    &&& final(self).keys@.len() == old(self).keys@.len() + 1
                    &&& final(self).keys@.drop_last() == old(self).keys@
                    &&& final(self).keys@.last().name@ == name@
                    &&& final(self).keys@.last().utf8@ == printable(utf8@)
                },
                None => final(self).keys == old(self).keys,
            },
            old(self).wf() ==> final(self).wf(),
    {
        if !self.xkb_state {
            return;
        }
        if let Some((name, utf8)) = pressed {
            self.keys.push(Keypress::new(name, utf8));
            assert(self.keys@.drop_last() =~= old(self).keys@);
        }
        self.last_key = now;
    }

    /// How long to wait for something to happen: without end while no keys are shown.
    pub fn poll_timeout(&self) -> (r: Option<u16>)
        ensures
            r == (if self.keys@.len() == 0 {
                None
            } else {
                Some(POLL_INTERVAL)
            }),
            self.keys@.len() > 0 ==> r == Some(100u16),
            self.keys@.len() == 0 ==> r is None,
    {
        if self.keys.is_empty() {
            None
        } else {
            Some(POLL_INTERVAL)
        }
    }
}

/// Calls `PollFlags::from_bits_retain` and `PollFlags::contains` of `nix`: whether `POLLIN`, which
/// is 1 on Linux, is among these bits.
#[verifier::external_body]
fn contains_pollin(revents: i16) -> (r: bool)
    ensures
        r == (revents & 1 == 1),
{
    PollFlags::from_bits_retain(revents).contains(PollFlags::POLLIN)
}

/// Whether something can be read, by what was reported of a descriptor: not where that holds an
/// unknown flag.
pub open spec fn readable(revents: Option<i16>) -> bool {
    revents matches Some(bits) && bits & 1 == 1
}

/// Whether something can be read, by what was reported of a descriptor.
fn is_readable(revents: Option<i16>) -> (r: bool)
    ensures
        r == readable(revents),
{
    match revents {
        Some(bits) => contains_pollin(bits),
        None => false,
    }
}

/// What to do after a wait, in this order.
#[derive(Debug, Clone, Copy, PartialEq, Eq, Structural)]
pub struct PollPlan {
    /// Draw a frame.
    pub render: bool,
    /// Read the input devices; [`AppState::input_handled`] follows.
    pub read_input: bool,
    /// Read from the compositor.
    pub read_wayland: bool,
}

impl AppState {
    /// Whether the keys that are shown are old enough to be cleared.
    pub open spec fn keys_expired(self, now: int) -> bool {
        self.keys@.len() > 0 && now >= self.last_key + self.timeout
    }

    /// What to do after a wait that ended at `now`, in seconds. Keys that are old enough are
    /// cleared, all of them.
    pub fn after_poll(&mut self, now: i64, input: Option<i16>, wayland: Option<i16>) -> (r: PollPlan)
        requires
            old(self).keys@.len() > 0 ==> i64::MIN <= old(self).last_key + old(self).timeout
                <= i64::MAX,
        ensures
            r.render == (old(self).keys_expired(now as int) && !old(self).frame_scheduled
                && old(self).surface),
            r.read_input == readable(input),
            r.read_wayland == readable(wayland),
            input is None ==> !r.read_input,
            wayland is None ==> !r.read_wayland,
            input matches Some(bits) ==> r.read_input == (bits & 1 == 1),
            wayland matches Some(bits) ==> r.read_wayland == (bits & 1 == 1),
            old(self).keys@.len() > 0 && now >= old(self).last_key + old(self).timeout ==> final(self).keys@.len() == 0,
            now < old(self).last_key + old(self).timeout ==> *final(self) == *old(self)
                && !r.render,
            old(self).keys@.len() == 0 ==> *final(self) == *old(self) && !r.render,
            r.render <==> old(self).keys@.len() > 0 && final(self).keys@.len() == 0 && !old(self).frame_scheduled && old(self).surface,
            old(self).keys_expired(now as int) ==> *final(self) == (AppState {
                keys: final(self).keys,
                dirty: old(self).dirty || old(self).frame_scheduled,
                ..*old(self)
            }) && final(self).keys@ == Seq::<Keypress>::empty(),
            !old(self).keys_expired(now as int) ==> *final(self) == *old(self),
            old(self).wf() ==> final(self).wf(),
    {
        let mut render = false;
        if !self.keys.is_empty() && now >= self.last_key + self.timeout {
            self.keys.clear();
            render = self.set_dirty();
        }
        PollPlan { render, read_input: is_readable(input), read_wayland: is_readable(wayland) }
    }

    /// Asks for a new frame after all input was handled, where there is anything to show, and says
    /// whether to draw it now.
    pub fn input_handled(&mut self) -> (r: bool)
        ensures
            r == (old(self).keys@.len() > 0 && !old(self).frame_scheduled && old(self).surface),
            *final(self) == (AppState {
                dirty: old(self).dirty || (old(self).keys@.len() > 0 && old(self).frame_scheduled),
                ..*old(self)
            }),
            old(self).wf() ==> final(self).wf(),
    {
        if !self.keys.is_empty() {
            self.set_dirty()
        } else {
            false
        }
    }
}

/// Keys are shown until the timeout after the last of them has passed, and not any longer.
pub proof fn keys_are_shown_until_timeout(state: AppState, now: int, later: int)
    requires
        state.keys@.len() > 0,
        now <= later,
    ensures
        state.keys_expired(now) ==> state.keys_expired(later),
        now < state.last_key + state.timeout ==> !state.keys_expired(now),
        state.keys_expired(state.last_key + state.timeout),
{
}

} // verus!
