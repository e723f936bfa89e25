use vstd::prelude::*;

use crate::machine::step_panics;
use crate::system::{instruction_cycle, Chip8View, Step};

verus! {

/// The keys of the host keyboard that the interpreter's controls react to.
#[derive(Debug, Clone, Copy, PartialEq, Eq, Structural)]
pub enum HostKey {
    /// Quits.
    Escape,
    /// Pauses and resumes.
    Space,
    /// Runs one instruction while paused.
    N,
    /// Switches debug mode on and off.
    Tab,
    /// Requests a reset.
    Backspace,
    /// Any other key.
    Other,
}

/// An event of the host window, with the keypad key (0 to 15) that the
/// pressed or released host key stands for, if any.
#[derive(Debug, Clone, Copy, PartialEq, Eq, Structural)]
pub enum HostEvent {
    Quit,
    KeyDown { key: HostKey, keypad: Option<u8> },
    KeyUp { keypad: Option<u8> },
    Other,
}

/// What the host has to do after an event.
pub struct Reaction {
    /// Leave the main loop.
    pub quit: bool,
    /// The keypad changed: report it.
    pub keypad_changed: bool,
    /// The instruction cycle that the event ran, if it ran one.
    pub step: Option<Result<Step, String>>,
    /// Debug mode was switched: clear the window and show the screen again.
    pub repaint: bool,
}

/// The start of a frame: where the program counter is at a breakpoint,
/// execution pauses and that breakpoint is dropped.
pub open spec fn breakpoint_check(v: Chip8View) -> Chip8View {
    if v.breakpoints.contains(v.cpu.pc) {
        Chip8View { paused: true, breakpoints: v.breakpoints.remove(v.cpu.pc), ..v }
    } else {
        v
    }
}

/// The view with keypad key `keypad`, if any, held down or released.
pub open spec fn press(v: Chip8View, keypad: Option<u8>, down: bool) -> Chip8View {
    match keypad {
        Some(k) => v.with_keypad(v.keypad.update(k as int, down)),
        None => v,
    }
}

/// The view after a key press that does not run an instruction: `Tab`
/// switches debug mode and the pixel grid, `Backspace` requests a reset.
pub open spec fn after_toggles(v: Chip8View, key: HostKey) -> Chip8View {
    if key == HostKey::Tab {
        Chip8View { debug: !v.debug, debug_lines: !v.debug_lines, ..v }
    } else if key == HostKey::Backspace {
        Chip8View { reset: true, ..v }
    } else {
        v
    }
}

/// The view after a key press has been seen by the keypad and the pause
/// switch.
pub open spec fn after_press(v: Chip8View, key: HostKey, keypad: Option<u8>) -> Chip8View {
    let v1 = press(v, keypad, true);
    if key == HostKey::Space {
        Chip8View { paused: !v1.paused, ..v1 }
    } else {
        v1
    }
}

/// The events that the interpreter can take in `v`: keypad keys lie in 0 to
/// 15, and a single step on `N` does not fail.
pub open spec fn event_allowed(v: Chip8View, event: HostEvent) -> bool {
    match event {
        HostEvent::KeyDown { key, keypad } => key != HostKey::Escape ==> {
            &&& keypad matches Some(k) ==> k < 16
            &&& key == HostKey::N && v.paused ==> !step_panics(v.cpu)
        },
        HostEvent::KeyUp { keypad } => keypad matches Some(k) ==> k < 16,
        _ => true,
    }
}

/// How an event changes the interpreter and what it asks of the host.
pub open spec fn event_outcome(
    before: Chip8View,
    event: HostEvent,
    after: Chip8View,
    r: Reaction,
) -> bool {
    match event {
        HostEvent::KeyDown { key, keypad } => if key == HostKey::Escape {
            after == before && r.quit && !r.keypad_changed && r.step is None && !r.repaint
        } else {
            let v = after_press(before, key, keypad);
            &&& r.keypad_changed == keypad is Some
            &&& r.repaint == (key == HostKey::Tab)
            &&& if key == HostKey::N && v.paused {
                &&& r.step matches Some(res) && instruction_cycle(v, after, res)
                    && r.quit == res is Err
            } else {
                &&& r.step is None
                &&& !r.quit
                &&& after == after_toggles(v, key)
            }
        },
        HostEvent::KeyUp { keypad } => {
            &&& after == press(before, keypad, false)
            &&& r.keypad_changed == keypad is Some
            &&& !r.quit && r.step is None && !r.repaint
        },
        HostEvent::Quit => after == before && r.quit && !r.keypad_changed && r.step is None
            && !r.repaint,
        HostEvent::Other => after == before && !r.quit && !r.keypad_changed && r.step is None
            && !r.repaint,
    }
}

/// What the step after a frame's events does: nothing while paused, one
/// instruction cycle otherwise.
pub open spec fn advance_outcome(
    before: Chip8View,
    after: Chip8View,
    res: Option<Result<Step, String>>,
) -> bool {
    if before.paused {
        res is None && after == before
    } else {
        res matches Some(r) && instruction_cycle(before, after, r)
    }
}

/// The events of one frame, handled in turn: `views[i]` is the interpreter
/// before event `i` and `views[i + 1]` after it.
pub open spec fn event_batch(
    views: Seq<Chip8View>,
    events: Seq<HostEvent>,
    reactions: Seq<Reaction>,
) -> bool {
    &&& views.len() == events.len() + 1
    &&& reactions.len() == events.len()
    &&& forall|i: int|
        0 <= i < events.len() ==> #[trigger] event_outcome(
            views[i],
            events[i],
            views[i + 1],
            reactions[i],
        )
}

/// Whether an event is a press of `Space` or `N`, the keys that resume or
/// step a paused interpreter.
pub open spec fn resumes_or_steps(event: HostEvent) -> bool {
    event matches HostEvent::KeyDown { key, .. } && (key == HostKey::Space || key == HostKey::N)
}

} // verus!
