//! The front button: pulled up, so a press reads low.
//!
//! Presses are edges, not state: a single remembered level would swallow a double-tap.

use vstd::prelude::*;
use crate::time::{self, Duration};

verus! {

#[derive(Debug, Clone, Copy, PartialEq, Eq, Structural)]
pub enum ButtonEvent {
    Down,
    Up,
}

/// Milliseconds long enough for the contact to settle, short enough not to eat a real second
/// press.
pub const DEBOUNCE: u64 = 50;

/// A level of the button's pin.
#[derive(Debug, Clone, Copy, PartialEq, Eq, Structural)]
pub enum Level {
    Low,
    High,
}

/// The button between two edges.
#[derive(Debug, Clone, Copy, PartialEq, Eq, Structural)]
pub struct Button {
    pub pressed: bool,
}

impl Button {
    pub open spec fn edge(self) -> ButtonEvent {
        if self.pressed {
            ButtonEvent::Up
        } else {
            ButtonEvent::Down
        }
    }

    pub open spec fn turned(self) -> Button {
        Button { pressed: !self.pressed }
    }

    pub fn new() -> (button: Button)
        ensures
            button == (Button { pressed: false }),
    {
        Button { pressed: false }
    }

    /// The level to wait for: a press where there is none, and otherwise its end.
    pub fn awaited(&self) -> (level: Level)
        ensures
            level == (if self.pressed {
                Level::High
            } else {
                Level::Low
            }),
    {
        if self.pressed {
            Level::High
        } else {
            Level::Low
        }
    }

    /// What to tell now that the awaited level is there, and how long to look away then.
    pub fn on_level(&mut self) -> (told: (ButtonEvent, Duration))
        ensures
            *final(self) == old(self).turned(),
            told.0 == old(self).edge(),
            told.1 == time::millis(DEBOUNCE),
    {
        let edge = if self.pressed {
            ButtonEvent::Up
        } else {
            ButtonEvent::Down
        };
        self.pressed = !self.pressed;
        (edge, Duration::from_millis(DEBOUNCE))
    }

    /// The button after `n` edges.
    pub open spec fn after(self, n: nat) -> Button
        decreases n,
    {
        if n == 0 {
            self
        } else {
            self.after((n - 1) as nat).turned()
        }
    }
}

/// From power-up on, presses and releases alternate, starting with a press.
pub proof fn law_edges_alternate(n: nat)
    ensures
        ({
            let button = Button { pressed: false }.after(n);
            button.edge() == (if n % 2 == 0 {
                ButtonEvent::Down
            } else {
                ButtonEvent::Up
            })
        }),
    decreases n,
{
    if n > 0 {
        law_edges_alternate((n - 1) as nat);
    }
}

/// Every edge is told with the same pause, 50 milliseconds, and turns the button over: after a
/// press its end is next, and after that the next press.
pub proof fn law_edges_turn_the_button(button: Button)
    ensures
        button.edge() == ButtonEvent::Down <==> !button.pressed,
        button.edge() == ButtonEvent::Up <==> button.pressed,
        button.turned().pressed != button.pressed,
        time::millis(DEBOUNCE) == (Duration { ticks: 50_000 }),
{
}

} // verus!
