//! A turnstile state machine: a coin unlocks it, a push through locks it
//! again.

use vstd::prelude::*;
use vstd::string::StringExecFns;

verus! {

/// The two turnstile states.
#[derive(Debug, Clone, Copy, PartialEq, Eq, Structural)]
pub enum State {
    Locked,
    Unlocked,
}

/// The two events a turnstile reacts to.
#[derive(Debug, Clone, Copy, PartialEq, Eq, Structural)]
pub enum Event {
    Push,
    Coin,
}

/// The transition table: a coin always leaves the turnstile unlocked, a
/// push always leaves it locked.
pub open spec fn spec_next(state: State, event: Event) -> State {
    match (state, event) {
        (State::Locked, Event::Push) => State::Locked,
        (State::Locked, Event::Coin) => State::Unlocked,
        (State::Unlocked, Event::Push) => State::Locked,
        (State::Unlocked, Event::Coin) => State::Unlocked,
    }
}

impl State {
    /// The display name of this state.
    pub fn to_string(&self) -> (r: String)
        ensures
            r@ == (match *self {
                State::Locked => "Locked"@,
                State::Unlocked => "Unlocked"@,
            }),
    {
        match self {
            State::Locked => String::from_str("Locked"),
            State::Unlocked => String::from_str("Unlocked"),
        }
    }
}

/// A turnstile holding its current state.
pub struct Turnstile {
    state: State,
}

impl Turnstile {
    /// The current state.
    pub closed spec fn current(self) -> State {
        self.state
    }

    /// A new turnstile starts locked.
    pub fn new() -> (r: Turnstile)
        ensures
            r.current() == State::Locked,
    {
        Turnstile { state: State::Locked }
    }

    /// The current state, for rendering.
    pub fn state(&self) -> (r: State)
        ensures
            r == self.current(),
    {
        self.state
    }

    /// Advances the machine by one event, following the transition table.
    pub fn next(&mut self, event: Event)
        ensures
            final(self).current() == spec_next(old(self).current(), event),
    {
        match (self.state, event) {
            (State::Locked, Event::Push) => self.state = State::Locked,
            (State::Locked, Event::Coin) => self.state = State::Unlocked,
            (State::Unlocked, Event::Push) => self.state = State::Locked,
            (State::Unlocked, Event::Coin) => self.state = State::Unlocked,
        }
    }
}

} // verus!
