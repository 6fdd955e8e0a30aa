//! Keyboard controls: pause and the named speed tiers.

use vstd::prelude::*;

verus! {

/// The named step rates.
#[derive(Clone, Copy, Debug, PartialEq, Eq, Structural)]
pub enum GoLSpeed {
    Slowest,
    Slower,
    Slow,
    Normal,
    Fast,
    Faster,
    Fastest,
}

impl GoLSpeed {
    /// The least time between two steps at this speed, in milliseconds.
    pub open spec fn interval_ms(self) -> int {
        match self {
            GoLSpeed::Slowest => 1000,
            GoLSpeed::Slower => 500,
            GoLSpeed::Slow => 250,
            GoLSpeed::Normal => 100,
            GoLSpeed::Fast => 30,
            GoLSpeed::Faster => 15,
            GoLSpeed::Fastest => 1,
        }
    }

    /// The least time between two steps at this speed, in milliseconds.
    pub fn get_interval(&self) -> (r: u64)
        ensures
            r == self.interval_ms(),
            1 <= r <= 1000,
    {
        match self {
            GoLSpeed::Slowest => 1000,
            GoLSpeed::Slower => 500,
            GoLSpeed::Slow => 250,
            GoLSpeed::Normal => 100,
            GoLSpeed::Fast => 30,
            GoLSpeed::Faster => 15,
            GoLSpeed::Fastest => 1,
        }
    }
}

/// What the user has chosen: whether the simulation runs, and how fast.
#[derive(Clone, Copy, Debug, PartialEq, Eq, Structural)]
pub struct GoLConfig {
    pub is_paused: bool,
    pub speed: GoLSpeed,
}

/// The keys that the controls know.
#[derive(Clone, Copy, Debug, PartialEq, Eq, Structural)]
pub enum GoLKey {
    Space,
    Digit1,
    Digit2,
    Digit3,
    Digit4,
    Digit5,
    Digit6,
    Digit7,
    Other,
}

/// One keyboard event: which key, whether it went down, and whether it is an auto-repeat.
#[derive(Clone, Copy, Debug, PartialEq, Eq, Structural)]
pub struct KeyInput {
    pub key: GoLKey,
    pub pressed: bool,
    pub repeat: bool,
}

/// The speed tier that a digit key selects, counting from the slowest.
pub open spec fn speed_for_key(key: GoLKey) -> Option<GoLSpeed> {
    match key {
        GoLKey::Digit1 => Some(GoLSpeed::Slowest),
        GoLKey::Digit2 => Some(GoLSpeed::Slower),
        GoLKey::Digit3 => Some(GoLSpeed::Slow),
        GoLKey::Digit4 => Some(GoLSpeed::Normal),
        GoLKey::Digit5 => Some(GoLSpeed::Fast),
        GoLKey::Digit6 => Some(GoLSpeed::Faster),
        GoLKey::Digit7 => Some(GoLSpeed::Fastest),
        _ => None,
    }
}

/// The configuration after `input`: a fresh press of space toggles the pause, a fresh press
/// of a digit from 1 to 7 picks that speed; anything else changes nothing.
pub open spec fn config_after(config: GoLConfig, input: KeyInput) -> GoLConfig {
    if !input.pressed || input.repeat {
        config
    } else if input.key == GoLKey::Space {
        GoLConfig { is_paused: !config.is_paused, ..config }
    } else {
        match speed_for_key(input.key) {
            Some(speed) => GoLConfig { speed, ..config },
            None => config,
        }
    }
}

/// Maps key presses to changes of the configuration.
pub struct GoLKeyboardController {}

impl GoLKeyboardController {
    pub fn new() -> Self {
        GoLKeyboardController {  }
    }

    /// Applies `input` to `gol_config`; returns whether the key was one of the controls'
    /// (a fresh press of space or of a digit from 1 to 7).
    pub fn handle_input(&self, input: KeyInput, gol_config: &mut GoLConfig) -> (handled: bool)
        ensures
            *final(gol_config) == config_after(*old(gol_config), input),
            handled <==> (input.pressed && !input.repeat && (input.key == GoLKey::Space
                || speed_for_key(input.key) is Some)),
    {
        if !input.pressed || input.repeat {
            return false;
        }
        match input.key {
            GoLKey::Space => {
                gol_config.is_paused = !gol_config.is_paused;
                true
            },
            GoLKey::Digit1 => {
                gol_config.speed = GoLSpeed::Slowest;
                true
            },
            GoLKey::Digit2 => {
                gol_config.speed = GoLSpeed::Slower;
                true
            },
            GoLKey::Digit3 => {
                gol_config.speed = GoLSpeed::Slow;
                true
            },
            GoLKey::Digit4 => {
                gol_config.speed = GoLSpeed::Normal;
                true
            },
            GoLKey::Digit5 => {
                gol_config.speed = GoLSpeed::Fast;
                true
            },
            GoLKey::Digit6 => {
                gol_config.speed = GoLSpeed::Faster;
                true
            },
            GoLKey::Digit7 => {
                gol_config.speed = GoLSpeed::Fastest;
                true
            },
            GoLKey::Other => false,
        }
    }
}

} // verus!
