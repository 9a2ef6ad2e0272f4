//! The game's keyboard controls: how key events change the held directions
//! and the one-shot actions, and what each frame's input is.
//!
//! Keyboard bindings: WASD / arrow keys move, Z or J attacks, X or K dodges,
//! R respawns, Escape quits.

use crate::scene::Input;
use vstd::prelude::*;

verus! {

/// Window configuration of the game.
pub struct PlatformConfig {
    pub title: String,
    pub window_width: u32,
    pub window_height: u32,
}

/// The physical keys the game reacts to, by key code; `Other` for the rest.
#[derive(Debug, Clone, Copy, PartialEq, Eq, Structural)]
pub enum GameKey {
    Escape,
    KeyW,
    ArrowUp,
    KeyS,
    ArrowDown,
    KeyA,
    ArrowLeft,
    KeyD,
    ArrowRight,
    KeyZ,
    KeyJ,
    KeyX,
    KeyK,
    KeyR,
    Other,
}

/// What a key event asks of the game loop beyond the controls themselves.
#[derive(Debug, Clone, Copy, PartialEq, Eq, Structural)]
pub enum KeyEffect {
    /// Nothing more.
    Continue,
    /// Leave the game.
    Quit,
    /// Restart the scene from scratch.
    Respawn,
}

/// Keyboard state between frames: the held directions, and the one-shot
/// actions pressed since the last frame.
#[derive(Clone, Copy)]
pub struct Controls {
    /// Held movement keys (`attack` and `dodge` are unused here).
    pub held: Input,
    /// An attack key was pressed since the last frame.
    pub just_attack: bool,
    /// A dodge key was pressed since the last frame.
    pub just_dodge: bool,
}

/// The controls after a key event.
pub open spec fn controls_after(c: Controls, key: GameKey, pressed: bool) -> Controls {
    match key {
        GameKey::KeyW | GameKey::ArrowUp => Controls { held: Input { up: pressed, ..c.held }, ..c },
        GameKey::KeyS | GameKey::ArrowDown => Controls { held: Input { down: pressed, ..c.held }, ..c },
        GameKey::KeyA | GameKey::ArrowLeft => Controls { held: Input { left: pressed, ..c.held }, ..c },
        GameKey::KeyD | GameKey::ArrowRight => Controls { held: Input { right: pressed, ..c.held }, ..c },
        GameKey::KeyZ | GameKey::KeyJ => Controls { just_attack: c.just_attack || pressed, ..c },
        GameKey::KeyX | GameKey::KeyK => Controls { just_dodge: c.just_dodge || pressed, ..c },
        _ => c,
    }
}

/// What a key event asks of the game loop: Escape quits (pressed or
/// released), a press of R respawns.
pub open spec fn key_effect(key: GameKey, pressed: bool) -> KeyEffect {
    match key {
        GameKey::Escape => KeyEffect::Quit,
        GameKey::KeyR => if pressed { KeyEffect::Respawn } else { KeyEffect::Continue },
        _ => KeyEffect::Continue,
    }
}

impl Controls {
    /// No key held or pressed.
    pub fn new() -> (c: Self)
        ensures
            c.held == (Input { up: false, down: false, left: false, right: false, attack: false, dodge: false }),
            !c.just_attack,
            !c.just_dodge,
    {
        Controls {
            held: Input { up: false, down: false, left: false, right: false, attack: false, dodge: false },
            just_attack: false,
            just_dodge: false,
        }
    }

    /// Apply a key event (`pressed` is `false` for a release).
    pub fn key_event(&mut self, key: GameKey, pressed: bool) -> (e: KeyEffect)
        ensures
            *final(self) == controls_after(*old(self), key, pressed),
            e == key_effect(key, pressed),
    {
        match key {
            GameKey::Escape => KeyEffect::Quit,
            GameKey::KeyW | GameKey::ArrowUp => {
                self.held.up = pressed;
                KeyEffect::Continue
            },
            GameKey::KeyS | GameKey::ArrowDown => {
                self.held.down = pressed;
                KeyEffect::Continue
            },
            GameKey::KeyA | GameKey::ArrowLeft => {
                self.held.left = pressed;
                KeyEffect::Continue
            },
            GameKey::KeyD | GameKey::ArrowRight => {
                self.held.right = pressed;
                KeyEffect::Continue
            },
            GameKey::KeyZ | GameKey::KeyJ => {
                if pressed {
                    self.just_attack = true;
                }
                KeyEffect::Continue
            },
            GameKey::KeyX | GameKey::KeyK => {
                if pressed {
                    self.just_dodge = true;
                }
                KeyEffect::Continue
            },
            GameKey::KeyR => if pressed { KeyEffect::Respawn } else { KeyEffect::Continue },
            GameKey::Other => KeyEffect::Continue,
        }
    }

    /// This frame's input: the held directions, and the actions pressed since
    /// the last frame, which are then forgotten.
    pub fn take_frame_input(&mut self) -> (i: Input)
        ensures
            i == (Input { attack: old(self).just_attack, dodge: old(self).just_dodge, ..old(self).held }),
            final(self).held == old(self).held,
            !final(self).just_attack,
            !final(self).just_dodge,
    {
        let i = Input {
            up: self.held.up,
            down: self.held.down,
            left: self.held.left,
            right: self.held.right,
            attack: self.just_attack,
            dodge: self.just_dodge,
        };
        self.just_attack = false;
        self.just_dodge = false;
        i
    }
}

/// Each movement key sets its own direction, and only that one: W and the
/// up arrow hold up, S and the down arrow hold down, A and the left arrow
/// hold left, D and the right arrow hold right, while pressed. The attack
/// keys (Z, J) and dodge keys (X, K) record a press of their own action, and
/// a release of them changes nothing. Every other key leaves the controls as
/// they are.
pub proof fn lemma_each_key_does_its_own_job(c: Controls, key: GameKey, pressed: bool)
    ensures
        (key == GameKey::KeyW || key == GameKey::ArrowUp) ==> controls_after(c, key, pressed) == (Controls {
            held: Input { up: pressed, down: c.held.down, left: c.held.left, right: c.held.right, attack: c.held.attack, dodge: c.held.dodge },
            just_attack: c.just_attack,
            just_dodge: c.just_dodge,
        }),
        (key == GameKey::KeyS || key == GameKey::ArrowDown) ==> controls_after(c, key, pressed) == (Controls {
            held: Input { up: c.held.up, down: pressed, left: c.held.left, right: c.held.right, attack: c.held.attack, dodge: c.held.dodge },
            just_attack: c.just_attack,
            just_dodge: c.just_dodge,
        }),
        (key == GameKey::KeyA || key == GameKey::ArrowLeft) ==> controls_after(c, key, pressed) == (Controls {
            held: Input { up: c.held.up, down: c.held.down, left: pressed, right: c.held.right, attack: c.held.attack, dodge: c.held.dodge },
            just_attack: c.just_attack,
            just_dodge: c.just_dodge,
        }),
        (key == GameKey::KeyD || key == GameKey::ArrowRight) ==> controls_after(c, key, pressed) == (Controls {
            held: Input { up: c.held.up, down: c.held.down, left: c.held.left, right: pressed, attack: c.held.attack, dodge: c.held.dodge },
            just_attack: c.just_attack,
            just_dodge: c.just_dodge,
        }),
        (key == GameKey::KeyZ || key == GameKey::KeyJ) ==> controls_after(c, key, pressed) == (Controls {
            held: c.held,
            just_attack: c.just_attack || pressed,
            just_dodge: c.just_dodge,
        }),
        (key == GameKey::KeyX || key == GameKey::KeyK) ==> controls_after(c, key, pressed) == (Controls {
            held: c.held,
            just_attack: c.just_attack,
            just_dodge: c.just_dodge || pressed,
        }),
        (key == GameKey::Escape || key == GameKey::KeyR || key == GameKey::Other) ==> controls_after(c, key, pressed) == c,
{
}

/// Escape quits on a press or a release, a press of R respawns, and every
/// other key event (and a release of R) lets the game go on.
pub proof fn lemma_key_effects(key: GameKey, pressed: bool)
    ensures
        key == GameKey::Escape ==> key_effect(key, pressed) == KeyEffect::Quit,
        key == GameKey::KeyR ==> key_effect(key, pressed) == (if pressed { KeyEffect::Respawn } else { KeyEffect::Continue }),
        key != GameKey::Escape && key != GameKey::KeyR ==> key_effect(key, pressed) == KeyEffect::Continue,
{
}

/// A press of an attack key reaches the next frame's input even when the key
/// is released again before that frame, and reaches only that frame.
pub proof fn lemma_attack_press_reaches_one_frame(c: Controls, key: GameKey)
    requires
        key == GameKey::KeyZ || key == GameKey::KeyJ,
    ensures
        controls_after(controls_after(c, key, true), key, false).just_attack,
        !(Controls { just_attack: false, just_dodge: false, ..controls_after(c, key, true) }).just_attack,
{
}

/// Holding a direction is level-triggered: after a press the direction is
/// held until the matching release, whatever other keys do meanwhile.
pub proof fn lemma_direction_follows_last_event(c: Controls, other: GameKey, pressed: bool)
    requires
        other != GameKey::KeyW,
        other != GameKey::ArrowUp,
    ensures
        controls_after(controls_after(c, GameKey::KeyW, true), other, pressed).held.up,
        !controls_after(c, GameKey::ArrowUp, false).held.up,
{
}

} // verus!
