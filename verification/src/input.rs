//! Input components.
//!
//! An input component turns per-tick key state into a force vector.  The
//! closed set of variants is player-controlled input and an inert input
//! that applies no force and ignores updates; new behaviours extend the
//! [`Input`] union rather than subclass anything.
//!
//! The jump key is edge-detected: a held key yields exactly one jump
//! impulse, and a new one only after the key was released, re-pressed, and
//! the previous jump was consumed by landing (see
//! [`PlayerInput::reset_jump`]).

use vstd::prelude::*;

use crate::Vec2;

verus! {

/// Sideways force of player movement, in subunits per tick (five world
/// units).
pub const MOVE_FORCE: i64 = 50;

/// Upward impulse of a jump, in subunits per tick (thirty world units).
pub const JUMP_FORCE: i64 = 300;

/// The key state one tick hands to the input components, already decoded
/// from whatever device the surrounding program reads.
#[derive(Clone, Copy, Debug, PartialEq, Eq, Structural)]
pub struct KeyState {
    pub left: bool,
    pub right: bool,
    pub crouch: bool,
    pub jump: bool,
}

impl KeyState {
    pub fn new(left: bool, right: bool, crouch: bool, jump: bool) -> (r: KeyState)
        ensures
            r == (KeyState { left, right, crouch, jump }),
    {
        KeyState { left, right, crouch, jump }
    }

    /// The key state of a tick in which nothing is pressed.
    pub fn released() -> (r: KeyState)
        ensures
            r == (KeyState { left: false, right: false, crouch: false, jump: false }),
    {
        KeyState { left: false, right: false, crouch: false, jump: false }
    }
}

/// Which way the player steers.
#[derive(Clone, Copy, Debug, PartialEq, Eq, Structural)]
pub enum MoveDirection {
    Left,
    Right,
}

/// The whole state of a [`PlayerInput`], as contracts speak of it.
pub ghost struct PlayerInputModel {
    pub move_direction: Option<MoveDirection>,
    pub crouched: bool,
    /// Whether this tick carries a jump impulse.
    pub jump: bool,
    /// Whether a jump impulse was consumed and not yet reset by landing.
    pub jumping: bool,
    /// Whether the jump key was seen released since the last impulse.
    pub jump_released: bool,
}

/// One tick of player input: steer by the pressed direction (right wins
/// over left), crouch while the key is held, and emit a jump impulse
/// exactly when the key is pressed, was released since the last impulse,
/// and the previous jump was reset by landing.
pub open spec fn player_input_step(s: PlayerInputModel, k: KeyState) -> PlayerInputModel {
    let released = s.jump_released || !k.jump;
    let fire = k.jump && released && !s.jumping;
    PlayerInputModel {
        move_direction: if k.right {
            Some(MoveDirection::Right)
        } else if k.left {
            Some(MoveDirection::Left)
        } else {
            None
        },
        crouched: k.crouch,
        jump: fire,
        jumping: s.jumping || fire,
        jump_released: if fire {
            false
        } else {
            released
        },
    }
}

/// The force a player state asks for: sideways steering, and an upward
/// impulse on the tick of a jump.
pub open spec fn spec_player_force(s: PlayerInputModel) -> Vec2 {
    Vec2 {
        x: match s.move_direction {
            Some(MoveDirection::Left) => (-MOVE_FORCE) as i64,
            Some(MoveDirection::Right) => MOVE_FORCE,
            None => 0,
        },
        y: if s.jump {
            (-JUMP_FORCE) as i64
        } else {
            0
        },
    }
}

/// Player-controlled input: transient key-derived state, with the jump
/// edge-detection described at [`player_input_step`].
#[derive(Debug)]
pub struct PlayerInput {
    move_direction: Option<MoveDirection>,
    crouched: bool,
    jump: bool,
    jumping: bool,
    jump_released: bool,
}

impl View for PlayerInput {
    type V = PlayerInputModel;

    closed spec fn view(&self) -> PlayerInputModel {
        PlayerInputModel {
            move_direction: self.move_direction,
            crouched: self.crouched,
            jump: self.jump,
            jumping: self.jumping,
            jump_released: self.jump_released,
        }
    }
}

impl PlayerInput {
    /// A fresh player input: no direction, no crouch, jump armed.
    pub fn new() -> (r: PlayerInput)
        ensures
            r@ == (PlayerInputModel {
                move_direction: Option::<MoveDirection>::None,
                crouched: false,
                jump: false,
                jumping: false,
                jump_released: true,
            }),
    {
        PlayerInput {
            move_direction: None,
            crouched: false,
            jump: false,
            jumping: false,
            jump_released: true,
        }
    }

    /// Folds one tick of key state into the component.
    pub fn update(&mut self, keys: &KeyState)
        ensures
            final(self)@ == player_input_step(old(self)@, *keys),
    {
        let mut move_direction: Option<MoveDirection> = None;
        if keys.left {
            move_direction = Some(MoveDirection::Left);
        }
        if keys.right {
            move_direction = Some(MoveDirection::Right);
        }

        let released = self.jump_released || !keys.jump;
        let fire = keys.jump && released && !self.jumping;

        self.move_direction = move_direction;
        self.crouched = keys.crouch;
        self.jump = fire;
        if fire {
            self.jumping = true;
            self.jump_released = false;
        } else {
            self.jump_released = released;
        }
    }

    /// Landing resets the jump state: the next press may fire again.
    pub fn reset_jump(&mut self)
        ensures
            final(self)@ == (PlayerInputModel { jumping: false, ..old(self)@ }),
    {
        self.jumping = false;
    }

    /// The force the current state asks for.
    pub fn get_force(&self) -> (r: Vec2)
        ensures
            r == spec_player_force(self@),
    {
        let mut result = Vec2::zero();

        match self.move_direction {
            Some(MoveDirection::Left) => {
                result.x = -MOVE_FORCE;
            },
            Some(MoveDirection::Right) => {
                result.x = MOVE_FORCE;
            },
            None => {},
        }

        if self.jump {
            result.y = -JUMP_FORCE;
        }
        result
    }
}

/// After landing resets the jump state, a jump input is honored: a press
/// with the release edge seen fires an impulse on the very next tick.
pub proof fn lemma_reset_enables_jump(s: PlayerInputModel, k: KeyState)
    requires
        !s.jumping,
        s.jump_released || !k.jump,
    ensures
        k.jump ==> player_input_step(s, k).jump,
        k.jump ==> spec_player_force(player_input_step(s, k)).y == -JUMP_FORCE,
{
}

/// An input component: a closed union over the ways an entity can be
/// driven.
#[derive(Debug)]
pub enum Input {
    /// Driven by the player's keys.
    Player(PlayerInput),
    /// Applies zero force and ignores updates.
    Inert,
}

/// The model of an input component.
pub ghost enum InputModel {
    Player(PlayerInputModel),
    Inert,
}

impl View for Input {
    type V = InputModel;

    closed spec fn view(&self) -> InputModel {
        match self {
            Input::Player(p) => InputModel::Player(p@),
            Input::Inert => InputModel::Inert,
        }
    }
}

/// One tick of key state folded into any input variant.
pub open spec fn input_step(s: InputModel, k: KeyState) -> InputModel {
    match s {
        InputModel::Player(p) => InputModel::Player(player_input_step(p, k)),
        InputModel::Inert => InputModel::Inert,
    }
}

/// The force any input variant asks for.
pub open spec fn spec_input_force(s: InputModel) -> Vec2 {
    match s {
        InputModel::Player(p) => spec_player_force(p),
        InputModel::Inert => Vec2 { x: 0, y: 0 },
    }
}

impl Input {
    /// Folds one tick of key state into the component.
    pub fn update(&mut self, keys: &KeyState)
        ensures
            final(self)@ == input_step(old(self)@, *keys),
    {
        match self {
            Input::Player(player_input) => player_input.update(keys),
            Input::Inert => {},
        }
    }

    /// The force the current state asks for.
    pub fn get_force(&self) -> (r: Vec2)
        ensures
            r == spec_input_force(self@),
    {
        match self {
            Input::Player(player_input) => player_input.get_force(),
            Input::Inert => Vec2::zero(),
        }
    }

    /// Landing resets a player's jump state; an inert input ignores it.
    pub fn reset_jump(&mut self)
        ensures
            final(self)@ == spec_input_reset_jump(old(self)@),
    {
        match self {
            Input::Player(player_input) => player_input.reset_jump(),
            Input::Inert => {},
        }
    }
}

/// Any input variant after a landing re-armed the jump.
pub open spec fn spec_input_reset_jump(s: InputModel) -> InputModel {
    match s {
        InputModel::Player(p) => InputModel::Player(PlayerInputModel { jumping: false, ..p }),
        InputModel::Inert => InputModel::Inert,
    }
}

} // verus!
