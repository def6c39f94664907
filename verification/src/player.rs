//! The player, the level and the state of the input.

use crate::fixed::{Point, ONE};
use vstd::prelude::*;

verus! {

/// What the input devices ask for.
#[derive(Clone, Copy, PartialEq, Eq, Structural, Debug)]
pub struct InputState {
    /// The horizontal movement per step, in fixed point.
    pub xaxis: i64,
    pub yaxis: i64,
    pub jump: bool,
}

#[derive(Clone, Copy, PartialEq, Eq, Structural, Debug)]
pub enum Direction {
    Left,
    Right,
}

#[derive(Clone, Copy, PartialEq, Eq, Structural, Debug)]
pub enum PlayerState {
    Idle,
    Walking(Direction),
    Jumping,
    Falling,
}

#[derive(Clone, Copy, PartialEq, Eq, Structural, Debug)]
pub struct Player {
    pub pos: Point,
    pub state: PlayerState,
}

#[derive(Clone, Copy, PartialEq, Eq, Structural, Debug)]
pub struct Level {
    /// The height of the floor line, in fixed point.
    pub floor: i64,
}

/// Where the player starts, in whole pixels.
pub const PLAYER_START_X: i64 = 200;

pub const PLAYER_START_Y: i64 = 500;

/// The height of the floor line, in whole pixels.
pub const FLOOR_Y: i64 = 500;

impl InputState {
    /// An input that asks for nothing.
    pub fn new() -> (input: InputState)
        ensures
            input == (InputState { xaxis: 0, yaxis: 0, jump: false }),
    {
        InputState { xaxis: 0, yaxis: 0, jump: false }
    }
}

impl PlayerState {
    pub fn new() -> (state: PlayerState)
        ensures
            state == PlayerState::Idle,
    {
        PlayerState::Idle
    }
}

impl Player {
    /// An idle player at the starting position.
    pub open spec fn new_spec() -> Player {
        Player {
            pos: Point { x: (PLAYER_START_X * ONE) as i64, y: (PLAYER_START_Y * ONE) as i64 },
            state: PlayerState::Idle,
        }
    }

    /// An idle player at the starting position.
    pub fn new() -> (player: Player)
        ensures
            player == Player::new_spec(),
    {
        Player {
            pos: Point { x: PLAYER_START_X * ONE, y: PLAYER_START_Y * ONE },
            state: PlayerState::new(),
        }
    }
}

impl Level {
    /// The level with its floor line at `FLOOR_Y` pixels.
    pub open spec fn new_spec() -> Level {
        Level { floor: (FLOOR_Y * ONE) as i64 }
    }

    /// The level with its floor line at `FLOOR_Y` pixels.
    pub fn new() -> (level: Level)
        ensures
            level == Level::new_spec(),
    {
        Level { floor: FLOOR_Y * ONE }
    }
}

} // verus!
