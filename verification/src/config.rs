//! The settings of a run.

use crate::fixed::ONE;
use vstd::prelude::*;

verus! {

/// The settings of a run. Sizes, speeds and ratios are fixed-point numbers.
#[derive(Clone, Copy, PartialEq, Eq, Structural, Debug)]
pub struct Config {
    pub player_size: i64,
    pub player_speed: i64,
    pub player_ratio: i64,
    pub player_tol: i64,
    pub dot_size: i64,
    /// How far a dot's progress moves in one step.
    pub dot_progress: u32,
    /// How many dots the field is topped up to.
    pub num_dots: usize,
}

/// Nine tenths, rounded down to a multiple of `1 / ONE`.
pub const NINE_TENTHS: i64 = 15_099_494;

/// One hundredth, rounded down to a multiple of `1 / ONE`.
pub const ONE_HUNDREDTH: u32 = 167_772;

impl Config {
    /// The default settings: sizes and speeds of one, ratios of nine tenths,
    /// a progress step of one hundredth and thirty dots.
    pub open spec fn new_spec() -> Config {
        Config {
            player_size: ONE,
            player_speed: ONE,
            player_ratio: NINE_TENTHS,
            player_tol: NINE_TENTHS,
            dot_size: ONE,
            dot_progress: ONE_HUNDREDTH,
            num_dots: 30,
        }
    }

    /// The default settings.
    pub fn new() -> (config: Config)
        ensures
            config == Config::new_spec(),
    {
        Config {
            player_size: ONE,
            player_speed: ONE,
            player_ratio: NINE_TENTHS,
            player_tol: NINE_TENTHS,
            dot_size: ONE,
            dot_progress: ONE_HUNDREDTH,
            num_dots: 30,
        }
    }
}

} // verus!
