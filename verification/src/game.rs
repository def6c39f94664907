//! The state of a run and its update step.

use crate::clock::{step_nanos, SimulationClock, NANOS_PER_SECOND};
use crate::config::Config;
use crate::dot::{takes_progress, DotModel};
use crate::field::{
    all_well_formed, lemma_stepped_all_well_formed, lemma_topped_up_well_formed, stepped_all,
    topped_up, DotField, Viewport,
};
use crate::fixed::{saturated, saturating_negation, saturating_sum, Point};
use crate::player::{InputState, Level, Player};
use rand::rngs::ThreadRng;
use vstd::prelude::*;

verus! {

/// The number of simulation steps in a second.
pub const GAME_FPS: u32 = 60;

/// The radius of every dot that the update spawns: fifty pixels.
pub const DOT_RADIUS: i64 = 838_860_800;

/// The keys that the game tells apart.
#[derive(Clone, Copy, PartialEq, Eq, Structural, Debug)]
pub enum Key {
    Left,
    Right,
    A,
    D,
    Escape,
    Q,
    /// Any other key.
    Other,
}

/// Everything that a run holds.
#[derive(Debug)]
pub struct MainState {
    pub player: Player,
    pub input: InputState,
    pub level: Level,
    pub config: Config,
    pub clock: SimulationClock,
    pub dots: DotField,
}

/// What the simulation steps read and change.
pub ghost struct GameModel {
    pub player: Player,
    pub input: InputState,
    pub level: Level,
    pub config: Config,
    pub dots: Seq<DotModel>,
}

impl GameModel {
    /// The player after one step, moved by the horizontal input; the sum is
    /// held to the range of `i64`.
    pub open spec fn moved_player(self) -> Player {
        Player {
            pos: Point {
                x: saturated(self.player.pos.x + self.input.xaxis) as i64,
                y: self.player.pos.y,
            },
            state: self.player.state,
        }
    }

    /// The model after `key` went down.
    pub open spec fn pressed(self, key: Key) -> GameModel {
        let xaxis = match key {
            Key::Left | Key::A => saturated(-self.config.player_speed) as i64,
            Key::Right | Key::D => self.config.player_speed,
            _ => self.input.xaxis,
        };
        GameModel { input: InputState { xaxis, ..self.input }, ..self }
    }

    /// The model after `key` went up.
    pub open spec fn released(self, key: Key) -> GameModel {
        let xaxis = match key {
            Key::Left | Key::A | Key::Right | Key::D => 0i64,
            _ => self.input.xaxis,
        };
        GameModel { input: InputState { xaxis, ..self.input }, ..self }
    }
}

/// Whether `key` asks the game to end.
pub open spec fn quits(key: Key) -> bool {
    key == Key::Escape || key == Key::Q
}

/// Whether one simulation step may take `before` to `after`: the player
/// moves, the field is topped up to the configured number of dots, and then
/// every dot moves one step.
pub open spec fn ticks<F: Fn(i64) -> i64>(
    ease: &F,
    viewport: Viewport,
    before: GameModel,
    after: GameModel,
) -> bool {
    &&& after.player == before.moved_player()
    &&& after.input == before.input
    &&& after.level == before.level
    &&& after.config == before.config
    &&& exists|mid: Seq<DotModel>| #[trigger]
        topped_up(ease, viewport, DOT_RADIUS as int, before.config.num_dots as nat, before.dots, mid)
            && stepped_all(ease, before.config.dot_progress as int, mid, after.dots)
}

/// Whether `n` simulation steps, one after the other, may take `before` to
/// `after`.
pub open spec fn evolves<F: Fn(i64) -> i64>(
    ease: &F,
    viewport: Viewport,
    before: GameModel,
    n: nat,
    after: GameModel,
) -> bool
    decreases n,
{
    if n == 0 {
        after == before
    } else {
        exists|mid: GameModel|
            evolves(ease, viewport, before, (n - 1) as nat, mid) && #[trigger] ticks(
                ease,
                viewport,
                mid,
                after,
            )
    }
}

/// Simulation steps leave the settings, the level and the input alone, and
/// after the first of them the field holds the configured number of dots, or
/// as many as it held before where that was more.
pub proof fn lemma_evolves_population<F: Fn(i64) -> i64>(
    ease: &F,
    viewport: Viewport,
    before: GameModel,
    n: nat,
    after: GameModel,
)
    requires
        evolves(ease, viewport, before, n, after),
    ensures
        after.config == before.config,
        after.level == before.level,
        after.input == before.input,
        n == 0 ==> after.dots.len() == before.dots.len(),
        n > 0 ==> after.dots.len() == if before.dots.len() < before.config.num_dots {
            before.config.num_dots as nat
        } else {
            before.dots.len()
        },
    decreases n,
{
    if n > 0 {
        let mid = choose|mid: GameModel|
            evolves(ease, viewport, before, (n - 1) as nat, mid) && #[trigger] ticks(
                ease,
                viewport,
                mid,
                after,
            );
        lemma_evolves_population(ease, viewport, before, (n - 1) as nat, mid);
    }
}

/// Simulation steps keep every dot well formed: in every state that a run
/// reaches, each progress lies in `[0, ONE)`, each curve has its three
/// control points, and each dot is in the square of its anchor.
pub proof fn lemma_evolves_well_formed<F: Fn(i64) -> i64>(
    ease: &F,
    viewport: Viewport,
    before: GameModel,
    n: nat,
    after: GameModel,
)
    requires
        all_well_formed(before.dots),
        evolves(ease, viewport, before, n, after),
    ensures
        all_well_formed(after.dots),
    decreases n,
{
    if n > 0 {
        let mid = choose|mid: GameModel|
            evolves(ease, viewport, before, (n - 1) as nat, mid) && #[trigger] ticks(
                ease,
                viewport,
                mid,
                after,
            );
        lemma_evolves_well_formed(ease, viewport, before, (n - 1) as nat, mid);
        let topped = choose|topped: Seq<DotModel>| #[trigger]
            topped_up(
                ease,
                viewport,
                DOT_RADIUS as int,
                mid.config.num_dots as nat,
                mid.dots,
                topped,
            ) && stepped_all(ease, mid.config.dot_progress as int, topped, after.dots);
        lemma_topped_up_well_formed(
            ease,
            viewport,
            DOT_RADIUS as int,
            mid.config.num_dots as nat,
            mid.dots,
            topped,
        );
        lemma_stepped_all_well_formed(ease, mid.config.dot_progress as int, topped, after.dots);
    }
}

impl View for MainState {
    type V = GameModel;

    open spec fn view(&self) -> GameModel {
        GameModel {
            player: self.player,
            input: self.input,
            level: self.level,
            config: self.config,
            dots: self.dots@,
        }
    }
}

impl MainState {
    /// A run at its start: the default settings, an idle player, no dots,
    /// and a clock of `GAME_FPS` steps a second that holds no time.
    pub fn new() -> (state: MainState)
        ensures
            state@.dots.len() == 0,
            state.player == Player::new_spec(),
            state.input == (InputState { xaxis: 0, yaxis: 0, jump: false }),
            state.level == Level::new_spec(),
            state.config == Config::new_spec(),
            state.clock@.residual == 0,
            state.clock@.step == step_nanos(GAME_FPS),
            state.clock@.step * GAME_FPS <= NANOS_PER_SECOND < (state.clock@.step + 1) * GAME_FPS,
    {
        MainState {
            player: Player::new(),
            input: InputState::new(),
            level: Level::new(),
            config: Config::new(),
            clock: SimulationClock::new(GAME_FPS),
            dots: DotField::new(),
        }
    }

    /// Runs one simulation step: moves the player by the horizontal input,
    /// tops the field up to the configured number of dots, and moves every
    /// dot by the configured increment.
    pub fn tick<F: Fn(i64) -> i64>(&mut self, viewport: Viewport, ease: &F, rng: &mut ThreadRng)
        requires
            takes_progress(ease),
        ensures
            ticks(ease, viewport, old(self)@, final(self)@),
            final(self).clock == old(self).clock,
            all_well_formed(final(self)@.dots),
    {
        self.player.pos.x = saturating_sum(self.player.pos.x, self.input.xaxis);
        self.dots.top_up(self.config.num_dots, viewport, DOT_RADIUS, ease, rng);
        let ghost mid = self.dots@;
        self.dots.advance_all(self.config.dot_progress, ease, rng);
        proof {
            assert(topped_up(
                ease,
                viewport,
                DOT_RADIUS as int,
                old(self).config.num_dots as nat,
                old(self)@.dots,
                mid,
            ));
            assert(stepped_all(ease, old(self).config.dot_progress as int, mid, self@.dots));
            assert(self@.player == old(self)@.moved_player());
        }
    }

    /// Feeds `elapsed` nanoseconds to the clock and runs the simulation steps
    /// that are due. Returns their number.
    pub fn update<F: Fn(i64) -> i64>(
        &mut self,
        elapsed: u64,
        viewport: Viewport,
        ease: &F,
        rng: &mut ThreadRng,
    ) -> (permits: u64)
        requires
            takes_progress(ease),
        ensures
            permits == (old(self).clock@.residual + elapsed) / old(self).clock@.step,
            final(self).clock@.residual == (old(self).clock@.residual + elapsed) % old(
                self,
            ).clock@.step,
            final(self).clock@.step == old(self).clock@.step,
            permits * old(self).clock@.step + final(self).clock@.residual == old(
                self,
            ).clock@.residual + elapsed,
            0 <= final(self).clock@.residual < old(self).clock@.step,
            evolves(ease, viewport, old(self)@, permits as nat, final(self)@),
            all_well_formed(final(self)@.dots),
    {
        proof {
            use_type_invariant(&self.dots);
        }
        let permits = self.clock.tick(elapsed);
        let mut done: u64 = 0;
        while done < permits
            invariant
                done <= permits,
                takes_progress(ease),
                permits == (old(self).clock@.residual + elapsed) / old(self).clock@.step,
                self.clock@.residual == (old(self).clock@.residual + elapsed) % old(
                    self,
                ).clock@.step,
                self.clock@.step == old(self).clock@.step,
                permits * old(self).clock@.step + self.clock@.residual == old(self).clock@.residual
                    + elapsed,
                0 <= self.clock@.residual < old(self).clock@.step,
                evolves(ease, viewport, old(self)@, done as nat, self@),
                all_well_formed(self@.dots),
            decreases permits - done,
        {
            let ghost mid = self@;
            self.tick(viewport, ease, rng);
            done += 1;
            proof {
                assert(evolves(ease, viewport, old(self)@, (done - 1) as nat, mid));
                assert(ticks(ease, viewport, mid, self@));
            }
        }
        permits
    }

    /// Takes note that `key` went down. Returns whether the game is to end.
    ///
    /// Left and `A` set the horizontal input to the player's speed leftwards,
    /// right and `D` to the same speed rightwards; escape and `Q` end the
    /// game.
    pub fn key_down_event(&mut self, key: Key) -> (quit: bool)
        ensures
            final(self)@ == old(self)@.pressed(key),
            final(self).clock == old(self).clock,
            quit == quits(key),
    {
        match key {
            Key::Left | Key::A => {
                self.input.xaxis = saturating_negation(self.config.player_speed);
                false
            },
            Key::Right | Key::D => {
                self.input.xaxis = self.config.player_speed;
                false
            },
            Key::Escape | Key::Q => true,
            Key::Other => false,
        }
    }

    /// Takes note that `key` went up: a key that moves the player stops it.
    pub fn key_up_event(&mut self, key: Key)
        ensures
            final(self)@ == old(self)@.released(key),
            final(self).clock == old(self).clock,
    {
        match key {
            Key::Left | Key::A | Key::Right | Key::D => {
                self.input.xaxis = 0;
            },
            _ => {},
        }
    }
}

} // verus!
