//! Baseline players: one that never moves and one that picks a uniformly
//! pseudo-random legal move from a tiny deterministic generator.

use vstd::prelude::*;
use crate::game::{Game, GameLogic};

verus! {

/// A tiny linear-congruential pseudo-random number generator, seeded
/// explicitly so behaviour is repeatable.
#[derive(Debug, Clone, Copy)]
pub struct SimpleRng(pub u32);

impl SimpleRng {
    /// A generator starting from `seed`.
    pub fn new(seed: u32) -> (r: Self)
        ensures
            r == SimpleRng(seed),
    {
        Self(seed)
    }

    /// The next 32 bits of the stream.
    pub fn next_u32(&mut self) -> (r: u32)
        ensures
            r == vstd::wrapping::u32_specs::wrapping_add(
                vstd::wrapping::u32_specs::wrapping_mul(old(self).0, 1664525),
                1013904223,
            ),
            final(self).0 == r,
    {
        self.0 = self.0.wrapping_mul(1664525).wrapping_add(1013904223);
        self.0
    }

    /// A pseudo-random index below `max`.
    pub fn next_usize(&mut self, max: usize) -> (r: usize)
        requires
            max > 0,
        ensures
            r < max,
    {
        (self.next_u32() as usize) % max
    }
}

/// Pick one of the position's legal moves at random, or nothing when the
/// game is over.
pub fn random_move<G: GameLogic>(rng: &mut SimpleRng, game: &Game<G>) -> (r: Option<G::Move>)
    requires
        game.wf(),
    ensures
        match r {
            Some(m) => game.logic.move_ok(game.state@, m),
            None => true,
        },
{
    let mut state = game.logic().clone_state(game.state());
    let moves = game.logic().generate_moves(&mut state);
    if moves.is_empty() {
        None
    } else {
        let i = rng.next_usize(moves.len());
        Some(moves[i])
    }
}

/// A player that never finds a move.
#[derive(Debug)]
pub struct NullAi;

impl NullAi {
    /// A fresh null player.
    pub fn new() -> (r: Self)
        ensures
            r == NullAi,
    {
        Self
    }

    /// Take note of a new position; there is nothing to prepare.
    pub fn set_game<G: GameLogic>(&mut self, game: Game<G>) {
    }

    /// Spend a thinking budget doing nothing.
    pub fn think(&mut self, max_time_micros: i64) {
    }

    /// The null player never recommends a move.
    pub fn best_move<G: GameLogic>(&self) -> (r: Option<G::Move>)
        ensures
            r is None,
    {
        None
    }
}

/// A player that answers instantly with a random legal move.
pub struct Random<G: GameLogic> {
    pub game: Option<Game<G>>,
    pub rng: SimpleRng,
    pub best_move: Option<G::Move>,
}

impl<G: GameLogic> Random<G> {
    /// A move is only ever recommended for the game it was drawn from.
    pub open spec fn wf(self) -> bool {
        match self.game {
            Some(g) => g.wf() && match self.best_move {
                Some(m) => g.logic.move_ok(g.state@, m),
                None => true,
            },
            None => self.best_move is None,
        }
    }

    /// Choose a random move for the new position right away.
    pub fn set_game(&mut self, game: Game<G>)
        requires
            old(self).wf(),
            game.wf(),
        ensures
            final(self).wf(),
            final(self).game == Some(game),
    {
        self.best_move = random_move(&mut self.rng, &game);
        self.game = Some(game);
    }

    /// No thinking needed: the random player is instant.
    pub fn think(&mut self, max_time_micros: i64)
        requires
            old(self).wf(),
        ensures
            *final(self) == *old(self),
    {
    }

    /// The move chosen when the position was set, legal for that position.
    pub fn best_move(&self) -> (r: Option<G::Move>)
        requires
            self.wf(),
        ensures
            r == self.best_move,
            match r {
                Some(m) => self.game matches Some(g) && g.logic.move_ok(g.state@, m),
                None => true,
            },
    {
        self.best_move
    }
}

impl<G: GameLogic> Default for Random<G> {
    /// A random player with a fixed seed, for determinism.
    fn default() -> (r: Self)
        ensures
            r.wf(),
            r.game is None,
            r.rng == SimpleRng(12345u32),
    {
        Self { game: None, rng: SimpleRng::new(12345), best_move: None }
    }
}

} // verus!
