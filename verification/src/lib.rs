//! A two-player, perfect-information adversarial game search engine.
//!
//! Given an abstract game interface (legal-move generation, scoring, move
//! application and undo, state identity), the engine computes increasingly
//! strong move recommendations under a time or cancellation budget.  The
//! core is a negamax alpha-beta searcher with a transposition table, an
//! iterative-deepening / quiescence / principal-variation-extension
//! scheduler, and an aggregator that merges completed searches into a
//! non-dominated set of findings.

pub mod ai;
pub mod chess;
pub mod engine;
pub mod findings;
pub mod game;
pub mod quality;
pub mod score;
pub mod search;
pub mod sys;
pub mod tictactoe;
pub mod tt;

pub use game::Player;
