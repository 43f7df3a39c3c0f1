//! The abstract game interface and the game-in-progress wrapper.
//!
//! A [`GameLogic`] supplies move generation, scoring, move application and
//! undo, and a state identity for caching.  Its contracts record exactly
//! what the search relies on: generated moves are applicable to the state
//! they were generated from, application and undo are exact inverses, and
//! generation, scoring and identity leave the state untouched.  Proof
//! obligations on implementors replace the debug-time assertions an
//! unverified engine would use to police its collaborators.

use vstd::prelude::*;
use crate::score::AbsScore;
use crate::tt::StateIdent;

verus! {

/// One of the two players of a turn-based game.  `First` moves on even
/// plies; positive absolute scores favour `First`.
#[derive(Debug, Clone, Copy, PartialEq, Eq, Structural)]
pub enum Player {
    First,
    Second,
}

impl Player {
    /// The opponent of this player.
    pub fn flip(self) -> (r: Self)
        ensures
            r == self.spec_flip(),
    {
        match self {
            Self::First => Self::Second,
            Self::Second => Self::First,
        }
    }

    /// The opponent, at the specification level.
    pub open spec fn spec_flip(self) -> Self {
        match self {
            Self::First => Self::Second,
            Self::Second => Self::First,
        }
    }
}

/// A two-player, turn-based, perfect-information game.  The turn switches
/// on every move; the game ends when no moves can be generated.  Positive
/// absolute scores mean the first player is winning.
pub trait GameLogic: Sized {
    type State: View;

    type Move: Copy;

    /// The states the game's own operations keep each other within.
    spec fn wf_state(&self, s: <Self::State as View>::V) -> bool;

    /// Whether `m` can be applied to `s` and then undone exactly.  Every
    /// generated move satisfies this for the state it was generated from.
    spec fn move_ok(&self, s: <Self::State as View>::V, m: Self::Move) -> bool;

    /// The state after applying `m` to `s`.
    spec fn spec_apply(
        &self,
        s: <Self::State as View>::V,
        m: Self::Move,
    ) -> <Self::State as View>::V;

    /// Whose turn it is in `s`.
    spec fn spec_turn(&self, s: <Self::State as View>::V) -> Player;

    /// The cache identity of `s`, as plain words.
    spec fn spec_ident(&self, s: <Self::State as View>::V) -> Seq<u64>;

    /// The legal moves of `s`, for implementations that pin them down
    /// exactly; meaningful only when [`Self::obeys_move_spec`] holds.
    spec fn spec_moves(&self, s: <Self::State as View>::V) -> Seq<Self::Move>;

    /// The quiescence moves of `s`, for implementations that pin them
    /// down exactly; meaningful only when [`Self::obeys_move_spec`]
    /// holds.
    spec fn spec_quiescence_moves(&self, s: <Self::State as View>::V) -> Seq<Self::Move>;

    /// Whether [`Self::generate_moves`] and
    /// [`Self::generate_quiescence_moves`] return exactly
    /// [`Self::spec_moves`] and [`Self::spec_quiescence_moves`].
    spec fn obeys_move_spec() -> bool;

    /// The score of `s`, for implementations that pin it down exactly;
    /// meaningful only when [`Self::obeys_score_spec`] holds.
    spec fn spec_score(&self, s: <Self::State as View>::V) -> AbsScore;

    /// Whether [`Self::score`] returns exactly [`Self::spec_score`].
    spec fn obeys_score_spec() -> bool;

    /// Applying a move flips the side to move.
    proof fn lemma_apply_turn(&self, s: <Self::State as View>::V, m: Self::Move)
        requires
            self.wf_state(s),
            self.move_ok(s, m),
        ensures
            self.spec_turn(self.spec_apply(s, m)) == self.spec_turn(s).spec_flip(),
    ;

    /// The position a fresh game starts from.  The first player moves
    /// first.
    fn initial_state(&self) -> (r: Self::State)
        ensures
            self.wf_state(r@),
            self.spec_turn(r@) == Player::First,
    ;

    /// An owned copy of a state.
    fn clone_state(&self, s: &Self::State) -> (r: Self::State)
        requires
            self.wf_state(s@),
        ensures
            r@ == s@,
    ;

    /// Whose turn it is.
    fn turn(&self, s: &Self::State) -> (r: Player)
        requires
            self.wf_state(s@),
        ensures
            r == self.spec_turn(s@),
    ;

    /// The identity of `s` for transposition caching: equal states report
    /// equal identities.
    fn state_ident(&self, s: &Self::State) -> (r: StateIdent)
        requires
            self.wf_state(s@),
        ensures
            r@ == self.spec_ident(s@),
    ;

    /// Whether two moves are the same move.
    fn move_eq(&self, a: &Self::Move, b: &Self::Move) -> (r: bool)
        ensures
            r == (*a == *b),
    ;

    /// All legal moves of the position.  The state is handed out mutably
    /// so implementations may probe it, but comes back unchanged.
    fn generate_moves(&self, s: &mut Self::State) -> (r: Vec<Self::Move>)
        requires
            self.wf_state(old(s)@),
        ensures
            final(s)@ == old(s)@,
            forall|i: int| 0 <= i < r@.len() ==> self.move_ok(old(s)@, #[trigger] r@[i]),
            Self::obeys_move_spec() ==> r@ == self.spec_moves(old(s)@),
    ;

    /// The subset of legal moves active enough for quiescence search.
    fn generate_quiescence_moves(&self, s: &mut Self::State) -> (r: Vec<Self::Move>)
        requires
            self.wf_state(old(s)@),
        ensures
            final(s)@ == old(s)@,
            forall|i: int| 0 <= i < r@.len() ==> self.move_ok(old(s)@, #[trigger] r@[i]),
            Self::obeys_move_spec() ==> r@ == self.spec_quiescence_moves(old(s)@),
    ;

    /// Score the position for the first player.
    fn score(&self, s: &mut Self::State) -> (r: AbsScore)
        requires
            self.wf_state(old(s)@),
        ensures
            final(s)@ == old(s)@,
            r.wf(),
            Self::obeys_score_spec() ==> r == self.spec_score(old(s)@),
    ;

    /// Apply a move.  The turn flips and the state stays well formed.
    fn make_move(&self, s: &mut Self::State, m: &Self::Move)
        requires
            self.wf_state(old(s)@),
            self.move_ok(old(s)@, *m),
        ensures
            final(s)@ == self.spec_apply(old(s)@, *m),
            self.wf_state(final(s)@),
    ;

    /// Undo a move: the exact inverse of [`Self::make_move`].  `prev` is
    /// the state the move was applied to.
    fn unmake_move(
        &self,
        s: &mut Self::State,
        m: &Self::Move,
        Ghost(prev): Ghost<<Self::State as View>::V>,
    )
        requires
            self.wf_state(prev),
            self.move_ok(prev, *m),
            old(s)@ == self.spec_apply(prev, *m),
        ensures
            final(s)@ == prev,
    ;
}

/// A game in progress: the rules, the current position, whose turn it is,
/// and the moves made so far (so they can be undone).
pub struct Game<G: GameLogic> {
    pub logic: G,
    pub state: G::State,
    pub turn: Player,
    pub move_history: Vec<G::Move>,
    pub state_history: Ghost<Seq<<G::State as View>::V>>,
}

impl<G: GameLogic> Game<G> {
    /// The position is well formed, the turn field tracks the side to
    /// move, and the recorded history actually leads to the current
    /// position, move by move.
    pub open spec fn wf(self) -> bool {
        &&& self.logic.wf_state(self.state@)
        &&& self.turn == self.logic.spec_turn(self.state@)
        &&& self.state_history@.len() == self.move_history@.len()
        &&& forall|i: int|
            0 <= i < self.state_history@.len() ==> self.logic.wf_state(
                #[trigger] self.state_history@[i],
            ) && self.logic.move_ok(self.state_history@[i], self.move_history@[i])
        &&& forall|i: int|
            0 <= i < self.state_history@.len() - 1 ==> #[trigger] self.state_history@[i + 1]
                == self.logic.spec_apply(self.state_history@[i], self.move_history@[i])
        &&& self.state_history@.len() > 0 ==> self.state@ == self.logic.spec_apply(
            self.state_history@.last(),
            self.move_history@.last(),
        )
    }

    /// Start a game of `logic` from its initial position.
    pub fn new(logic: G) -> (r: Self)
        ensures
            r.wf(),
            r.logic == logic,
            r.move_history@.len() == 0,
            r.turn == Player::First,
    {
        let state = logic.initial_state();
        Self {
            logic,
            state,
            turn: Player::First,
            move_history: Vec::new(),
            state_history: Ghost(Seq::empty()),
        }
    }

    /// The rules of this game.
    pub fn logic(&self) -> (r: &G)
        ensures
            r == &self.logic,
    {
        &self.logic
    }

    /// The current position.
    pub fn state(&self) -> (r: &G::State)
        ensures
            r == &self.state,
    {
        &self.state
    }

    /// Whose turn it is.
    pub fn turn(&self) -> (r: Player)
        ensures
            r == self.turn,
    {
        self.turn
    }

    /// How many moves have been made.
    pub fn num_moves(&self) -> (r: usize)
        ensures
            r == self.move_history@.len(),
    {
        self.move_history.len()
    }

    /// Make a move.  The caller is responsible for only handing in moves
    /// the game itself generated for the current position.
    pub fn make_move(&mut self, mv: G::Move)
        requires
            old(self).wf(),
            old(self).logic.move_ok(old(self).state@, mv),
        ensures
            final(self).wf(),
            final(self).logic == old(self).logic,
            final(self).state@ == old(self).logic.spec_apply(old(self).state@, mv),
            final(self).turn == old(self).turn.spec_flip(),
            final(self).move_history@ == old(self).move_history@.push(mv),
            final(self).state_history@ == old(self).state_history@.push(old(self).state@),
    {
        proof {
            self.state_history@ = self.state_history@.push(self.state@);
        }
        let ghost pre = *self;
        self.logic.make_move(&mut self.state, &mv);
        self.turn = self.turn.flip();
        self.move_history.push(mv);
        proof {
            self.logic.lemma_apply_turn(old(self).state@, mv);
            assert(self.state_history@.last() == old(self).state@);
            assert forall|i: int| 0 <= i < self.state_history@.len() - 1 implies #[trigger] self
                .state_history@[i + 1] == self.logic.spec_apply(
                self.state_history@[i],
                self.move_history@[i],
            ) by {
                if i < self.state_history@.len() - 2 {
                    assert(old(self).state_history@[i + 1] == self.state_history@[i + 1]);
                }
            }
        }
    }

    /// Whether there is a move to undo.
    pub fn can_undo_move(&self) -> (r: bool)
        ensures
            r == (self.move_history@.len() > 0),
    {
        !self.move_history.is_empty()
    }

    /// Undo the most recent move.
    pub fn undo_move(&mut self)
        requires
            old(self).wf(),
            old(self).move_history@.len() > 0,
        ensures
            final(self).wf(),
            final(self).logic == old(self).logic,
            final(self).state@ == old(self).state_history@.last(),
            final(self).turn == old(self).turn.spec_flip(),
            final(self).move_history@ == old(self).move_history@.drop_last(),
    {
        let mv = match self.move_history.pop() {
            Some(mv) => mv,
            None => unreached(),
        };
        let ghost prev = self.state_history@.last();
        self.logic.unmake_move(&mut self.state, &mv, Ghost(prev));
        self.turn = self.turn.flip();
        proof {
            self.state_history@ = self.state_history@.drop_last();
            self.logic.lemma_apply_turn(prev, mv);
            assert(old(self).turn == self.logic.spec_turn(prev).spec_flip());
            assert(self.turn == self.logic.spec_turn(prev));
            let n = self.state_history@.len();
            assert forall|i: int| 0 <= i < n implies self.state_history@[i] == old(
                self,
            ).state_history@[i] && self.move_history@[i] == old(self).move_history@[i] by {}
            if n > 0 {
                assert(old(self).state_history@[n - 1 + 1] == self.logic.spec_apply(
                    old(self).state_history@[n - 1],
                    old(self).move_history@[n - 1],
                ));
            }
        }
    }
}

} // verus!
