//! Noughts and crosses on a 3×3 grid: a small, fully specified game used
//! to exercise the search end to end.  Its move generation and scoring
//! are pinned down exactly, so the search's strongest guarantees apply.

use vstd::prelude::*;
use crate::game::{GameLogic, Player};
use crate::score::AbsScore;
use crate::tt::StateIdent;

verus! {

/// A 3×3 board in row-major order: 0 empty, 1 the first player's mark,
/// 2 the second player's.
#[derive(Debug)]
pub struct TttState {
    pub cells: Vec<u8>,
}

/// The mathematical view of a board: just its cells.
pub struct TttView {
    pub cells: Seq<u8>,
}

impl View for TttState {
    type V = TttView;

    open spec fn view(&self) -> TttView {
        TttView { cells: self.cells@ }
    }
}

/// Claim one empty cell, identified in row-major order.
#[derive(Debug, Clone, Copy, PartialEq, Eq, Structural)]
pub struct TttMove {
    pub cell: usize,
}

/// The rules of the game.
#[derive(Debug, Clone, Copy)]
pub struct TicTacToe;

/// How many cells carry a mark.
pub open spec fn filled(c: Seq<u8>) -> int
    decreases c.len(),
{
    if c.len() == 0 {
        0
    } else {
        filled(c.drop_last()) + (if c.last() == 0 {
            0int
        } else {
            1int
        })
    }
}

proof fn lemma_filled_zero(c: Seq<u8>)
    requires
        forall|i: int| 0 <= i < c.len() ==> #[trigger] c[i] == 0,
    ensures
        filled(c) == 0,
    decreases c.len(),
{
    if c.len() > 0 {
        lemma_filled_zero(c.drop_last());
    }
}

proof fn lemma_filled_update(c: Seq<u8>, j: int, m: u8)
    requires
        0 <= j < c.len(),
        c[j] == 0,
        m != 0,
    ensures
        filled(c.update(j, m)) == filled(c) + 1,
    decreases c.len(),
{
    let c2 = c.update(j, m);
    if j == c.len() - 1 {
        assert(c2.drop_last() =~= c.drop_last());
    } else {
        assert(c2.drop_last() =~= c.drop_last().update(j, m));
        lemma_filled_update(c.drop_last(), j, m);
    }
}

/// The mark a player plays.
pub open spec fn mark_of(p: Player) -> u8 {
    match p {
        Player::First => 1,
        Player::Second => 2,
    }
}

/// Whether `mark` holds one of the eight winning lines.
pub open spec fn spec_won(c: Seq<u8>, mark: u8) -> bool {
    ||| (c[0] == mark && c[1] == mark && c[2] == mark)
    ||| (c[3] == mark && c[4] == mark && c[5] == mark)
    ||| (c[6] == mark && c[7] == mark && c[8] == mark)
    ||| (c[0] == mark && c[3] == mark && c[6] == mark)
    ||| (c[1] == mark && c[4] == mark && c[7] == mark)
    ||| (c[2] == mark && c[5] == mark && c[8] == mark)
    ||| (c[0] == mark && c[4] == mark && c[8] == mark)
    ||| (c[2] == mark && c[4] == mark && c[6] == mark)
}

/// The legal claims from cell `i` onward, in row-major order, ignoring
/// whether the game has already been decided.
pub open spec fn claims_from(c: Seq<u8>, i: int) -> Seq<TttMove>
    decreases 9 - i,
{
    if i < 0 || i >= 9 {
        Seq::empty()
    } else {
        (if c[i] == 0 {
            seq![TttMove { cell: i as usize }]
        } else {
            Seq::empty()
        }) + claims_from(c, i + 1)
    }
}

impl TttState {
    /// An empty board.
    pub fn empty_board() -> (r: Self)
        ensures
            r@.cells =~= Seq::new(9, |i: int| 0u8),
    {
        let mut cells: Vec<u8> = Vec::new();
        let mut i: usize = 0;
        while i < 9
            invariant
                i <= 9,
                cells@.len() == i,
                forall|j: int| 0 <= j < i ==> cells@[j] == 0u8,
            decreases 9 - i,
        {
            cells.push(0);
            i += 1;
        }
        proof {
            assert(cells@ =~= Seq::new(9, |i: int| 0u8));
        }
        TttState { cells }
    }
}

impl TicTacToe {
    /// Whether `mark` has completed a line.
    fn won(&self, s: &TttState, mark: u8) -> (r: bool)
        requires
            self.wf_state(s@),
        ensures
            r == spec_won(s@.cells, mark),
    {
        let c = &s.cells;
        (c[0] == mark && c[1] == mark && c[2] == mark) || (c[3] == mark && c[4] == mark && c[5]
            == mark) || (c[6] == mark && c[7] == mark && c[8] == mark) || (c[0] == mark && c[3]
            == mark && c[6] == mark) || (c[1] == mark && c[4] == mark && c[7] == mark) || (c[2]
            == mark && c[5] == mark && c[8] == mark) || (c[0] == mark && c[4] == mark && c[8]
            == mark) || (c[2] == mark && c[4] == mark && c[6] == mark)
    }

    /// How many cells are marked.
    fn count_filled(&self, s: &TttState) -> (r: usize)
        requires
            self.wf_state(s@),
        ensures
            r == filled(s@.cells),
    {
        let mut cnt: usize = 0;
        let mut i: usize = 0;
        while i < s.cells.len()
            invariant
                self.wf_state(s@),
                i <= s.cells@.len(),
                cnt == filled(s@.cells.take(i as int)),
                cnt <= i,
            decreases s.cells@.len() - i,
        {
            proof {
                assert(s@.cells.take(i + 1int).drop_last() =~= s@.cells.take(i as int));
            }
            if s.cells[i] != 0 {
                cnt += 1;
            }
            i += 1;
        }
        proof {
            assert(s@.cells.take(s.cells@.len() as int) =~= s@.cells);
        }
        cnt
    }
}

impl GameLogic for TicTacToe {
    type State = TttState;

    type Move = TttMove;

    open spec fn wf_state(&self, s: TttView) -> bool {
        &&& s.cells.len() == 9
        &&& forall|i: int| 0 <= i < 9 ==> #[trigger] s.cells[i] <= 2
    }

    open spec fn move_ok(&self, s: TttView, m: TttMove) -> bool {
        &&& m.cell < 9
        &&& s.cells[m.cell as int] == 0
    }

    open spec fn spec_apply(&self, s: TttView, m: TttMove) -> TttView {
        TttView { cells: s.cells.update(m.cell as int, mark_of(self.spec_turn(s))) }
    }

    open spec fn spec_turn(&self, s: TttView) -> Player {
        if filled(s.cells) % 2 == 0 {
            Player::First
        } else {
            Player::Second
        }
    }

    open spec fn spec_ident(&self, s: TttView) -> Seq<u64> {
        Seq::new(s.cells.len(), |i: int| s.cells[i] as u64)
    }

    open spec fn spec_moves(&self, s: TttView) -> Seq<TttMove> {
        if spec_won(s.cells, 1) || spec_won(s.cells, 2) {
            Seq::empty()
        } else {
            claims_from(s.cells, 0)
        }
    }

    /// The small game has no tactical exchanges: no move is active
    /// enough for quiescence search.
    open spec fn spec_quiescence_moves(&self, s: TttView) -> Seq<TttMove> {
        Seq::empty()
    }

    open spec fn obeys_move_spec() -> bool {
        true
    }

    open spec fn spec_score(&self, s: TttView) -> AbsScore {
        if spec_won(s.cells, 1) {
            AbsScore::FirstPlayerWin
        } else if spec_won(s.cells, 2) {
            AbsScore::SecondPlayerWin
        } else if filled(s.cells) == 9 {
            AbsScore::Draw
        } else {
            AbsScore::Heuristic(0)
        }
    }

    open spec fn obeys_score_spec() -> bool {
        true
    }

    proof fn lemma_apply_turn(&self, s: TttView, m: TttMove) {
        lemma_filled_update(s.cells, m.cell as int, mark_of(self.spec_turn(s)));
    }

    fn initial_state(&self) -> (r: TttState) {
        let r = TttState::empty_board();
        proof {
            lemma_filled_zero(r@.cells);
        }
        r
    }

    fn clone_state(&self, s: &TttState) -> (r: TttState) {
        let mut cells: Vec<u8> = Vec::new();
        let mut i: usize = 0;
        while i < s.cells.len()
            invariant
                i <= s.cells@.len(),
                cells@.len() == i,
                forall|j: int| 0 <= j < i ==> cells@[j] == s.cells@[j],
            decreases s.cells@.len() - i,
        {
            cells.push(s.cells[i]);
            i += 1;
        }
        proof {
            assert(cells@ =~= s.cells@);
        }
        TttState { cells }
    }

    fn turn(&self, s: &TttState) -> (r: Player) {
        let cnt = self.count_filled(s);
        if cnt % 2 == 0 {
            Player::First
        } else {
            Player::Second
        }
    }

    fn state_ident(&self, s: &TttState) -> (r: StateIdent) {
        let mut words: Vec<u64> = Vec::new();
        let mut i: usize = 0;
        while i < s.cells.len()
            invariant
                i <= s.cells@.len(),
                words@.len() == i,
                forall|j: int| 0 <= j < i ==> words@[j] == s.cells@[j] as u64,
            decreases s.cells@.len() - i,
        {
            words.push(s.cells[i] as u64);
            i += 1;
        }
        proof {
            assert(words@ =~= self.spec_ident(s@));
        }
        StateIdent::new(words)
    }

    fn move_eq(&self, a: &TttMove, b: &TttMove) -> (r: bool) {
        a.cell == b.cell
    }

    fn generate_moves(&self, s: &mut TttState) -> (r: Vec<TttMove>) {
        if self.won(s, 1) || self.won(s, 2) {
            Vec::new()
        } else {
            let mut out: Vec<TttMove> = Vec::new();
            let mut i: usize = 0;
            while i < 9
                invariant
                    self.wf_state(s@),
                    i <= 9,
                    claims_from(s@.cells, 0) == out@ + claims_from(s@.cells, i as int),
                    forall|j: int| 0 <= j < out@.len() ==> self.move_ok(s@, #[trigger] out@[j]),
                decreases 9 - i,
            {
                let ghost pre = out@;
                if s.cells[i] == 0 {
                    out.push(TttMove { cell: i });
                    proof {
                        assert(claims_from(s@.cells, i as int) == seq![TttMove { cell: i }]
                            + claims_from(s@.cells, i + 1int));
                        assert(pre + claims_from(s@.cells, i as int) =~= out@ + claims_from(
                            s@.cells,
                            i + 1int,
                        ));
                    }
                } else {
                    proof {
                        assert(claims_from(s@.cells, i as int) == claims_from(
                            s@.cells,
                            i + 1int,
                        ));
                    }
                }
                i += 1;
            }
            proof {
                assert(claims_from(s@.cells, 9int) == Seq::<TttMove>::empty());
                assert(out@ + Seq::<TttMove>::empty() =~= out@);
            }
            out
        }
    }

    fn generate_quiescence_moves(&self, s: &mut TttState) -> (r: Vec<TttMove>) {
        Vec::new()
    }

    fn score(&self, s: &mut TttState) -> (r: AbsScore) {
        if self.won(s, 1) {
            AbsScore::FirstPlayerWin
        } else if self.won(s, 2) {
            AbsScore::SecondPlayerWin
        } else if self.count_filled(s) == 9 {
            AbsScore::Draw
        } else {
            AbsScore::Heuristic(0)
        }
    }

    fn make_move(&self, s: &mut TttState, m: &TttMove) {
        let cnt = self.count_filled(s);
        let mark: u8 = if cnt % 2 == 0 {
            1
        } else {
            2
        };
        s.cells.set(m.cell, mark);
    }

    fn unmake_move(&self, s: &mut TttState, m: &TttMove, Ghost(prev): Ghost<TttView>) {
        s.cells.set(m.cell, 0);
        proof {
            assert(s@.cells =~= prev.cells);
        }
    }
}

} // verus!
