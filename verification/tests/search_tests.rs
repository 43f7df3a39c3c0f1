use gamesearch::game::{Game, GameLogic};
use gamesearch::quality::{PvExtensionCounter, ScoreQuality};
use gamesearch::score::{neg_ge_pos, rel_le_neg, RelScore, RelTerminal, WithNegInf, WithPosInf};
use gamesearch::search::{negamax_alphabeta_score, CountdownStop, NeverStop};
use gamesearch::tictactoe::{TicTacToe, TttMove};
use gamesearch::tt::TranspositionTable;

fn quality(depth: usize) -> ScoreQuality {
    ScoreQuality {
        depth,
        quiescence_depth: 1,
        pv_extension_counter: PvExtensionCounter::new(usize::MAX, usize::MAX),
    }
}

fn game_after(cells: &[usize]) -> Game<TicTacToe> {
    let mut game = Game::new(TicTacToe);
    for &c in cells {
        game.make_move(TttMove { cell: c });
    }
    game
}

fn search(
    game: &Game<TicTacToe>,
    tt: &mut TranspositionTable<TttMove>,
    q: ScoreQuality,
    alpha: WithNegInf<RelScore>,
    beta: WithPosInf<RelScore>,
) -> (RelScore, Option<TttMove>) {
    let logic = *game.logic();
    let mut state = logic.clone_state(game.state());
    let mut stop = NeverStop;
    let mut nodes: u64 = 0;
    negamax_alphabeta_score(&mut stop, 0, &logic, &mut state, tt, q, 0, &mut nodes, alpha, beta)
        .expect("the search was never stopped")
}

// A position with zero legal moves scores as an immediate terminal, with
// mate distance zero at the terminal node itself.
#[test]
fn terminal_position_scores_immediately() {
    // the first player completes the top row; the second player is to
    // move and has already lost
    let game = game_after(&[0, 3, 1, 4, 2]);
    let mut tt: TranspositionTable<TttMove> = TranspositionTable::new(8);
    let (score, mv) = search(&game, &mut tt, quality(5), WithNegInf::NegInf, WithPosInf::PosInf);
    assert_eq!(score, RelScore::Terminal(RelTerminal::Lose, 0));
    assert!(mv.is_none());
}

// Mate distance grows by one for each ancestor frame back to the root.
#[test]
fn mate_distance_counts_plies() {
    // the first player has marks on two corners of the top row and wins
    // by playing the third; it is the first player's move
    let game = game_after(&[0, 3, 1, 4]);
    let mut tt: TranspositionTable<TttMove> = TranspositionTable::new(8);
    let (score, mv) = search(&game, &mut tt, quality(6), WithNegInf::NegInf, WithPosInf::PosInf);
    assert_eq!(score, RelScore::Terminal(RelTerminal::Win, 1));
    assert_eq!(mv, Some(TttMove { cell: 2 }));
}

// Searching the small game to full depth from the empty board finds the
// forced draw.
#[test]
fn empty_board_is_a_draw() {
    let game = Game::new(TicTacToe);
    let mut tt: TranspositionTable<TttMove> = TranspositionTable::new(12);
    let (score, mv) = search(&game, &mut tt, quality(10), WithNegInf::NegInf, WithPosInf::PosInf);
    assert!(matches!(score, RelScore::Terminal(RelTerminal::Draw, _)));
    assert!(mv.is_some());
}

// After a scripted blunder the winning side's mate comes into view as the
// search quality rises: a shallow search sees no win, a deeper one pins
// the mate down exactly.
#[test]
fn blunder_is_punished_at_higher_quality() {
    // first player on cells 0 and 5, second on 1 and 2: no immediate win,
    // but playing 4 builds a double threat and forces mate in three plies
    let game = game_after(&[0, 1, 5, 2]);
    let mut shallow_tt: TranspositionTable<TttMove> = TranspositionTable::new(10);
    let (shallow, _) =
        search(&game, &mut shallow_tt, quality(1), WithNegInf::NegInf, WithPosInf::PosInf);
    assert!(!matches!(shallow, RelScore::Terminal(RelTerminal::Win, _)));
    let mut deep_tt: TranspositionTable<TttMove> = TranspositionTable::new(10);
    let (deep, mv) = search(&game, &mut deep_tt, quality(6), WithNegInf::NegInf, WithPosInf::PosInf);
    assert_eq!(deep, RelScore::Terminal(RelTerminal::Win, 3));
    // playing the recommended move leaves the opponent two plies from
    // losing: the reported mate distance shrinks as the line is followed
    let mut game2 = game_after(&[0, 1, 5, 2]);
    game2.make_move(mv.expect("a winning move is reported"));
    let mut reply_tt: TranspositionTable<TttMove> = TranspositionTable::new(10);
    let (reply, _) = search(&game2, &mut reply_tt, quality(6), WithNegInf::NegInf, WithPosInf::PosInf);
    assert_eq!(reply, RelScore::Terminal(RelTerminal::Lose, 2));
    // the deeper verdict is no worse than the shallow one
    assert!(deep >= shallow);
}

// Monotonicity: on a fixed table, searching at a higher quality never
// returns a worse score than the lower quality did.
#[test]
fn deeper_search_never_reports_worse() {
    let game = game_after(&[0, 1, 5, 2]);
    let mut tt: TranspositionTable<TttMove> = TranspositionTable::new(12);
    let mut last: Option<RelScore> = None;
    for depth in 1..=7usize {
        let (score, _) = search(&game, &mut tt, quality(depth), WithNegInf::NegInf, WithPosInf::PosInf);
        if let Some(prev) = last {
            assert!(score >= prev, "depth {} regressed", depth);
        }
        last = Some(score);
    }
}

// Fail-soft soundness: when a bounded search fails high, the full-window
// re-search at the same quality scores at least as well; symmetrically
// for failing low.
#[test]
fn fail_soft_bounds_hold() {
    let game = game_after(&[0, 1, 5, 2]);
    let alpha = WithNegInf::Finite(RelScore::Heuristic(-1));
    let beta = WithPosInf::Finite(RelScore::Heuristic(1));
    let mut tt1: TranspositionTable<TttMove> = TranspositionTable::new(10);
    let (bounded, _) = search(&game, &mut tt1, quality(6), alpha, beta);
    let mut tt2: TranspositionTable<TttMove> = TranspositionTable::new(10);
    let (full, _) = search(&game, &mut tt2, quality(6), WithNegInf::NegInf, WithPosInf::PosInf);
    if neg_ge_pos(&WithNegInf::Finite(bounded), &beta) {
        assert!(full >= bounded);
    }
    if rel_le_neg(&bounded, &alpha) {
        assert!(full <= bounded);
    }
    // this position fails high at that window
    assert!(neg_ge_pos(&WithNegInf::Finite(bounded), &beta));
}

// Cancellation at an arbitrary point leaves the searched position exactly
// as it was.
#[test]
fn cancellation_leaves_position_untouched() {
    let game = game_after(&[0, 1]);
    let logic = *game.logic();
    for polls in [0u64, 1, 2, 3, 5, 10, 50, 500] {
        let mut state = logic.clone_state(game.state());
        let before = logic.state_ident(&state);
        let mut tt: TranspositionTable<TttMove> = TranspositionTable::new(8);
        let mut stop = CountdownStop { remaining: polls };
        let mut nodes: u64 = 0;
        let _ = negamax_alphabeta_score(
            &mut stop,
            0,
            &logic,
            &mut state,
            &mut tt,
            quality(6),
            0,
            &mut nodes,
            WithNegInf::NegInf,
            WithPosInf::PosInf,
        );
        let after = logic.state_ident(&state);
        assert!(before.eq_ident(&after), "cancellation after {} polls mutated the state", polls);
    }
}

// The reported best move near the root is always one the game generates.
#[test]
fn root_move_is_legal() {
    let game = game_after(&[4]);
    let mut tt: TranspositionTable<TttMove> = TranspositionTable::new(10);
    let (_, mv) = search(&game, &mut tt, quality(4), WithNegInf::NegInf, WithPosInf::PosInf);
    let m = mv.expect("an undecided position yields a move");
    let logic = *game.logic();
    let mut state = logic.clone_state(game.state());
    let legal = logic.generate_moves(&mut state);
    assert!(legal.contains(&m));
}
