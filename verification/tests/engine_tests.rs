use gamesearch::ai::{NullAi, Random, SimpleRng};
use gamesearch::game::{GameLogic, Player};
use gamesearch::engine::{policy_for_worker, AlphaBeta};
use gamesearch::findings::AllSearchFindings;
use gamesearch::game::Game;
use gamesearch::score::{RelScore, RelTerminal};
use gamesearch::search::NeverStop;
use gamesearch::tictactoe::{TicTacToe, TttMove};

fn game_after(cells: &[usize]) -> Game<TicTacToe> {
    let mut game = Game::new(TicTacToe);
    for &c in cells {
        game.make_move(TttMove { cell: c });
    }
    game
}

fn run_worker(policy_index: usize, cells: &[usize], steps: usize) -> AlphaBeta<TicTacToe> {
    let mut engine: AlphaBeta<TicTacToe> =
        AlphaBeta::with_policy_and_table(policy_for_worker(policy_index), 10);
    engine.set_game(game_after(cells));
    let mut stop = NeverStop;
    for _ in 0..steps {
        if !engine.search_step(&mut stop) {
            break;
        }
    }
    engine
}

#[test]
fn engine_finds_the_winning_move() {
    let engine = run_worker(0, &[0, 3, 1, 4], 6);
    let mv = engine.best_move().expect("iterations completed");
    assert_eq!(mv, TttMove { cell: 2 });
    let labelled = engine.best_moves();
    assert!(!labelled.is_empty());
    assert!(matches!(labelled[0].0.score, RelScore::Terminal(RelTerminal::Win, _)));
}

#[test]
fn engine_is_anytime() {
    let mut engine: AlphaBeta<TicTacToe> =
        AlphaBeta::with_policy_and_table(policy_for_worker(0), 8);
    // before any position is set, and before any iteration completes,
    // queries return nothing rather than blocking
    assert!(engine.best_move().is_none());
    engine.set_game(Game::new(TicTacToe));
    assert!(engine.best_move().is_none());
    let mut stop = NeverStop;
    assert!(engine.search_step(&mut stop));
    assert!(engine.best_move().is_some());
}

// Running two workers with distinct extension policies for the same
// budget and merging their findings yields a top entry whose move is
// legal and whose score is at least what either worker found alone.
#[test]
fn ensemble_does_not_regress() {
    let position = [0usize, 1, 5, 2];
    let steps = 7;
    let a = run_worker(0, &position, steps);
    let b = run_worker(1, &position, steps);
    assert_ne!(
        policy_for_worker(0),
        policy_for_worker(1),
        "the two workers must search under distinct policies"
    );
    let best_a = a.search_findings.all_findings[0].score;
    let best_b = b.search_findings.all_findings[0].score;
    let mut merged: AllSearchFindings<TttMove> = AllSearchFindings::new();
    for f in a.search_findings.all_findings.iter() {
        merged.update(*f);
    }
    for f in b.search_findings.all_findings.iter() {
        merged.update(*f);
    }
    let top = &merged.all_findings[0];
    assert!(top.score >= best_a);
    assert!(top.score >= best_b);
    // the reported move is one the game generates for this position
    let game = game_after(&position);
    let logic = *game.logic();
    let mut state = logic.clone_state(game.state());
    let legal = logic.generate_moves(&mut state);
    assert!(legal.contains(&top.best_move));
}

#[test]
fn policies_are_distinct_and_well_formed() {
    for i in 0..8usize {
        let p = policy_for_worker(i);
        assert!(p.reset_to >= 1);
    }
    assert_ne!(policy_for_worker(0), policy_for_worker(2));
    assert_ne!(policy_for_worker(2), policy_for_worker(3));
    assert_eq!(policy_for_worker(7), policy_for_worker(99));
}

#[test]
fn null_ai_never_moves() {
    let mut ai = NullAi::new();
    ai.set_game(Game::new(TicTacToe));
    ai.think(1000);
    assert!(ai.best_move::<TicTacToe>().is_none());
}

#[test]
fn random_ai_plays_a_legal_move_deterministically() {
    let mut ai: Random<TicTacToe> = Random::default();
    ai.set_game(Game::new(TicTacToe));
    let mv = ai.best_move().expect("the empty board has moves");
    assert!(mv.cell < 9);
    let mut ai2: Random<TicTacToe> = Random::default();
    ai2.set_game(Game::new(TicTacToe));
    assert_eq!(ai2.best_move(), Some(mv));
}

#[test]
fn simple_rng_is_reproducible() {
    let mut a = SimpleRng::new(7);
    let mut b = SimpleRng::new(7);
    for _ in 0..10 {
        assert_eq!(a.next_u32(), b.next_u32());
    }
    for max in [1usize, 2, 9, 100] {
        assert!(a.next_usize(max) < max);
    }
}

#[test]
fn game_wrapper_tracks_history() {
    let mut game = Game::new(TicTacToe);
    assert_eq!(game.turn(), Player::First);
    assert_eq!(game.num_moves(), 0);
    assert!(!game.can_undo_move());
    game.make_move(TttMove { cell: 4 });
    assert_eq!(game.turn(), Player::Second);
    assert_eq!(game.num_moves(), 1);
    assert!(game.can_undo_move());
    game.make_move(TttMove { cell: 0 });
    game.undo_move();
    game.undo_move();
    assert_eq!(game.turn(), Player::First);
    assert_eq!(game.num_moves(), 0);
    let logic = *game.logic();
    let fresh = Game::new(TicTacToe);
    assert!(logic.state_ident(game.state()).eq_ident(&logic.state_ident(fresh.state())));
}
