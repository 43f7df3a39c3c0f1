use gamesearch::chess::{
    BoardState, Move, MoveSelectionAction, MoveSelectionState, Piece, Pos, SquareContents,
    StandardChessGame,
};
use gamesearch::game::{Game, GameLogic, Player};
use gamesearch::quality::{PvExtensionCounter, ScoreQuality};
use gamesearch::score::{WithNegInf, WithPosInf};
use gamesearch::search::{negamax_alphabeta_score, CountdownStop};
use gamesearch::tt::TranspositionTable;

#[test]
fn square_contents_bits() {
    assert!(SquareContents::outside().is_outside());
    assert!(!SquareContents::empty().is_outside());
    assert!(SquareContents::empty().is_empty());
    assert!(!SquareContents::white_pawn().is_empty());
    assert!(!SquareContents::white_pawn().is_moved());
    assert!(SquareContents::white_pawn().moved().is_moved());
    assert_eq!(SquareContents::white_pawn().owner(), Some(Player::First));
    assert_eq!(SquareContents::black_pawn().owner(), Some(Player::Second));
    assert_eq!(SquareContents::empty().owner(), None);
    assert_eq!(SquareContents::white_rook().piece_raw(), SquareContents::black_rook().piece_raw());
    assert_ne!(SquareContents::white_rook().piece_raw(), SquareContents::white_queen().piece_raw());
    assert_eq!(SquareContents::white_knight().piece_raw(), 3);
    assert_eq!(SquareContents::white_bishop().piece_raw(), 4);
    assert_eq!(SquareContents::white_queen().piece_raw(), 5);
    assert_eq!(SquareContents::white_king().piece_raw(), 6);
    assert_eq!(SquareContents::black_knight().owner(), Some(Player::Second));
    assert_eq!(SquareContents::black_bishop().owner(), Some(Player::Second));
    assert_eq!(SquareContents::black_queen().owner(), Some(Player::Second));
    assert_eq!(SquareContents::black_king().owner(), Some(Player::Second));
}

#[test]
fn grid_roundtrip() {
    for row in 0..8usize {
        for col in 0..8usize {
            let p = Pos::from_grid(row, col);
            assert_eq!(p.to_grid(), Some((row, col)));
        }
    }
    assert_eq!((Pos { idx: 0 }).to_grid(), None);
    assert_eq!((Pos { idx: 10 }).to_grid(), None);
    assert_eq!((Pos { idx: 119 }).to_grid(), None);
}

#[test]
fn initial_position_basics() {
    let board = BoardState::initial_state_standard_chess();
    assert_eq!(board.move_num, 0);
    assert_eq!(board.get(Pos::from_grid(7, 4)).owner(), Some(Player::First));
    assert_eq!(board.get(Pos::from_grid(0, 4)).owner(), Some(Player::Second));
    assert!(board.get(Pos::from_grid(4, 4)).is_empty());
    let logic = StandardChessGame;
    assert_eq!(logic.turn(&board), Player::First);
}

#[test]
fn initial_position_has_castles_available() {
    let logic = StandardChessGame;
    let mut board = BoardState::initial_state_standard_chess();
    let moves = logic.legal_moves(Player::First, &mut board, false);
    assert!(!moves.is_empty());
    let castles = moves.iter().filter(|m| matches!(m, Move::Castle { .. })).count();
    assert_eq!(castles, 2);
}

// Applying any legal move and taking it back restores the position
// exactly: same squares, same digest, same bookkeeping.
#[test]
fn make_unmake_roundtrip() {
    let logic = StandardChessGame;
    let game = Game::new(StandardChessGame);
    let mut state = logic.clone_state(game.state());
    let before = logic.state_ident(&state);
    let before_hash = state.hash_bits();
    let moves = logic.generate_moves(&mut state);
    assert!(!moves.is_empty());
    for mv in moves.iter() {
        let mut game = Game::new(StandardChessGame);
        game.make_move(*mv);
        game.undo_move();
        let after = logic.state_ident(game.state());
        assert!(before.eq_ident(&after));
        assert_eq!(game.state().hash_bits(), before_hash);
        assert_eq!(game.state().move_num, 0);
        assert_eq!(game.state().white_king, Pos::from_grid(7, 4));
        assert_eq!(game.state().black_king, Pos::from_grid(0, 4));
    }
}

#[test]
fn quiescence_moves_are_captures_only() {
    let logic = StandardChessGame;
    let mut board = BoardState::initial_state_standard_chess();
    // the rooks stare at each other down the open files
    let captures = logic.legal_moves(Player::First, &mut board, true);
    assert!(!captures.is_empty());
    for m in captures.iter() {
        assert!(matches!(m, Move::Teleport { capture: true, .. }));
    }
}

#[test]
fn digest_tracks_position_changes() {
    let logic = StandardChessGame;
    let mut game = Game::new(StandardChessGame);
    let h0 = game.state().hash_bits();
    let mut state = logic.clone_state(game.state());
    let moves = logic.generate_moves(&mut state);
    game.make_move(moves[0]);
    assert_ne!(game.state().hash_bits(), h0);
    game.undo_move();
    assert_eq!(game.state().hash_bits(), h0);
}

#[test]
fn scoring_is_balanced_at_the_start() {
    let logic = StandardChessGame;
    let mut board = BoardState::initial_state_standard_chess();
    match logic.score(&mut board) {
        gamesearch::score::AbsScore::Heuristic(v) => assert_eq!(v, 0),
        other => panic!("unexpected score {:?}", other),
    }
}

#[test]
fn custom_equality_ignores_ply_count() {
    let mut game = Game::new(StandardChessGame);
    let logic = *game.logic();
    let mut state = logic.clone_state(game.state());
    let moves = logic.generate_moves(&mut state);
    // play a move and take it back: the position compares equal to the
    // untouched original even though histories differ
    game.make_move(moves[0]);
    game.undo_move();
    let fresh = Game::new(StandardChessGame);
    assert!(game.state() == fresh.state());
    // a played move changes the position
    game.make_move(moves[0]);
    assert!(game.state() != fresh.state());
}

#[test]
fn move_selection_state_machine() {
    let logic = StandardChessGame;
    let board = BoardState::initial_state_standard_chess();
    let mut sel = MoveSelectionState::Initial;
    // clicking an empty square leaves nothing selected
    let r = logic.update_move_selection(
        Player::First,
        &board,
        MoveSelectionAction::ClickSquare { row: 4, col: 4 },
        &mut sel,
    );
    assert!(r.is_none());
    assert!(matches!(sel, MoveSelectionState::Initial));
    // clicking the white king selects it
    let r = logic.update_move_selection(
        Player::First,
        &board,
        MoveSelectionAction::ClickSquare { row: 7, col: 4 },
        &mut sel,
    );
    assert!(r.is_none());
    assert!(matches!(sel, MoveSelectionState::PieceSelected { row: 7, col: 4 }));
    // clicking a legal destination plays the move
    let r = logic.update_move_selection(
        Player::First,
        &board,
        MoveSelectionAction::ClickSquare { row: 6, col: 4 },
        &mut sel,
    );
    let mv = r.expect("the king can step forward");
    assert!(matches!(mv, Move::Teleport { king_move: true, .. }));
}

#[test]
fn pieces_render() {
    assert_eq!(SquareContents::empty().piece(), Piece::Empty);
    assert_eq!(SquareContents::white_pawn().piece(), Piece::WhitePawn);
    assert_eq!(SquareContents::black_queen().piece(), Piece::BlackQueen);
    assert_eq!(SquareContents::white_king().piece(), Piece::WhiteKing);
    assert_eq!(SquareContents::black_rook().moved().piece(), Piece::BlackRook);
}

#[test]
fn cancellation_preserves_chess_position() {
    let logic = StandardChessGame;
    let original = BoardState::initial_state_standard_chess();
    let q = ScoreQuality {
        depth: 2,
        quiescence_depth: 1,
        pv_extension_counter: PvExtensionCounter::new(usize::MAX, usize::MAX),
    };
    for polls in [1u64, 10, 100] {
        let mut state = logic.clone_state(&original);
        let mut tt: TranspositionTable<Move> = TranspositionTable::new(8);
        let mut stop = CountdownStop { remaining: polls };
        let mut nodes: u64 = 0;
        let _ = negamax_alphabeta_score(
            &mut stop,
            0,
            &logic,
            &mut state,
            &mut tt,
            q,
            0,
            &mut nodes,
            WithNegInf::NegInf,
            WithPosInf::PosInf,
        );
        assert!(state == original);
        assert_eq!(state.hash_bits(), original.hash_bits());
        assert_eq!(state.move_num, original.move_num);
    }
}

// The directional attacker scan agrees with the definitional one that
// filters the opponent's piece moves.
#[test]
fn attacker_scan_matches_naive_filter() {
    let logic = StandardChessGame;
    let mut game = Game::new(StandardChessGame);
    for ply in 0..6usize {
        let mut state = logic.clone_state(game.state());
        let board = game.state();
        for row in 0..8usize {
            for col in 0..8usize {
                let pos = Pos::from_grid(row, col);
                for side in [Player::First, Player::Second] {
                    // the naive filter cannot see a square held by the
                    // attacking side's own piece, so skip those
                    if board.get(pos).owner() == Some(side.flip()) {
                        continue;
                    }
                    let mut fast: Vec<usize> =
                        logic.attackers(side, board, pos).iter().map(|p| p.idx).collect();
                    let mut naive: Vec<usize> =
                        logic.attackers_naive(side, board, pos).iter().map(|p| p.idx).collect();
                    fast.sort();
                    naive.sort();
                    assert_eq!(fast, naive, "square ({}, {}) ply {}", row, col, ply);
                }
            }
        }
        let moves = logic.generate_moves(&mut state);
        if moves.is_empty() {
            break;
        }
        game.make_move(moves[ply % moves.len()]);
    }
}
