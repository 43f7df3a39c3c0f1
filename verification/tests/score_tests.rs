use gamesearch::score::{AbsScore, RelScore, RelTerminal, WithNegInf, WithPosInf};
use gamesearch::game::Player;

#[test]
fn test() {
    assert!(WithNegInf::Finite(0i64) > WithNegInf::NegInf);
    assert!(WithNegInf::NegInf < WithNegInf::Finite(0i64));
    assert!(WithPosInf::Finite(0i64) < WithPosInf::PosInf);
    assert!(WithPosInf::PosInf > WithPosInf::Finite(0i64));
    assert!(WithNegInf::Finite(-1i64) < WithPosInf::Finite(1i64));
    assert!(WithPosInf::Finite(1i64) > WithNegInf::Finite(-1i64));
    assert!(WithNegInf::Finite(0i64) < WithPosInf::PosInf);
    assert!(WithNegInf::NegInf < WithPosInf::Finite(0i64));
    assert!(WithNegInf::<i64>::NegInf < WithPosInf::PosInf);
    assert_eq!(WithPosInf::<i64>::PosInf, WithNegInf::<i64>::NegInf.neg());
    assert_eq!(WithPosInf::<i64>::PosInf.neg(), WithNegInf::NegInf);
    assert_eq!(WithPosInf::Finite(-1i64), WithNegInf::<i64>::Finite(1i64).neg());

    assert!(RelScore::Heuristic(-1) < RelScore::Terminal(RelTerminal::Draw, 0));
}

#[test]
fn relative_score_ordering() {
    // wins beat everything, sooner wins beat later ones
    assert!(RelScore::Terminal(RelTerminal::Win, 1) > RelScore::Terminal(RelTerminal::Win, 3));
    assert!(RelScore::Terminal(RelTerminal::Win, 9) > RelScore::Heuristic(1_000_000));
    // losses lose to everything, later losses beat sooner ones
    assert!(RelScore::Terminal(RelTerminal::Lose, 3) > RelScore::Terminal(RelTerminal::Lose, 1));
    assert!(RelScore::Terminal(RelTerminal::Lose, 9) < RelScore::Heuristic(-1_000_000));
    // a draw ties with the neutral heuristic, whatever its distance
    assert!(RelScore::Terminal(RelTerminal::Draw, 2) == RelScore::Heuristic(0));
    assert!(RelScore::Terminal(RelTerminal::Draw, 2) == RelScore::Terminal(RelTerminal::Draw, 7));
    assert!(RelScore::Heuristic(1) > RelScore::Terminal(RelTerminal::Draw, 0));
}

#[test]
fn absolute_to_relative() {
    assert_eq!(
        AbsScore::FirstPlayerWin.into_rel(Player::First),
        RelScore::Terminal(RelTerminal::Win, 0)
    );
    assert_eq!(
        AbsScore::FirstPlayerWin.into_rel(Player::Second),
        RelScore::Terminal(RelTerminal::Lose, 0)
    );
    assert_eq!(
        AbsScore::SecondPlayerWin.into_rel(Player::First),
        RelScore::Terminal(RelTerminal::Lose, 0)
    );
    assert_eq!(AbsScore::Draw.into_rel(Player::Second), RelScore::Terminal(RelTerminal::Draw, 0));
    assert_eq!(AbsScore::Heuristic(42).into_rel(Player::First), RelScore::Heuristic(42));
    assert_eq!(AbsScore::Heuristic(42).into_rel(Player::Second), RelScore::Heuristic(-42));
}

#[test]
fn score_negation_and_time() {
    assert_eq!(
        RelScore::Terminal(RelTerminal::Win, 2).neg(),
        RelScore::Terminal(RelTerminal::Lose, 2)
    );
    assert_eq!(RelScore::Heuristic(7).neg(), RelScore::Heuristic(-7));
    assert_eq!(
        RelScore::Terminal(RelTerminal::Win, 2).inc_time(),
        RelScore::Terminal(RelTerminal::Win, 3)
    );
    assert_eq!(RelScore::Heuristic(7).inc_time(), RelScore::Heuristic(7));
}

#[test]
fn player_flip() {
    assert_eq!(Player::First.flip(), Player::Second);
    assert_eq!(Player::Second.flip(), Player::First);
}
