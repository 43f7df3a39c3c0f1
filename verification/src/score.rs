//! Scores of game positions.
//!
//! An [`AbsScore`] judges a position from the first player's point of view;
//! a [`RelScore`] judges it from the point of view of the side to move, as
//! the negamax search requires.  Terminal scores carry the number of plies
//! until the game ends, so that faster wins and slower losses rank higher.
//! [`WithPosInf`] and [`WithNegInf`] adjoin the infinite window bounds used
//! by alpha-beta pruning.

use vstd::prelude::*;
use core::cmp::Ordering;
use crate::game::Player;

verus! {

/// A score from the first player's point of view: a decided outcome or a
/// heuristic judgement (positive values favour the first player).
#[derive(Debug, Clone, Copy)]
pub enum AbsScore {
    SecondPlayerWin,
    Draw,
    FirstPlayerWin,
    Heuristic(i64),
}

impl AbsScore {
    /// A heuristic value must be negatable without overflow.
    pub open spec fn wf(self) -> bool {
        match self {
            AbsScore::Heuristic(v) => v > i64::MIN,
            _ => true,
        }
    }

    /// The same score, relative to `player`, at the specification level.
    pub open spec fn spec_into_rel(self, player: Player) -> RelScore {
        match (player, self) {
            (Player::First, AbsScore::SecondPlayerWin) => RelScore::Terminal(RelTerminal::Lose, 0),
            (Player::First, AbsScore::Draw) => RelScore::Terminal(RelTerminal::Draw, 0),
            (Player::First, AbsScore::FirstPlayerWin) => RelScore::Terminal(RelTerminal::Win, 0),
            (Player::First, AbsScore::Heuristic(v)) => RelScore::Heuristic(v),
            (Player::Second, AbsScore::SecondPlayerWin) => RelScore::Terminal(RelTerminal::Win, 0),
            (Player::Second, AbsScore::Draw) => RelScore::Terminal(RelTerminal::Draw, 0),
            (Player::Second, AbsScore::FirstPlayerWin) => RelScore::Terminal(RelTerminal::Lose, 0),
            (Player::Second, AbsScore::Heuristic(v)) => RelScore::Heuristic(-v as i64),
        }
    }

    /// Turn an absolute score into one relative to the side to move.
    pub fn into_rel(self, player: Player) -> (r: RelScore)
        requires
            self.wf(),
        ensures
            r == self.spec_into_rel(player),
    {
        match (player, self) {
            (Player::First, AbsScore::SecondPlayerWin) => RelScore::Terminal(RelTerminal::Lose, 0),
            (Player::First, AbsScore::Draw) => RelScore::Terminal(RelTerminal::Draw, 0),
            (Player::First, AbsScore::FirstPlayerWin) => RelScore::Terminal(RelTerminal::Win, 0),
            (Player::First, AbsScore::Heuristic(v)) => RelScore::Heuristic(v),
            (Player::Second, AbsScore::SecondPlayerWin) => RelScore::Terminal(RelTerminal::Win, 0),
            (Player::Second, AbsScore::Draw) => RelScore::Terminal(RelTerminal::Draw, 0),
            (Player::Second, AbsScore::FirstPlayerWin) => RelScore::Terminal(RelTerminal::Lose, 0),
            (Player::Second, AbsScore::Heuristic(v)) => RelScore::Heuristic(-v),
        }
    }
}

/// How a finished game ended, for the side to move.
#[derive(Debug, Clone, Copy, PartialEq, Eq, Structural)]
pub enum RelTerminal {
    Lose,
    Draw,
    Win,
}

/// A score relative to the side to move.  A terminal score carries the
/// number of plies between the scored position and the end of the game.
#[derive(Debug, Clone, Copy)]
pub enum RelScore {
    Heuristic(i64),
    Terminal(RelTerminal, usize),
}

/// Three-way comparison of two mathematical integers.
pub open spec fn spec_cmp_int(l: int, r: int) -> Ordering {
    if l < r {
        Ordering::Less
    } else if l == r {
        Ordering::Equal
    } else {
        Ordering::Greater
    }
}

impl RelScore {
    /// The ordering of relative scores, for the side to move:
    /// wins beat everything (sooner wins beat later ones), losses lose to
    /// everything (later losses beat sooner ones), and a draw ties with the
    /// heuristic's neutral point, zero.
    pub open spec fn spec_cmp(self, other: Self) -> Ordering {
        match (self, other) {
            (RelScore::Heuristic(l), RelScore::Heuristic(r)) => spec_cmp_int(l as int, r as int),
            (
                RelScore::Terminal(RelTerminal::Lose, lt),
                RelScore::Terminal(RelTerminal::Lose, rt),
            ) => spec_cmp_int(lt as int, rt as int),
            (
                RelScore::Terminal(RelTerminal::Win, lt),
                RelScore::Terminal(RelTerminal::Win, rt),
            ) => spec_cmp_int(rt as int, lt as int),
            (
                RelScore::Terminal(RelTerminal::Draw, _),
                RelScore::Terminal(RelTerminal::Draw, _),
            ) => Ordering::Equal,
            (RelScore::Terminal(RelTerminal::Win, _), _) => Ordering::Greater,
            (RelScore::Terminal(RelTerminal::Lose, _), _) => Ordering::Less,
            (_, RelScore::Terminal(RelTerminal::Win, _)) => Ordering::Less,
            (_, RelScore::Terminal(RelTerminal::Lose, _)) => Ordering::Greater,
            (RelScore::Heuristic(v), RelScore::Terminal(RelTerminal::Draw, _)) => {
                spec_cmp_int(v as int, 0)
            },
            (RelScore::Terminal(RelTerminal::Draw, _), RelScore::Heuristic(v)) => {
                spec_cmp_int(0, v as int)
            },
        }
    }

    /// Three-way comparison, the executable form of [`Self::spec_cmp`].
    pub fn cmp_score(&self, other: &Self) -> (r: Ordering)
        ensures
            r == self.spec_cmp(*other),
    {
        match (self, other) {
            (RelScore::Heuristic(l), RelScore::Heuristic(r)) => cmp_i64(*l, *r),
            (
                RelScore::Terminal(RelTerminal::Lose, lt),
                RelScore::Terminal(RelTerminal::Lose, rt),
            ) => cmp_usize(*lt, *rt),
            (
                RelScore::Terminal(RelTerminal::Win, lt),
                RelScore::Terminal(RelTerminal::Win, rt),
            ) => cmp_usize(*rt, *lt),
            (
                RelScore::Terminal(RelTerminal::Draw, _),
                RelScore::Terminal(RelTerminal::Draw, _),
            ) => Ordering::Equal,
            (RelScore::Terminal(RelTerminal::Win, _), _) => Ordering::Greater,
            (RelScore::Terminal(RelTerminal::Lose, _), _) => Ordering::Less,
            (_, RelScore::Terminal(RelTerminal::Win, _)) => Ordering::Less,
            (_, RelScore::Terminal(RelTerminal::Lose, _)) => Ordering::Greater,
            (RelScore::Heuristic(v), RelScore::Terminal(RelTerminal::Draw, _)) => cmp_i64(*v, 0),
            (RelScore::Terminal(RelTerminal::Draw, _), RelScore::Heuristic(v)) => cmp_i64(0, *v),
        }
    }

    /// The score one ply earlier: terminal distances grow by one (capped at
    /// the machine limit), heuristic judgements are unchanged.
    pub open spec fn spec_inc_time(self) -> Self {
        match self {
            RelScore::Heuristic(v) => RelScore::Heuristic(v),
            RelScore::Terminal(t, time) => {
                if time < usize::MAX {
                    RelScore::Terminal(t, (time + 1) as usize)
                } else {
                    RelScore::Terminal(t, time)
                }
            },
        }
    }

    /// Account for one ply between this score's position and its parent.
    pub fn inc_time(self) -> (r: Self)
        ensures
            r == self.spec_inc_time(),
    {
        match self {
            RelScore::Heuristic(v) => RelScore::Heuristic(v),
            RelScore::Terminal(t, time) => {
                if time < usize::MAX {
                    RelScore::Terminal(t, time + 1)
                } else {
                    RelScore::Terminal(t, time)
                }
            },
        }
    }

    /// A heuristic value must be negatable without overflow.
    pub open spec fn wf(self) -> bool {
        match self {
            RelScore::Heuristic(v) => v > i64::MIN,
            _ => true,
        }
    }

    /// The same score, seen by the opponent, at the specification level.
    pub open spec fn spec_neg(self) -> Self {
        match self {
            RelScore::Heuristic(v) => RelScore::Heuristic(-v as i64),
            RelScore::Terminal(t, time) => RelScore::Terminal(
                match t {
                    RelTerminal::Lose => RelTerminal::Win,
                    RelTerminal::Draw => RelTerminal::Draw,
                    RelTerminal::Win => RelTerminal::Lose,
                },
                time,
            ),
        }
    }

    /// The same score, seen by the opponent.
    pub fn neg(self) -> (r: Self)
        requires
            self.wf(),
        ensures
            r == self.spec_neg(),
            r.wf(),
    {
        match self {
            RelScore::Heuristic(v) => RelScore::Heuristic(-v),
            RelScore::Terminal(t, time) => RelScore::Terminal(
                match t {
                    RelTerminal::Lose => RelTerminal::Win,
                    RelTerminal::Draw => RelTerminal::Draw,
                    RelTerminal::Win => RelTerminal::Lose,
                },
                time,
            ),
        }
    }
}

/// Three-way comparison of two `i64` values.
fn cmp_i64(l: i64, r: i64) -> (o: Ordering)
    ensures
        o == spec_cmp_int(l as int, r as int),
{
    if l < r {
        Ordering::Less
    } else if l == r {
        Ordering::Equal
    } else {
        Ordering::Greater
    }
}

/// Three-way comparison of two `usize` values.
fn cmp_usize(l: usize, r: usize) -> (o: Ordering)
    ensures
        o == spec_cmp_int(l as int, r as int),
{
    if l < r {
        Ordering::Less
    } else if l == r {
        Ordering::Equal
    } else {
        Ordering::Greater
    }
}

impl PartialEq for RelScore {
    /// Scores are equal when neither orders above the other; a draw ties
    /// with a zero heuristic, whatever the terminal distance.
    fn eq(&self, other: &Self) -> (r: bool) {
        matches!(self.cmp_score(other), Ordering::Equal)
    }
}

impl vstd::std_specs::cmp::PartialEqSpecImpl for RelScore {
    open spec fn obeys_eq_spec() -> bool {
        true
    }

    open spec fn eq_spec(&self, other: &Self) -> bool {
        self.spec_cmp(*other) == Ordering::Equal
    }
}

impl Eq for RelScore {}

impl PartialOrd for RelScore {
    fn partial_cmp(&self, other: &Self) -> (r: Option<Ordering>) {
        Some(self.cmp_score(other))
    }
}

impl vstd::std_specs::cmp::PartialOrdSpecImpl for RelScore {
    open spec fn obeys_partial_cmp_spec() -> bool {
        true
    }

    open spec fn partial_cmp_spec(&self, other: &Self) -> Option<Ordering> {
        Some(self.spec_cmp(*other))
    }
}

/// A value with a greatest element adjoined, for the upper window bound.
#[derive(Debug, Clone, Copy, PartialEq, Eq, PartialOrd, Ord)]
pub enum WithPosInf<T> {
    Finite(T),
    PosInf,
}

/// A value with a least element adjoined, for the lower window bound.
#[derive(Debug, Clone, Copy, PartialEq, Eq, PartialOrd, Ord)]
pub enum WithNegInf<T> {
    NegInf,
    Finite(T),
}

impl<T> WithPosInf<T> {
    /// The finite value held.
    pub fn unwrap_finite(self) -> (r: T)
        requires
            self is Finite,
        ensures
            self == WithPosInf::Finite(r),
    {
        match self {
            WithPosInf::Finite(value) => value,
            WithPosInf::PosInf => unreached(),
        }
    }
}

impl<T> WithNegInf<T> {
    /// The finite value held.
    pub fn unwrap_finite(self) -> (r: T)
        requires
            self is Finite,
        ensures
            self == WithNegInf::Finite(r),
    {
        match self {
            WithNegInf::Finite(value) => value,
            WithNegInf::NegInf => unreached(),
        }
    }
}

/// Whether every heuristic value under the bound is negatable.
pub open spec fn neg_bound_wf(a: WithNegInf<RelScore>) -> bool {
    match a {
        WithNegInf::Finite(s) => s.wf(),
        WithNegInf::NegInf => true,
    }
}

/// Whether every heuristic value under the bound is negatable.
pub open spec fn pos_bound_wf(b: WithPosInf<RelScore>) -> bool {
    match b {
        WithPosInf::Finite(s) => s.wf(),
        WithPosInf::PosInf => true,
    }
}

impl WithPosInf<RelScore> {
    /// The bound seen by the opponent: negated, with infinities swapped.
    pub open spec fn spec_neg(self) -> WithNegInf<RelScore> {
        match self {
            WithPosInf::Finite(v) => WithNegInf::Finite(v.spec_neg()),
            WithPosInf::PosInf => WithNegInf::NegInf,
        }
    }

    /// Negate an upper bound into a lower bound for the opponent.
    pub fn neg(self) -> (r: WithNegInf<RelScore>)
        requires
            pos_bound_wf(self),
        ensures
            r == self.spec_neg(),
            neg_bound_wf(r),
    {
        match self {
            WithPosInf::Finite(v) => WithNegInf::Finite(v.neg()),
            WithPosInf::PosInf => WithNegInf::NegInf,
        }
    }
}

impl WithNegInf<RelScore> {
    /// The bound seen by the opponent: negated, with infinities swapped.
    pub open spec fn spec_neg(self) -> WithPosInf<RelScore> {
        match self {
            WithNegInf::Finite(v) => WithPosInf::Finite(v.spec_neg()),
            WithNegInf::NegInf => WithPosInf::PosInf,
        }
    }

    /// Negate a lower bound into an upper bound for the opponent.
    pub fn neg(self) -> (r: WithPosInf<RelScore>)
        requires
            neg_bound_wf(self),
        ensures
            r == self.spec_neg(),
            pos_bound_wf(r),
    {
        match self {
            WithNegInf::Finite(v) => WithPosInf::Finite(v.neg()),
            WithNegInf::NegInf => WithPosInf::PosInf,
        }
    }
}

impl WithPosInf<i64> {
    /// Negate an upper bound into a lower bound.
    pub fn neg(self) -> (r: WithNegInf<i64>)
        requires
            self matches WithPosInf::Finite(v) ==> v > i64::MIN,
        ensures
            r == (match self {
                WithPosInf::Finite(v) => WithNegInf::Finite((-v) as i64),
                WithPosInf::PosInf => WithNegInf::NegInf,
            }),
    {
        match self {
            WithPosInf::Finite(v) => WithNegInf::Finite(-v),
            WithPosInf::PosInf => WithNegInf::NegInf,
        }
    }
}

impl WithNegInf<i64> {
    /// Negate a lower bound into an upper bound.
    pub fn neg(self) -> (r: WithPosInf<i64>)
        requires
            self matches WithNegInf::Finite(v) ==> v > i64::MIN,
        ensures
            r == (match self {
                WithNegInf::Finite(v) => WithPosInf::Finite((-v) as i64),
                WithNegInf::NegInf => WithPosInf::PosInf,
            }),
    {
        match self {
            WithNegInf::Finite(v) => WithPosInf::Finite(-v),
            WithNegInf::NegInf => WithPosInf::PosInf,
        }
    }
}

impl<T: Ord + vstd::std_specs::cmp::OrdSpec> PartialEq<WithPosInf<T>> for WithNegInf<T> {
    fn eq(&self, other: &WithPosInf<T>) -> (r: bool) {
        match (self, other) {
            (WithNegInf::Finite(left), WithPosInf::Finite(right)) => {
                matches!(left.cmp(right), Ordering::Equal)
            },
            _ => false,
        }
    }
}

impl<T: Ord + vstd::std_specs::cmp::OrdSpec> vstd::std_specs::cmp::PartialEqSpecImpl<WithPosInf<T>> for WithNegInf<T> {
    open spec fn obeys_eq_spec() -> bool {
        T::obeys_cmp_spec()
    }

    open spec fn eq_spec(&self, other: &WithPosInf<T>) -> bool {
        match (*self, *other) {
            (WithNegInf::Finite(left), WithPosInf::Finite(right)) => {
                left.cmp_spec(&right) == Ordering::Equal
            },
            _ => false,
        }
    }
}

impl<T: Ord + vstd::std_specs::cmp::OrdSpec> PartialOrd<WithPosInf<T>> for WithNegInf<T> {
    fn partial_cmp(&self, other: &WithPosInf<T>) -> (r: Option<Ordering>) {
        Some(
            match (self, other) {
                (WithNegInf::Finite(left), WithPosInf::Finite(right)) => left.cmp(right),
                (_, WithPosInf::PosInf) => Ordering::Less,
                (WithNegInf::NegInf, _) => Ordering::Less,
            },
        )
    }
}

impl<T: Ord + vstd::std_specs::cmp::OrdSpec> vstd::std_specs::cmp::PartialOrdSpecImpl<WithPosInf<T>> for WithNegInf<T> {
    open spec fn obeys_partial_cmp_spec() -> bool {
        T::obeys_cmp_spec()
    }

    open spec fn partial_cmp_spec(&self, other: &WithPosInf<T>) -> Option<Ordering> {
        Some(
            match (*self, *other) {
                (WithNegInf::Finite(left), WithPosInf::Finite(right)) => left.cmp_spec(&right),
                (_, WithPosInf::PosInf) => Ordering::Less,
                (WithNegInf::NegInf, _) => Ordering::Less,
            },
        )
    }
}

impl<T: Ord + vstd::std_specs::cmp::OrdSpec> PartialEq<WithNegInf<T>> for WithPosInf<T> {
    fn eq(&self, other: &WithNegInf<T>) -> (r: bool) {
        match (self, other) {
            (WithPosInf::Finite(left), WithNegInf::Finite(right)) => {
                matches!(left.cmp(right), Ordering::Equal)
            },
            _ => false,
        }
    }
}

impl<T: Ord + vstd::std_specs::cmp::OrdSpec> vstd::std_specs::cmp::PartialEqSpecImpl<WithNegInf<T>> for WithPosInf<T> {
    open spec fn obeys_eq_spec() -> bool {
        T::obeys_cmp_spec()
    }

    open spec fn eq_spec(&self, other: &WithNegInf<T>) -> bool {
        match (*self, *other) {
            (WithPosInf::Finite(left), WithNegInf::Finite(right)) => {
                left.cmp_spec(&right) == Ordering::Equal
            },
            _ => false,
        }
    }
}

impl<T: Ord + vstd::std_specs::cmp::OrdSpec> PartialOrd<WithNegInf<T>> for WithPosInf<T> {
    fn partial_cmp(&self, other: &WithNegInf<T>) -> (r: Option<Ordering>) {
        Some(
            match (self, other) {
                (WithPosInf::Finite(left), WithNegInf::Finite(right)) => left.cmp(right),
                (_, WithNegInf::NegInf) => Ordering::Greater,
                (WithPosInf::PosInf, _) => Ordering::Greater,
            },
        )
    }
}

impl<T: Ord + vstd::std_specs::cmp::OrdSpec> vstd::std_specs::cmp::PartialOrdSpecImpl<WithNegInf<T>> for WithPosInf<T> {
    open spec fn obeys_partial_cmp_spec() -> bool {
        T::obeys_cmp_spec()
    }

    open spec fn partial_cmp_spec(&self, other: &WithNegInf<T>) -> Option<Ordering> {
        Some(
            match (*self, *other) {
                (WithPosInf::Finite(left), WithNegInf::Finite(right)) => left.cmp_spec(&right),
                (_, WithNegInf::NegInf) => Ordering::Greater,
                (WithPosInf::PosInf, _) => Ordering::Greater,
            },
        )
    }
}

/// Ordering between a lower-bound value and an upper-bound value; the two
/// infinities never meet, so the result is `Less` whenever either is
/// infinite.
pub open spec fn spec_cmp_neg_pos(a: WithNegInf<RelScore>, b: WithPosInf<RelScore>) -> Ordering {
    match (a, b) {
        (WithNegInf::Finite(l), WithPosInf::Finite(r)) => l.spec_cmp(r),
        (_, WithPosInf::PosInf) => Ordering::Less,
        (WithNegInf::NegInf, _) => Ordering::Less,
    }
}

/// Ordering of two lower-bound values.
pub open spec fn spec_cmp_neg(a: WithNegInf<RelScore>, b: WithNegInf<RelScore>) -> Ordering {
    match (a, b) {
        (WithNegInf::Finite(l), WithNegInf::Finite(r)) => l.spec_cmp(r),
        (WithNegInf::NegInf, WithNegInf::NegInf) => Ordering::Equal,
        (WithNegInf::NegInf, _) => Ordering::Less,
        (_, WithNegInf::NegInf) => Ordering::Greater,
    }
}

/// Whether the lower bound `a` has reached or passed the upper bound `b`.
pub fn neg_ge_pos(a: &WithNegInf<RelScore>, b: &WithPosInf<RelScore>) -> (r: bool)
    ensures
        r == (spec_cmp_neg_pos(*a, *b) == Ordering::Greater
            || spec_cmp_neg_pos(*a, *b) == Ordering::Equal),
{
    match (a, b) {
        (WithNegInf::Finite(l), WithPosInf::Finite(r)) => {
            !matches!(l.cmp_score(r), Ordering::Less)
        },
        (_, WithPosInf::PosInf) => false,
        (WithNegInf::NegInf, _) => false,
    }
}

/// Whether the lower bound `a` is strictly below `b`.
pub fn neg_lt(a: &WithNegInf<RelScore>, b: &WithNegInf<RelScore>) -> (r: bool)
    ensures
        r == (spec_cmp_neg(*a, *b) == Ordering::Less),
{
    match (a, b) {
        (WithNegInf::Finite(l), WithNegInf::Finite(r)) => {
            matches!(l.cmp_score(r), Ordering::Less)
        },
        (WithNegInf::NegInf, WithNegInf::NegInf) => false,
        (WithNegInf::NegInf, _) => true,
        (_, WithNegInf::NegInf) => false,
    }
}

/// Whether the lower bound `a` is at or below `b`.
pub fn neg_le(a: &WithNegInf<RelScore>, b: &WithNegInf<RelScore>) -> (r: bool)
    ensures
        r == (spec_cmp_neg(*a, *b) != Ordering::Greater),
{
    match (a, b) {
        (WithNegInf::Finite(l), WithNegInf::Finite(r)) => {
            !matches!(l.cmp_score(r), Ordering::Greater)
        },
        (WithNegInf::NegInf, _) => true,
        (_, WithNegInf::NegInf) => false,
    }
}

/// Whether the finite score `s` has reached or passed the upper bound `b`.
pub fn rel_ge_pos(s: &RelScore, b: &WithPosInf<RelScore>) -> (r: bool)
    ensures
        r == (spec_cmp_neg_pos(WithNegInf::Finite(*s), *b) == Ordering::Greater
            || spec_cmp_neg_pos(WithNegInf::Finite(*s), *b) == Ordering::Equal),
{
    match b {
        WithPosInf::Finite(r_) => !matches!(s.cmp_score(r_), Ordering::Less),
        WithPosInf::PosInf => false,
    }
}

/// Whether the finite score `s` is at or below the lower bound `a`.
pub fn rel_le_neg(s: &RelScore, a: &WithNegInf<RelScore>) -> (r: bool)
    ensures
        r == (spec_cmp_neg(WithNegInf::Finite(*s), *a) != Ordering::Greater),
{
    match a {
        WithNegInf::Finite(l) => !matches!(s.cmp_score(l), Ordering::Greater),
        WithNegInf::NegInf => false,
    }
}

} // verus!
