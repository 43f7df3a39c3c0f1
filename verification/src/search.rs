//! The negamax alpha-beta core.
//!
//! [`negamax_alphabeta_score`] searches a position to a given
//! [`ScoreQuality`] against a shared transposition table, returning a
//! fail-soft relative score and the best move found.  Cancellation is
//! cooperative: the stop condition is polled once per node, and on any
//! result — completed or interrupted — the position handed in comes back
//! exactly as it was, every applied move undone.

use vstd::prelude::*;
use crate::game::GameLogic;
use crate::quality::ScoreQuality;
use crate::score::{
    neg_bound_wf, neg_ge_pos, neg_le, neg_lt, pos_bound_wf, rel_ge_pos, rel_le_neg, RelScore,
    WithNegInf, WithPosInf,
};
use crate::tt::{TranspositionTable, TranspositionTableEntry, TranspositionTableEntryFlag};

verus! {

/// Raised when cancellation fires mid-recursion; the interrupted search
/// unwinds without a table write for the aborted frames and is never a
/// hard error.
#[derive(Debug, Clone, Copy, PartialEq, Eq, Structural)]
pub struct SearchInterrupted;

/// A cooperative cancellation signal, polled once per searched node.
/// Nothing is assumed about its verdicts: the search's guarantees hold
/// whatever this returns, whenever it flips.
pub trait StopCondition: Sized {
    /// Whether the search should stop now.
    fn stop(&mut self) -> bool;
}

/// Never stops: search until the quality generator is exhausted.
#[derive(Debug, Clone, Copy)]
pub struct NeverStop;

impl StopCondition for NeverStop {
    fn stop(&mut self) -> bool {
        false
    }
}

/// Stops after a fixed number of polls: a deterministic way to interrupt
/// a search part-way through.
#[derive(Debug, Clone, Copy)]
pub struct CountdownStop {
    pub remaining: u64,
}

impl StopCondition for CountdownStop {
    fn stop(&mut self) -> bool {
        if self.remaining == 0 {
            true
        } else {
            self.remaining = self.remaining - 1;
            false
        }
    }
}

/// A multiplicative-congruential step of the tiny move-ordering generator.
fn rng_next(seed: usize) -> (r: usize)
    ensures
        r == vstd::wrapping::usize_specs::wrapping_add(
            vstd::wrapping::usize_specs::wrapping_mul(seed, 1664525),
            1013904223,
        ),
{
    seed.wrapping_mul(1664525).wrapping_add(1013904223)
}

/// Permute the tail of the move list with a generator seeded only on the
/// worker index, so distinct workers explore in distinct orders while
/// each worker stays deterministic.  Every element of the result is one
/// of the elements handed in.
fn shuffle_moves<M: Copy>(v: &mut Vec<M>, seed: usize)
    ensures
        final(v)@.len() == old(v)@.len(),
        forall|k: int| 0 <= k < final(v)@.len() ==> old(v)@.contains(#[trigger] final(v)@[k]),
{
    let ghost orig = v@;
    let mut seed = seed;
    let len = v.len();
    proof {
        assert forall|k: int| 0 <= k < v@.len() implies orig.contains(#[trigger] v@[k]) by {
            assert(orig[k] == v@[k]);
        }
    }
    if len <= 1 {
        return ;
    }
    let mut i = len - 1;
    while i >= 1
        invariant
            v@.len() == orig.len(),
            v@.len() == len,
            i < len,
            forall|k: int| 0 <= k < v@.len() ==> orig.contains(#[trigger] v@[k]),
        decreases i,
    {
        seed = rng_next(seed);
        let j = (seed >> 16usize) % (i + 1);
        let ghost before = v@;
        let vi = v[i];
        let vj = v[j];
        v.set(i, vj);
        v.set(j, vi);
        proof {
            assert forall|k: int| 0 <= k < v@.len() implies orig.contains(#[trigger] v@[k]) by {
                if k == i as int {
                    assert(v@[k] == before[j as int]);
                } else if k == j as int {
                    assert(v@[k] == before[i as int]);
                } else {
                    assert(v@[k] == before[k]);
                }
            }
        }
        i = i - 1;
    }
}

/// The bound flag a fail-soft result earns: an upper bound when the
/// score never rose above the original alpha, a lower bound when it
/// reached beta, and exact otherwise.
pub fn fail_soft_flag(
    best_score: &WithNegInf<RelScore>,
    orig_alpha: &WithNegInf<RelScore>,
    beta: &WithPosInf<RelScore>,
) -> (r: TranspositionTableEntryFlag)
    ensures
        r == TranspositionTableEntryFlag::UpperBound <==> crate::score::spec_cmp_neg(
            *best_score,
            *orig_alpha,
        ) != core::cmp::Ordering::Greater,
        r == TranspositionTableEntryFlag::LowerBound <==> crate::score::spec_cmp_neg(
            *best_score,
            *orig_alpha,
        ) == core::cmp::Ordering::Greater && (crate::score::spec_cmp_neg_pos(*best_score, *beta)
            == core::cmp::Ordering::Greater || crate::score::spec_cmp_neg_pos(*best_score, *beta)
            == core::cmp::Ordering::Equal),
        r == TranspositionTableEntryFlag::Exact <==> crate::score::spec_cmp_neg(
            *best_score,
            *orig_alpha,
        ) == core::cmp::Ordering::Greater && crate::score::spec_cmp_neg_pos(*best_score, *beta)
            == core::cmp::Ordering::Less,
{
    if neg_le(best_score, orig_alpha) {
        TranspositionTableEntryFlag::UpperBound
    } else if neg_ge_pos(best_score, beta) {
        TranspositionTableEntryFlag::LowerBound
    } else {
        TranspositionTableEntryFlag::Exact
    }
}

/// How many slots of a partially extended score list are still empty.
spec fn count_unset(s: Seq<Option<WithNegInf<RelScore>>>) -> int
    decreases s.len(),
{
    if s.len() == 0 {
        0
    } else {
        count_unset(s.drop_last()) + (if s.last() is None {
            1int
        } else {
            0int
        })
    }
}

proof fn lemma_count_unset_update(s: Seq<Option<WithNegInf<RelScore>>>, i: int)
    requires
        0 <= i < s.len(),
        s[i] is None,
    ensures
        forall|x: WithNegInf<RelScore>|
            count_unset(#[trigger] s.update(i, Some(x))) == count_unset(s) - 1,
        count_unset(s) >= 1,
    decreases s.len(),
{
    assert forall|x: WithNegInf<RelScore>|
        count_unset(#[trigger] s.update(i, Some(x))) == count_unset(s) - 1 by {
        let s2 = s.update(i, Some(x));
        if i == s.len() - 1 {
            assert(s2.drop_last() =~= s.drop_last());
        } else {
            assert(s2.drop_last() =~= s.drop_last().update(i, Some(x)));
            lemma_count_unset_update(s.drop_last(), i);
        }
    }
    if i == s.len() - 1 {
        lemma_count_unset_nonneg(s.drop_last());
    } else {
        lemma_count_unset_update(s.drop_last(), i);
    }
}

proof fn lemma_count_unset_nonneg(s: Seq<Option<WithNegInf<RelScore>>>)
    ensures
        count_unset(s) >= 0,
    decreases s.len(),
{
    if s.len() > 0 {
        lemma_count_unset_nonneg(s.drop_last());
    }
}

/// Search `state` to `score_quality` between the bounds `alpha0` and
/// `beta`, against the shared table `tt`.
///
/// Whatever happens — a completed search, a transposition hit, or a
/// cancellation — the position comes back exactly as it was handed in,
/// and the table keeps its shape.  On success the score is well formed;
/// near the root, where transposition short-circuiting is disabled, any
/// reported move is one the game generated for this very position, and a
/// position with no legal moves comes back as the game's own immediate
/// terminal score.
pub fn negamax_alphabeta_score<S: StopCondition, G: GameLogic>(
    stop: &mut S,
    thread_num: usize,
    logic: &G,
    state: &mut G::State,
    tt: &mut TranspositionTable<G::Move>,
    score_quality: ScoreQuality,
    depth_from_root: usize,
    node_count: &mut u64,
    alpha0: WithNegInf<RelScore>,
    beta: WithPosInf<RelScore>,
) -> (r: Result<(RelScore, Option<G::Move>), SearchInterrupted>)
    requires
        logic.wf_state(old(state)@),
        score_quality.wf(),
        old(tt).wf(),
        neg_bound_wf(alpha0),
        pos_bound_wf(beta),
        depth_from_root + 2 * (score_quality.depth + score_quality.quiescence_depth) + (
        if score_quality.pv_extension_counter.extend_after == 0 {
            1int
        } else {
            0int
        }) <= usize::MAX,
    ensures
        final(state)@ == old(state)@,
        final(tt).wf(),
        final(tt).n == old(tt).n,
        r matches Ok(v) ==> v.0.wf(),
        match r {
            Ok(v) => depth_from_root < 2 ==> match v.1 {
                Some(m) => logic.move_ok(old(state)@, m) && (G::obeys_move_spec()
                    && score_quality.depth > 0 ==> logic.spec_moves(old(state)@).contains(m)) && (
                G::obeys_move_spec() && score_quality.depth == 0
                    ==> logic.spec_quiescence_moves(old(state)@).contains(m)),
                None => true,
            },
            Err(_) => true,
        },
        (G::obeys_move_spec() && G::obeys_score_spec() && depth_from_root < 2
            && score_quality.depth > 0 && logic.spec_moves(old(state)@).len() == 0 && r is Ok)
            ==> r == Ok::<_, SearchInterrupted>(
            (
                logic.spec_score(old(state)@).spec_into_rel(logic.spec_turn(old(state)@)),
                None::<G::Move>,
            ),
        ),
        // a completed search with a move leaves the table answering for
        // this position: either an already admissible entry, or the
        // result just recorded, unless a same-identity entry of a quality
        // this search does not reach kept the slot
        match r {
            Ok(v) => match v.1 {
                Some(_) => !final(tt).spec_store_writes(
                    logic.spec_ident(old(state)@),
                    score_quality,
                ) || match final(tt).spec_probe(logic.spec_ident(old(state)@)) {
                    Some(e) => e.score == v.0 && e.best_move == v.1
                        && e.score_quality.spec_ge(score_quality),
                    None => false,
                },
                None => true,
            },
            Err(_) => true,
        },
    decreases
            score_quality.depth + score_quality.quiescence_depth,
            (if score_quality.pv_extension_counter.extend_after == 0 {
                1int
            } else {
                0int
            }),
{
    if stop.stop() {
        return Err(SearchInterrupted);
    }
    if *node_count < u64::MAX {
        *node_count = *node_count + 1;
    }
    let ghost s0 = state@;
    proof {
        assert(s0 == old(state)@);
    }
    let player = logic.turn(state);
    let orig_alpha = alpha0;
    let mut alpha = alpha0;

    // Transposition-table lookup, disabled for the root and its immediate
    // children: short-circuiting there can blind the search to a won
    // continuation behind a transposition that looks drawn.  This gate is
    // designed to pair with suspending repetition bookkeeping below this
    // depth; no game of this crate tracks repetitions, so there is
    // nothing to suspend here, but a game that does should grow a hook
    // for it, and the two must then change together.
    let mut probable_best_move: Option<G::Move> = None;
    if depth_from_root >= 2 {
        let ident = logic.state_ident(state);
        if let Some(tt_entry) = tt.maybe_get(&ident) {
            let admissible = matches!(
                tt_entry.score_quality.partial_cmp(&score_quality),
                Some(core::cmp::Ordering::Greater) | Some(core::cmp::Ordering::Equal)
            );
            if admissible {
                proof {
                    assert(tt.spec_probe(logic.spec_ident(s0)) == Some(*tt_entry));
                }
                match tt_entry.flag {
                    TranspositionTableEntryFlag::Exact => {
                        return Ok((tt_entry.score, tt_entry.best_move));
                    },
                    TranspositionTableEntryFlag::LowerBound => {
                        if rel_ge_pos(&tt_entry.score, &beta) {
                            return Ok((tt_entry.score, tt_entry.best_move));
                        }
                    },
                    TranspositionTableEntryFlag::UpperBound => {
                        if rel_le_neg(&tt_entry.score, &alpha) {
                            return Ok((tt_entry.score, tt_entry.best_move));
                        }
                    },
                }
                probable_best_move = tt_entry.best_move;
            }
        }
    }

    // Stand pat at the horizon, else full move generation.
    let mut best_score: WithNegInf<RelScore>;
    let moves: Vec<G::Move>;
    if score_quality.depth == 0 {
        let stand_pat = logic.score(state).into_rel(player);
        let sp = WithNegInf::Finite(stand_pat);
        if neg_lt(&alpha, &sp) {
            alpha = sp;
        }
        if neg_ge_pos(&alpha, &beta) {
            return Ok((stand_pat, None));
        }
        if score_quality.quiescence_depth == 0 {
            return Ok((stand_pat, None));
        }
        moves = logic.generate_quiescence_moves(state);
        best_score = sp;
    } else {
        moves = logic.generate_moves(state);
        best_score = WithNegInf::NegInf;
    }

    if moves.is_empty() {
        return Ok((logic.score(state).into_rel(player), None));
    }

    // Order the moves: the cached best move first if the game still
    // generates it, the remainder permuted per worker.
    let mut ordered_moves: Vec<G::Move>;
    let mut hint: Option<G::Move> = None;
    if let Some(pbm) = probable_best_move {
        let mut k: usize = 0;
        while k < moves.len()
            invariant
                k <= moves@.len(),
                hint matches Some(h) ==> h == pbm && moves@.contains(pbm),
            decreases moves@.len() - k,
        {
            if logic.move_eq(&moves[k], &pbm) {
                hint = Some(pbm);
                proof {
                    assert(moves@[k as int] == pbm);
                }
            }
            k += 1;
        }
    }
    if let Some(pbm) = hint {
        let mut rest: Vec<G::Move> = Vec::new();
        let mut k: usize = 0;
        while k < moves.len()
            invariant
                k <= moves@.len(),
                forall|j: int|
                    0 <= j < rest@.len() ==> moves@.contains(#[trigger] rest@[j]),
            decreases moves@.len() - k,
        {
            if !logic.move_eq(&moves[k], &pbm) {
                rest.push(moves[k]);
                proof {
                    assert(moves@.contains(moves@[k as int]));
                }
            }
            k += 1;
        }
        let ghost rest0 = rest@;
        shuffle_moves(&mut rest, thread_num);
        proof {
            assert forall|j: int| 0 <= j < rest@.len() implies moves@.contains(
                #[trigger] rest@[j],
            ) by {
                assert(rest0.contains(rest@[j]));
                let w = choose|w: int| 0 <= w < rest0.len() && rest0[w] == rest@[j];
                assert(moves@.contains(rest0[w]));
            }
        }
        ordered_moves = Vec::new();
        ordered_moves.push(pbm);
        let mut k: usize = 0;
        while k < rest.len()
            invariant
                k <= rest@.len(),
                ordered_moves@.len() == k + 1,
                ordered_moves@[0] == pbm,
                moves@.contains(pbm),
                forall|j: int|
                    0 <= j < rest@.len() ==> moves@.contains(#[trigger] rest@[j]),
                forall|j: int|
                    0 <= j < ordered_moves@.len() ==> moves@.contains(
                        #[trigger] ordered_moves@[j],
                    ),
            decreases rest@.len() - k,
        {
            ordered_moves.push(rest[k]);
            k += 1;
        }
    } else {
        ordered_moves = moves;
        proof {
            assert forall|j: int| 0 <= j < ordered_moves@.len() implies moves@.contains(
                #[trigger] ordered_moves@[j],
            ) by {
                assert(ordered_moves@[j] == moves@[j]);
            }
        }
    }
    proof {
        assert forall|j: int| 0 <= j < ordered_moves@.len() implies logic.move_ok(
            s0,
            #[trigger] ordered_moves@[j],
        ) by {
            let w = choose|w: int| 0 <= w < moves@.len() && moves@[w] == ordered_moves@[j];
            assert(logic.move_ok(s0, moves@[w]));
        }
        if G::obeys_move_spec() && score_quality.depth > 0 {
            assert forall|j: int| 0 <= j < ordered_moves@.len() implies logic.spec_moves(
                s0,
            ).contains(#[trigger] ordered_moves@[j]) by {
                let w = choose|w: int| 0 <= w < moves@.len() && moves@[w] == ordered_moves@[j];
                assert(logic.spec_moves(s0)[w] == ordered_moves@[j]);
            }
        }
        if G::obeys_move_spec() && score_quality.depth == 0 {
            assert forall|j: int| 0 <= j < ordered_moves@.len() implies logic.spec_quiescence_moves(
                s0,
            ).contains(#[trigger] ordered_moves@[j]) by {
                let w = choose|w: int| 0 <= w < moves@.len() && moves@[w] == ordered_moves@[j];
                assert(logic.spec_quiescence_moves(s0)[w] == ordered_moves@[j]);
            }
        }
    }

    // The alpha-beta loop, fail-soft: out-of-window scores are kept as is.
    let n = ordered_moves.len();
    let mut ordered_scores: Vec<WithNegInf<RelScore>> = Vec::new();
    let mut best_move_idx: Option<usize> = None;
    let mut cutoff = false;
    let mut idx: usize = 0;
    while idx < n && !cutoff
        invariant
            cutoff ==> idx >= 1,
            s0 == old(state)@,
            logic.wf_state(s0),
            state@ == s0,
            tt.wf(),
            tt.n == old(tt).n,
            score_quality.wf(),
            score_quality.depth + score_quality.quiescence_depth >= 1,
            depth_from_root + 2 * (score_quality.depth + score_quality.quiescence_depth) + (
            if score_quality.pv_extension_counter.extend_after == 0 {
                1int
            } else {
                0int
            }) <= usize::MAX,
            n == ordered_moves@.len(),
            n >= 1,
            idx <= n,
            ordered_scores@.len() == idx,
            neg_bound_wf(alpha),
            neg_bound_wf(best_score),
            pos_bound_wf(beta),
            forall|j: int|
                0 <= j < ordered_moves@.len() ==> logic.move_ok(s0, #[trigger] ordered_moves@[j]),
            forall|j: int|
                0 <= j < ordered_moves@.len() ==> (G::obeys_move_spec()
                    && score_quality.depth > 0 ==> logic.spec_moves(s0).contains(
                    #[trigger] ordered_moves@[j],
                )),
            forall|j: int|
                0 <= j < ordered_moves@.len() ==> (G::obeys_move_spec()
                    && score_quality.depth == 0 ==> logic.spec_quiescence_moves(s0).contains(
                    #[trigger] ordered_moves@[j],
                )),
            best_move_idx matches Some(i) ==> i < n,
            idx > 0 || score_quality.depth == 0 ==> best_score is Finite,
            forall|j: int|
                0 <= j < ordered_scores@.len() ==> (#[trigger] ordered_scores@[j]) is Finite
                    && neg_bound_wf(ordered_scores@[j]),
        decreases n - idx,
    {
        let mv = ordered_moves[idx];
        let ghost prev_state = state@;
        logic.make_move(state, &mv);
        let next_quality = match score_quality.decrement() {
            Some(q) => q,
            None => unreached(),
        };
        let rec = negamax_alphabeta_score(
            stop,
            thread_num,
            logic,
            state,
            tt,
            next_quality,
            depth_from_root + 1,
            node_count,
            beta.neg(),
            alpha.neg(),
        );
        let child = match rec {
            Ok(v) => v,
            Err(e) => {
                logic.unmake_move(state, &mv, Ghost(prev_state));
                return Err(e);
            },
        };
        let sc = child.0.neg().inc_time();
        logic.unmake_move(state, &mv, Ghost(prev_state));
        let scw = WithNegInf::Finite(sc);
        if neg_lt(&best_score, &scw) {
            best_score = scw;
            best_move_idx = Some(idx);
        }
        if neg_lt(&alpha, &scw) {
            alpha = scw;
        }
        ordered_scores.push(scw);
        idx += 1;
        if neg_ge_pos(&alpha, &beta) {
            cutoff = true;
        }
    }

    // Principal-variation extension: re-search the best child one ply
    // deeper when the schedule says so; re-elect the best child from the
    // mix of first-pass and extended scores; never extend a child twice.
    if !cutoff && score_quality.pv_extension_counter.extend_after == 0 && idx == n {
        if let Some(bmi0) = best_move_idx {
            let mut bmi = bmi0;
            let ext_quality = ScoreQuality {
                depth: score_quality.depth,
                quiescence_depth: score_quality.quiescence_depth,
                pv_extension_counter: score_quality.pv_extension_counter.increment(),
            };
            let mut extended: Vec<Option<WithNegInf<RelScore>>> = Vec::new();
            let mut k: usize = 0;
            while k < n
                invariant
                    k <= n,
                    extended@.len() == k,
                    forall|j: int| 0 <= j < k ==> (#[trigger] extended@[j]) is None,
                decreases n - k,
            {
                extended.push(None);
                k += 1;
            }
            proof {
                lemma_count_unset_nonneg(extended@);
            }
            let mut done = false;
            while !done
                invariant
                    s0 == old(state)@,
                    logic.wf_state(s0),
                    state@ == s0,
                    tt.wf(),
                    tt.n == old(tt).n,
                    score_quality.wf(),
                    ext_quality.wf(),
                    ext_quality.depth == score_quality.depth,
                    ext_quality.quiescence_depth == score_quality.quiescence_depth,
                    ext_quality.pv_extension_counter.extend_after >= 1,
                    score_quality.pv_extension_counter.extend_after == 0,
                    score_quality.depth + score_quality.quiescence_depth >= 1,
                    depth_from_root + 2 * (score_quality.depth + score_quality.quiescence_depth)
                        + 1 <= usize::MAX,
                    n == ordered_moves@.len(),
                    bmi < n,
                    extended@.len() == n,
                    ordered_scores@.len() == n,
                    neg_bound_wf(alpha),
                    neg_bound_wf(best_score),
                    best_score is Finite,
                    pos_bound_wf(beta),
                    forall|j: int|
                        0 <= j < ordered_moves@.len() ==> logic.move_ok(
                            s0,
                            #[trigger] ordered_moves@[j],
                        ),
                    forall|j: int|
                        0 <= j < ordered_scores@.len() ==> (#[trigger] ordered_scores@[j])
                            is Finite && neg_bound_wf(ordered_scores@[j]),
                    forall|j: int|
                        0 <= j < extended@.len() ==> ((#[trigger] extended@[j]) matches Some(v)
                            ==> v is Finite && neg_bound_wf(v)),
                decreases count_unset(extended@) + (if done {
                    0int
                } else {
                    1int
                }),
            {
                proof {
                    lemma_count_unset_nonneg(extended@);
                }
                if matches!(&extended[bmi], Some(_)) {
                    done = true;
                } else {
                    proof {
                        lemma_count_unset_update(extended@, bmi as int);
                    }
                    let mv = ordered_moves[bmi];
                    let ghost prev_state = state@;
                    logic.make_move(state, &mv);
                    let rec = negamax_alphabeta_score(
                        stop,
                        thread_num,
                        logic,
                        state,
                        tt,
                        ext_quality,
                        depth_from_root + 1,
                        node_count,
                        beta.neg(),
                        alpha.neg(),
                    );
                    let child = match rec {
                        Ok(v) => v,
                        Err(e) => {
                            logic.unmake_move(state, &mv, Ghost(prev_state));
                            return Err(e);
                        },
                    };
                    let sc = child.0.neg().inc_time();
                    logic.unmake_move(state, &mv, Ghost(prev_state));
                    let scw = WithNegInf::Finite(sc);
                    extended.set(bmi, Some(scw));
                    if neg_lt(&scw, &best_score) {
                        // the extension lowered the best child: re-elect
                        // from the mixed scores
                        let mut new_bmi: usize = 0;
                        let mut new_best: WithNegInf<RelScore> = match &extended[0] {
                            Some(v) => *v,
                            None => ordered_scores[0],
                        };
                        let mut j: usize = 1;
                        while j < n
                            invariant
                                n == ordered_scores@.len(),
                                n == extended@.len(),
                                1 <= j <= n,
                                new_bmi < j,
                                new_best is Finite,
                                neg_bound_wf(new_best),
                                forall|l: int|
                                    0 <= l < ordered_scores@.len() ==> (
                                    #[trigger] ordered_scores@[l]) is Finite && neg_bound_wf(
                                        ordered_scores@[l],
                                    ),
                                forall|l: int|
                                    0 <= l < extended@.len() ==> ((#[trigger] extended@[l])
                                        matches Some(v) ==> v is Finite && neg_bound_wf(v)),
                            decreases n - j,
                        {
                            let val = match &extended[j] {
                                Some(v) => *v,
                                None => ordered_scores[j],
                            };
                            if neg_lt(&new_best, &val) {
                                new_best = val;
                                new_bmi = j;
                            }
                            j += 1;
                        }
                        best_score = new_best;
                        if new_bmi == bmi {
                            done = true;
                        } else {
                            bmi = new_bmi;
                        }
                    } else {
                        done = true;
                    }
                }
            }
            best_move_idx = Some(bmi);
        }
    }

    let best_move: Option<G::Move> = match best_move_idx {
        Some(i) => Some(ordered_moves[i]),
        None => None,
    };

    // Record the result, with the bound flag fail-soft pruning implies.
    let score = best_score.unwrap_finite();
    let flag = fail_soft_flag(&best_score, &orig_alpha, &beta);
    let ident = logic.state_ident(state);
    let ghost tt_before_store = *tt;
    tt.store(
        ident,
        TranspositionTableEntry { score_quality, score, best_move, flag },
    );
    proof {
        crate::tt::lemma_idx_bounds(tt.n, ident@);
        if tt_before_store.spec_store_writes(ident@, score_quality) {
            crate::quality::lemma_quality_ge_refl(score_quality);
            assert(tt.spec_probe(ident@) == Some(
                TranspositionTableEntry { score_quality, score, best_move, flag },
            ));
        }
    }
    Ok((score, best_move))
}

} // verus!
