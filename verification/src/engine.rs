//! The cooperative search engine: one persistent transposition table per
//! running game, an iterative-deepening loop driven in time slices, and
//! the aggregated findings exposed as non-blocking snapshot reads.

use vstd::prelude::*;
use crate::findings::{covers, AllSearchFindings, SearchFindingLabel, SearchFindings};
use crate::game::{Game, GameLogic};
use crate::quality::{PvExtensionCounter, ScoreQuality, ScoreQualityGenerator};
use crate::score::{WithNegInf, WithPosInf};
use crate::search::{negamax_alphabeta_score, StopCondition};
use crate::sys::{available_memory_bytes, now_micros};
use crate::tt::{TranspositionTable, TranspositionTableItem};

verus! {

/// Stops once the wall clock passes a deadline.
#[derive(Debug, Clone, Copy)]
pub struct DeadlineStop {
    pub deadline_micros: i64,
}

impl StopCondition for DeadlineStop {
    fn stop(&mut self) -> bool {
        now_micros() > self.deadline_micros
    }
}

/// The largest exponent `n`, at most 31, such that `2^(n+1)` slots still
/// fit in the given budget — so a table of `2^n` slots uses at most half
/// of it.
pub fn table_size_exponent(max_entries: u64) -> (n: usize)
    ensures
        n <= 31,
        n < 31 ==> (1u64 << ((n + 1) as u64)) > max_entries,
        n > 0 ==> (1u64 << (n as u64)) <= max_entries,
{
    let mut n: usize = 0;
    while n < 31
        invariant
            n <= 31,
            n > 0 ==> (1u64 << (n as u64)) <= max_entries,
        decreases 31 - n,
    {
        proof {
            let nn = n as u64;
            assert(1u64 << ((nn + 1) as u64) > 0) by (bit_vector)
                requires
                    nn < 31u64,
            ;
        }
        if (1u64 << ((n + 1) as u64)) <= max_entries {
            n += 1;
        } else {
            return n;
        }
    }
    n
}

/// What survives from one position to the next: the transposition table,
/// sized once from the memory available when the game began.
#[derive(Debug)]
pub struct AlphaBetaPersistent<M> {
    pub transpositions: TranspositionTable<M>,
}

impl<M> AlphaBetaPersistent<M> {
    /// Size the table so that about ninety percent of the memory available
    /// right now would hold twice its slots, and allocate it empty.
    pub fn new() -> (r: Self)
        ensures
            r.transpositions.wf(),
            forall|i: int|
                0 <= i < r.transpositions.entries@.len() ==> r.transpositions.entries@[i] is None,
    {
        let available = available_memory_bytes();
        let budget = (((available as u128) * 90) / 100) as u64;
        let bytes_per_entry_raw = core::mem::size_of::<Option<TranspositionTableItem<M>>>();
        let bytes_per_entry: u64 = if bytes_per_entry_raw == 0 {
            1
        } else if bytes_per_entry_raw as u64 > u64::MAX {
            u64::MAX
        } else {
            bytes_per_entry_raw as u64
        };
        let max_tt_entries = budget / bytes_per_entry;
        let n = table_size_exponent(max_tt_entries);
        Self { transpositions: TranspositionTable::new(n) }
    }

    /// A table of `2^n` slots, for callers that want to pick the size
    /// themselves.
    pub fn with_table_exponent(n: usize) -> (r: Self)
        requires
            n <= 31,
        ensures
            r.transpositions.wf(),
            r.transpositions.n == n,
            forall|i: int|
                0 <= i < r.transpositions.entries@.len() ==> r.transpositions.entries@[i] is None,
    {
        Self { transpositions: TranspositionTable::new(n) }
    }
}

/// The extension policy a worker of the ensemble searches under: one
/// never extends, one always extends, the rest cycle at intermediate
/// ratios, so the workers diversify what they explore.
pub fn policy_for_worker(i: usize) -> (r: PvExtensionCounter)
    ensures
        r.wf(),
        r == match i {
            0usize => PvExtensionCounter { extend_after: 0usize, reset_to: 1usize },
            1usize => PvExtensionCounter { extend_after: usize::MAX, reset_to: usize::MAX },
            2usize => PvExtensionCounter { extend_after: 0usize, reset_to: 2usize },
            3usize => PvExtensionCounter { extend_after: 1usize, reset_to: 2usize },
            4usize => PvExtensionCounter { extend_after: 0usize, reset_to: 3usize },
            5usize => PvExtensionCounter { extend_after: 1usize, reset_to: 3usize },
            6usize => PvExtensionCounter { extend_after: 2usize, reset_to: 3usize },
            _ => PvExtensionCounter { extend_after: usize::MAX, reset_to: usize::MAX },
        },
{
    match i {
        0 => PvExtensionCounter::new(0, 1),
        1 => PvExtensionCounter::new(usize::MAX, usize::MAX),
        2 => PvExtensionCounter::new(0, 2),
        3 => PvExtensionCounter::new(1, 2),
        4 => PvExtensionCounter::new(0, 3),
        5 => PvExtensionCounter::new(1, 3),
        6 => PvExtensionCounter::new(2, 3),
        _ => PvExtensionCounter::new(usize::MAX, usize::MAX),
    }
}

/// A cooperative, single-threaded engine: driven once per caller tick
/// with a deadline instead of an atomic stop flag, it runs iterative
/// deepening against its persistent table and keeps the best findings so
/// far available at any time.
pub struct AlphaBeta<G: GameLogic> {
    pub game: Option<Game<G>>,
    pub pv_extension_counter: PvExtensionCounter,
    pub score_quality_generator: ScoreQualityGenerator,
    pub score_quality: Option<ScoreQuality>,
    pub node_count: u64,
    pub search_findings: AllSearchFindings<G::Move>,
    pub persistent: AlphaBetaPersistent<G::Move>,
}

impl<G: GameLogic> AlphaBeta<G> {
    /// All parts in working order.
    pub open spec fn wf(self) -> bool {
        &&& match self.game {
            Some(g) => g.wf(),
            None => true,
        }
        &&& self.pv_extension_counter.wf()
        &&& self.score_quality_generator.wf()
        &&& match self.score_quality {
            Some(q) => q.wf(),
            None => true,
        }
        &&& self.search_findings.wf()
        &&& self.persistent.transpositions.wf()
    }

    /// The deepening sequence stands at its very first emission for the
    /// engine's own policy.
    pub open spec fn deepening_restarted(self) -> bool {
        match self.score_quality {
            Some(q) => (ScoreQualityGenerator {
                depth: 1usize,
                quiescence_depth: 1usize,
                pv_extension_counter: self.pv_extension_counter,
            }).spec_next() == Some((q, self.score_quality_generator)),
            None => false,
        }
    }

    /// A fresh engine with no position yet, its table sized from the
    /// memory available now, and extension disabled (the single worker
    /// gets the plain policy).
    pub fn new() -> (r: Self)
        ensures
            r.wf(),
            r.game is None,
            r.pv_extension_counter == (PvExtensionCounter {
                extend_after: usize::MAX,
                reset_to: usize::MAX,
            }),
            r.deepening_restarted(),
            r.node_count == 0,
            r.search_findings.all_findings@.len() == 0,
            forall|i: int|
                0 <= i < r.persistent.transpositions.entries@.len()
                    ==> r.persistent.transpositions.entries@[i] is None,
    {
        let pv_extension_counter = PvExtensionCounter::new(usize::MAX, usize::MAX);
        let mut score_quality_generator = ScoreQuality::generate(pv_extension_counter);
        let score_quality = score_quality_generator.next();
        Self {
            game: None,
            pv_extension_counter,
            score_quality_generator,
            score_quality,
            node_count: 0,
            search_findings: AllSearchFindings::new(),
            persistent: AlphaBetaPersistent::new(),
        }
    }

    /// A fresh engine with a caller-sized table and a chosen extension
    /// policy.
    pub fn with_policy_and_table(policy: PvExtensionCounter, table_exponent: usize) -> (r: Self)
        requires
            policy.wf(),
            table_exponent <= 31,
        ensures
            r.wf(),
            r.game is None,
            r.pv_extension_counter == policy,
            r.deepening_restarted(),
            r.node_count == 0,
            r.search_findings.all_findings@.len() == 0,
            forall|i: int|
                0 <= i < r.persistent.transpositions.entries@.len()
                    ==> r.persistent.transpositions.entries@[i] is None,
    {
        let mut score_quality_generator = ScoreQuality::generate(policy);
        let score_quality = score_quality_generator.next();
        Self {
            game: None,
            pv_extension_counter: policy,
            score_quality_generator,
            score_quality,
            node_count: 0,
            search_findings: AllSearchFindings::new(),
            persistent: AlphaBetaPersistent::with_table_exponent(table_exponent),
        }
    }

    /// Start searching a new position: restart the deepening sequence and
    /// forget prior findings, but carry the transposition table forward so
    /// cached sub-results survive across the moves of one game.
    pub fn set_game(&mut self, game: Game<G>)
        requires
            old(self).wf(),
            game.wf(),
        ensures
            final(self).wf(),
            final(self).game == Some(game),
            final(self).persistent == old(self).persistent,
            final(self).pv_extension_counter == old(self).pv_extension_counter,
            final(self).deepening_restarted(),
            final(self).node_count == 0,
            final(self).search_findings.all_findings@.len() == 0,
    {
        let mut score_quality_generator = ScoreQuality::generate(self.pv_extension_counter);
        self.score_quality = score_quality_generator.next();
        self.score_quality_generator = score_quality_generator;
        self.node_count = 0;
        self.search_findings = AllSearchFindings::new();
        self.game = Some(game);
    }

    /// Run one search iteration at the current quality, merge a completed
    /// result, and advance the deepening sequence.  Returns false — and
    /// leaves the sequence where it was — when there is nothing to do or
    /// the iteration was cancelled; the position being searched is
    /// untouched either way.
    pub fn search_step<S: StopCondition>(&mut self, stop: &mut S) -> (r: bool)
        requires
            old(self).wf(),
        ensures
            final(self).wf(),
            final(self).game == old(self).game,
            final(self).pv_extension_counter == old(self).pv_extension_counter,
            final(self).persistent.transpositions.n == old(self).persistent.transpositions.n,
            covers(
                final(self).search_findings.all_findings@,
                old(self).search_findings.all_findings@,
            ),
            r ==> match old(self).score_quality {
                Some(q) => final(self).search_findings.all_findings@ == old(
                    self,
                ).search_findings.all_findings@ || exists|j: int|
                    0 <= j < final(self).search_findings.all_findings@.len() && (
                    #[trigger] final(self).search_findings.all_findings@[j]).score_quality.spec_ge(
                        q,
                    ),
                None => false,
            },
            r ==> (final(self).score_quality_generator.depth
                == old(self).score_quality_generator.depth
                && final(self).score_quality_generator.quiescence_depth > old(
                self,
            ).score_quality_generator.quiescence_depth) || (
            final(self).score_quality_generator.depth > old(
                self,
            ).score_quality_generator.depth),
            !r ==> final(self).score_quality_generator == old(self).score_quality_generator,
    {
        let quality = match self.score_quality {
            Some(q) => q,
            None => {
                proof {
                    crate::findings::lemma_covers_refl(self.search_findings.all_findings@);
                }
                return false;
            },
        };
        let completed = match &self.game {
            Some(game) => {
                let logic = game.logic();
                let mut state = logic.clone_state(game.state());
                let mut node_count: u64 = 0;
                let result = negamax_alphabeta_score(
                    stop,
                    0,
                    logic,
                    &mut state,
                    &mut self.persistent.transpositions,
                    quality,
                    0,
                    &mut node_count,
                    WithNegInf::NegInf,
                    WithPosInf::PosInf,
                );
                match result {
                    Ok((score, best_move_at_depth)) => {
                        self.node_count = self.node_count.saturating_add(node_count);
                        if let Some(best_move) = best_move_at_depth {
                            self.search_findings.update(
                                SearchFindings { score_quality: quality, score, best_move },
                            );
                        }
                        true
                    },
                    Err(_) => false,
                }
            },
            None => false,
        };
        proof {
            if self.search_findings.all_findings@ == old(self).search_findings.all_findings@ {
                crate::findings::lemma_covers_refl(self.search_findings.all_findings@);
            }
        }
        if completed {
            let ghost g0 = self.score_quality_generator;
            match self.score_quality_generator.next() {
                Some(q) => {
                    self.score_quality = Some(q);
                    proof {
                        let g1 = self.score_quality_generator;
                        assert(g0.spec_next() == Some((q, g1)));
                        assert((g1.depth == g0.depth && g1.quiescence_depth > g0.quiescence_depth)
                            || g1.depth > g0.depth);
                    }
                    true
                },
                None => {
                    // the deepening sequence is exhausted: nothing further
                    // to search
                    self.score_quality = None;
                    false
                },
            }
        } else {
            false
        }
    }

    /// Think until the deadline passes, the stop condition fires, or the
    /// deepening sequence is exhausted, whichever comes first.  The
    /// position being searched comes back untouched.
    pub fn think_until<S: StopCondition>(&mut self, stop: &mut S)
        requires
            old(self).wf(),
        ensures
            final(self).wf(),
            final(self).game == old(self).game,
            final(self).persistent.transpositions.n == old(self).persistent.transpositions.n,
            covers(
                final(self).search_findings.all_findings@,
                old(self).search_findings.all_findings@,
            ),
    {
        proof {
            crate::findings::lemma_covers_refl(self.search_findings.all_findings@);
        }
        let mut running = true;
        while running
            invariant
                self.wf(),
                self.game == old(self).game,
                self.persistent.transpositions.n == old(self).persistent.transpositions.n,
                covers(
                    self.search_findings.all_findings@,
                    old(self).search_findings.all_findings@,
                ),
            decreases
                    crate::quality::MAX_QUIESCENCE_DEPTH + 1
                        - self.score_quality_generator.depth,
                    crate::quality::MAX_QUIESCENCE_DEPTH
                        - self.score_quality_generator.quiescence_depth,
                    (if running {
                        1int
                    } else {
                        0int
                    }),
        {
            if stop.stop() {
                running = false;
            } else {
                let ghost before = self.search_findings.all_findings@;
                let advanced = self.search_step(stop);
                proof {
                    crate::findings::lemma_covers_trans(
                        old(self).search_findings.all_findings@,
                        before,
                        self.search_findings.all_findings@,
                    );
                }
                if !advanced {
                    running = false;
                }
            }
        }
    }

    /// Think for about the given number of microseconds of wall-clock
    /// time.
    pub fn think(&mut self, max_time_micros: i64)
        requires
            old(self).wf(),
        ensures
            final(self).wf(),
            final(self).game == old(self).game,
            final(self).persistent.transpositions.n == old(self).persistent.transpositions.n,
            covers(
                final(self).search_findings.all_findings@,
                old(self).search_findings.all_findings@,
            ),
    {
        let now = now_micros();
        let deadline_micros = match now.checked_add(max_time_micros) {
            Some(d) => d,
            None => i64::MAX,
        };
        let mut stop = DeadlineStop { deadline_micros };
        self.think_until(&mut stop);
    }

    /// The best moves found so far, most-searched first, each with its
    /// quality figures and score: a non-blocking snapshot, empty before
    /// the first iteration completes.
    pub fn best_moves(&self) -> (r: Vec<(SearchFindingLabel, G::Move)>)
        requires
            self.wf(),
        ensures
            r@.len() == self.search_findings.all_findings@.len(),
            forall|i: int|
                0 <= i < r@.len() ==> (#[trigger] r@[i]).1
                    == self.search_findings.all_findings@[i].best_move && r@[i].0
                    == AllSearchFindings::<G::Move>::spec_label(
                    self.search_findings.all_findings@[i],
                ),
    {
        self.search_findings.best_moves()
    }

    /// The single best move found so far, if any iteration has completed:
    /// the move of the top retained finding, nothing before the first.
    pub fn best_move(&self) -> (r: Option<G::Move>)
        requires
            self.wf(),
        ensures
            r == (if self.search_findings.all_findings@.len() > 0 {
                Some(self.search_findings.all_findings@[0].best_move)
            } else {
                None::<G::Move>
            }),
    {
        if self.search_findings.all_findings.len() > 0 {
            Some(self.search_findings.all_findings[0].best_move)
        } else {
            None
        }
    }
}

} // verus!
