//! The findings aggregator: the Pareto frontier of completed searches.
//!
//! Each completed search iteration reports a finding — the quality it was
//! computed at, the score, and the best move.  The aggregator keeps only
//! findings that no other retained finding dominates under the quality
//! admissibility order, sorted most-searched first for presentation.
//! Merging is commutative and idempotent, so the surviving set does not
//! depend on the order in which workers finish.

use vstd::prelude::*;
use core::cmp::Ordering;
use crate::quality::{
    lemma_quality_ge_trans, lemma_subjective_asym, lemma_subjective_equal_ge,
    lemma_subjective_refl, lemma_subjective_trans, ScoreQuality,
};
use crate::score::RelScore;

verus! {

/// One reportable result of a completed search iteration.
#[derive(Debug, Clone, Copy)]
pub struct SearchFindings<M> {
    pub score_quality: ScoreQuality,
    pub score: RelScore,
    pub best_move: M,
}

/// No retained finding is dominated by another retained finding.
pub open spec fn undominated<M>(s: Seq<SearchFindings<M>>) -> bool {
    forall|i: int, j: int|
        0 <= i < s.len() && 0 <= j < s.len() && i != j ==> !(#[trigger] s[j].score_quality).spec_ge(
            #[trigger] s[i].score_quality,
        )
}

/// Strictly descending in the presentation order: most-searched first.
pub open spec fn sorted_desc<M>(s: Seq<SearchFindings<M>>) -> bool {
    forall|i: int, j: int|
        0 <= i < j < s.len() ==> (#[trigger] s[i].score_quality.spec_subjective_cmp(
            s[j].score_quality,
        )) == Ordering::Greater
}

/// Every finding of `older` is covered by some finding of `newer` of at
/// least its quality: nothing once reported is ever lost outright.
pub open spec fn covers<M>(newer: Seq<SearchFindings<M>>, older: Seq<SearchFindings<M>>) -> bool {
    forall|k: int|
        0 <= k < older.len() ==> exists|j: int|
            0 <= j < newer.len() && (#[trigger] newer[j]).score_quality.spec_ge(
                (#[trigger] older[k]).score_quality,
            )
}

/// A set of findings covers itself.
pub proof fn lemma_covers_refl<M>(s: Seq<SearchFindings<M>>)
    ensures
        covers(s, s),
{
    assert forall|k: int| 0 <= k < s.len() implies exists|j: int|
        0 <= j < s.len() && (#[trigger] s[j]).score_quality.spec_ge(
            (#[trigger] s[k]).score_quality,
        ) by {
        crate::quality::lemma_quality_ge_refl(s[k].score_quality);
        assert(0 <= k < s.len() && s[k].score_quality.spec_ge(s[k].score_quality));
    }
}

/// Coverage composes across successive merges.
pub proof fn lemma_covers_trans<M>(
    a: Seq<SearchFindings<M>>,
    b: Seq<SearchFindings<M>>,
    c: Seq<SearchFindings<M>>,
)
    requires
        covers(b, a),
        covers(c, b),
    ensures
        covers(c, a),
{
    assert forall|k: int| 0 <= k < a.len() implies exists|j: int|
        0 <= j < c.len() && (#[trigger] c[j]).score_quality.spec_ge(
            (#[trigger] a[k]).score_quality,
        ) by {
        let jb = choose|jb: int|
            0 <= jb < b.len() && (#[trigger] b[jb]).score_quality.spec_ge(a[k].score_quality);
        let jc = choose|jc: int|
            0 <= jc < c.len() && (#[trigger] c[jc]).score_quality.spec_ge(b[jb].score_quality);
        lemma_quality_ge_trans(c[jc].score_quality, b[jb].score_quality, a[k].score_quality);
        assert(0 <= jc < c.len() && c[jc].score_quality.spec_ge(a[k].score_quality));
    }
}

/// The label presented beside a reported move: the quality figures of the
/// finding and its score.  Turning these numbers into text is left to the
/// caller.
#[derive(Debug, Clone, Copy)]
pub struct SearchFindingLabel {
    pub depth: usize,
    pub pv_depth: usize,
    pub extend_after: usize,
    pub reset_to: usize,
    pub quiescence_depth: usize,
    pub score: RelScore,
}

/// The set of findings retained for reporting.
#[derive(Debug)]
pub struct AllSearchFindings<M> {
    pub all_findings: Vec<SearchFindings<M>>,
}

impl<M: Copy> AllSearchFindings<M> {
    /// The retained set is never mutually dominated, and is kept sorted
    /// for presentation.
    pub open spec fn wf(self) -> bool {
        &&& undominated(self.all_findings@)
        &&& sorted_desc(self.all_findings@)
        &&& forall|i: int|
            0 <= i < self.all_findings@.len() ==> (#[trigger] self.all_findings@[i]).score_quality.wf()
    }

    /// An aggregator with nothing reported yet.
    pub fn new() -> (r: Self)
        ensures
            r.wf(),
            r.all_findings@.len() == 0,
    {
        Self { all_findings: Vec::new() }
    }

    /// The label of one finding, at the specification level: every field
    /// is a figure of its quality, plus the score.
    pub open spec fn spec_label(f: SearchFindings<M>) -> SearchFindingLabel {
        SearchFindingLabel {
            depth: f.score_quality.depth,
            pv_depth: (f.score_quality.depth + ScoreQuality::spec_pv_count(
                f.score_quality.pv_extension_counter,
                f.score_quality.depth as nat,
            )) as usize,
            extend_after: f.score_quality.pv_extension_counter.extend_after,
            reset_to: f.score_quality.pv_extension_counter.reset_to,
            quiescence_depth: (f.score_quality.depth + f.score_quality.quiescence_depth) as usize,
            score: f.score,
        }
    }

    /// The retained findings, most-searched first, each annotated with its
    /// quality figures and score.
    pub fn best_moves(&self) -> (r: Vec<(SearchFindingLabel, M)>)
        requires
            self.wf(),
        ensures
            r@.len() == self.all_findings@.len(),
            forall|i: int|
                0 <= i < r@.len() ==> (#[trigger] r@[i]).1 == self.all_findings@[i].best_move
                    && r@[i].0 == Self::spec_label(self.all_findings@[i]),
    {
        let mut out: Vec<(SearchFindingLabel, M)> = Vec::new();
        let mut i: usize = 0;
        while i < self.all_findings.len()
            invariant
                self.wf(),
                i <= self.all_findings@.len(),
                out@.len() == i,
                forall|k: int|
                    0 <= k < i ==> (#[trigger] out@[k]).1 == self.all_findings@[k].best_move
                        && out@[k].0 == Self::spec_label(self.all_findings@[k]),
            decreases self.all_findings@.len() - i,
        {
            let f = &self.all_findings[i];
            let label = SearchFindingLabel {
                depth: f.score_quality.depth,
                pv_depth: f.score_quality.pv_depth(),
                extend_after: f.score_quality.pv_extension_counter.extend_after,
                reset_to: f.score_quality.pv_extension_counter.reset_to,
                quiescence_depth: f.score_quality.quiescence_depth(),
                score: f.score,
            };
            out.push((label, f.best_move));
            i += 1;
        }
        out
    }

    /// Merge one finding: append it, drop everything the surviving set
    /// dominates until no retained finding is dominated by another, and
    /// keep the survivors sorted most-searched first.  Every finding ever
    /// submitted stays covered by some survivor of at least its quality.
    pub fn update(&mut self, new_findings: SearchFindings<M>)
        requires
            old(self).wf(),
            new_findings.score_quality.wf(),
        ensures
            final(self).wf(),
            forall|k: int|
                0 <= k < final(self).all_findings@.len() ==> old(self).all_findings@.contains(
                    #[trigger] final(self).all_findings@[k],
                ) || final(self).all_findings@[k] == new_findings,
            forall|k: int|
                0 <= k < old(self).all_findings@.len() ==> exists|j: int|
                    0 <= j < final(self).all_findings@.len() && (
                    #[trigger] final(self).all_findings@[j]).score_quality.spec_ge(
                        (#[trigger] old(self).all_findings@[k]).score_quality,
                    ),
            exists|j: int|
                0 <= j < final(self).all_findings@.len() && (
                #[trigger] final(self).all_findings@[j]).score_quality.spec_ge(
                    new_findings.score_quality,
                ),
            (exists|j: int|
                0 <= j < final(self).all_findings@.len() && final(self).all_findings@[j]
                    == new_findings) || (forall|k: int|
                0 <= k < final(self).all_findings@.len()
                    ==> !new_findings.score_quality.spec_ge(
                    (#[trigger] final(self).all_findings@[k]).score_quality,
                )),
    {
        let ghost t = self.all_findings@;
        let mut kept: Vec<SearchFindings<M>> = Vec::new();
        let ghost mut idxs: Seq<int> = Seq::empty();
        let mut dominated = false;
        let n = self.all_findings.len();
        let mut i: usize = 0;
        while i < n
            invariant
                old(self).wf(),
                new_findings.score_quality.wf(),
                self.all_findings@ == t,
                n == t.len(),
                i <= n,
                idxs.len() == kept@.len(),
                forall|k: int, l: int|
                    0 <= k < l < idxs.len() ==> #[trigger] idxs[k] < #[trigger] idxs[l],
                forall|k: int|
                    0 <= k < idxs.len() ==> 0 <= #[trigger] idxs[k] < i && kept@[k] == t[idxs[k]],
                forall|k: int|
                    0 <= k < kept@.len() ==> !new_findings.score_quality.spec_ge(
                        (#[trigger] kept@[k]).score_quality,
                    ),
                // every examined element is kept or dominated by the new finding
                forall|m: int|
                    0 <= m < i ==> kept@.contains(#[trigger] t[m])
                        || new_findings.score_quality.spec_ge(t[m].score_quality),
                dominated <==> exists|k: int|
                    0 <= k < kept@.len() && (#[trigger] kept@[k]).score_quality.spec_ge(
                        new_findings.score_quality,
                    ),
            decreases n - i,
        {
            let x = self.all_findings[i];
            let ghost kept_old = kept@;
            let drop_x = matches!(
                new_findings.score_quality.partial_cmp(&x.score_quality),
                Some(Ordering::Greater) | Some(Ordering::Equal)
            );
            if !drop_x {
                let dom_x = matches!(
                    x.score_quality.partial_cmp(&new_findings.score_quality),
                    Some(Ordering::Greater) | Some(Ordering::Equal)
                );
                let ghost was_dominated = dominated;
                kept.push(x);
                proof {
                    idxs = idxs.push(i as int);
                    if was_dominated {
                        let w = choose|w: int|
                            0 <= w < kept_old.len() && (#[trigger] kept_old[w]).score_quality.spec_ge(
                                new_findings.score_quality,
                            );
                        assert(kept@[w] == kept_old[w]);
                        assert(0 <= w < kept@.len() && kept@[w].score_quality.spec_ge(
                            new_findings.score_quality,
                        ));
                    }
                    assert(kept@[kept_old.len() as int] == x);
                    assert forall|m: int| 0 <= m < i implies kept@.contains(#[trigger] t[m])
                        || new_findings.score_quality.spec_ge(t[m].score_quality) by {
                        if kept_old.contains(t[m]) {
                            let w = choose|w: int|
                                0 <= w < kept_old.len() && kept_old[w] == t[m];
                            assert(kept@[w] == t[m]);
                        }
                    }
                    assert(kept@.contains(t[i as int]));
                }
                if dom_x {
                    dominated = true;
                    proof {
                        assert(kept@[kept_old.len() as int].score_quality.spec_ge(
                            new_findings.score_quality,
                        ));
                    }
                } else {
                    proof {
                        if !dominated && exists|k: int|
                            0 <= k < kept@.len() && (#[trigger] kept@[k]).score_quality.spec_ge(
                                new_findings.score_quality,
                            ) {
                            let k = choose|k: int|
                                0 <= k < kept@.len() && (
                                #[trigger] kept@[k]).score_quality.spec_ge(
                                    new_findings.score_quality,
                                );
                            if k < kept_old.len() {
                                assert(0 <= k < kept_old.len()
                                    && kept_old[k].score_quality.spec_ge(
                                    new_findings.score_quality,
                                ));
                                assert(false);
                            } else {
                                assert(kept@[k] == x);
                                assert(false);
                            }
                        }
                    }
                }
            }
            i += 1;
        }
        proof {
            // the kept survivors are still sorted and mutually undominated
            assert forall|k: int, l: int| 0 <= k < l < kept@.len() implies (
            #[trigger] kept@[k].score_quality.spec_subjective_cmp(kept@[l].score_quality))
                == Ordering::Greater by {
                assert(kept@[k] == t[idxs[k]] && kept@[l] == t[idxs[l]] && idxs[k] < idxs[l]);
            }
            assert forall|k: int, l: int|
                0 <= k < kept@.len() && 0 <= l < kept@.len() && k != l implies !(
            #[trigger] kept@[l].score_quality).spec_ge((#[trigger] kept@[k]).score_quality) by {
                assert(kept@[k] == t[idxs[k]] && kept@[l] == t[idxs[l]] && idxs[k] != idxs[l]);
            }
        }
        let ghost kept_pruned = kept@;
        let ghost mut np: int = 0;
        if !dominated {
            let p = insert_position(&kept, &new_findings);
            proof {
                // the element at the insert position, if any, ranks strictly
                // below the new finding
                if p < kept.len() {
                    let cp = kept@[p as int].score_quality.spec_subjective_cmp(
                        new_findings.score_quality,
                    );
                    if cp == Ordering::Equal {
                        lemma_subjective_equal_ge(
                            kept@[p as int].score_quality,
                            new_findings.score_quality,
                        );
                        assert(exists|k: int|
                            0 <= k < kept@.len() && (#[trigger] kept@[k]).score_quality.spec_ge(
                                new_findings.score_quality,
                            ));
                        assert(false);
                    }
                    lemma_subjective_asym(
                        new_findings.score_quality,
                        kept@[p as int].score_quality,
                    );
                    assert(new_findings.score_quality.spec_subjective_cmp(
                        kept@[p as int].score_quality,
                    ) == Ordering::Greater);
                }
            }
            let ghost kept_before = kept@;
            kept.insert(p, new_findings);
            proof {
                kept_before.insert_ensures(p as int, new_findings);
                np = p as int;
                // sortedness across the inserted element
                assert forall|k: int, l: int| 0 <= k < l < kept@.len() implies (
                #[trigger] kept@[k].score_quality.spec_subjective_cmp(kept@[l].score_quality))
                    == Ordering::Greater by {
                    if k < np && l == np {
                        assert(kept@[k] == kept_before[k]);
                    } else if k == np && l > np {
                        assert(kept@[l] == kept_before[l - 1]);
                        if l - 1 > np {
                            lemma_subjective_trans(
                                new_findings.score_quality,
                                kept_before[np].score_quality,
                                kept_before[l - 1].score_quality,
                            );
                        }
                    } else if k < np && l > np {
                        assert(kept@[k] == kept_before[k] && kept@[l] == kept_before[l - 1]);
                    } else if l < np {
                        assert(kept@[k] == kept_before[k] && kept@[l] == kept_before[l]);
                    } else {
                        assert(kept@[k] == kept_before[k - 1] && kept@[l] == kept_before[l - 1]);
                    }
                }
                // no mutual domination across the inserted element
                assert forall|k: int, l: int|
                    0 <= k < kept@.len() && 0 <= l < kept@.len() && k != l implies !(
                #[trigger] kept@[l].score_quality).spec_ge((#[trigger] kept@[k]).score_quality) by {
                    if k != np && l != np {
                        let k0 = if k < np {
                            k
                        } else {
                            k - 1
                        };
                        let l0 = if l < np {
                            l
                        } else {
                            l - 1
                        };
                        assert(kept@[k] == kept_before[k0] && kept@[l] == kept_before[l0]);
                    } else if k == np {
                        let l0 = if l < np {
                            l
                        } else {
                            l - 1
                        };
                        assert(kept@[l] == kept_before[l0]);
                    } else {
                        let k0 = if k < np {
                            k
                        } else {
                            k - 1
                        };
                        assert(kept@[k] == kept_before[k0]);
                    }
                }
                // the pruned survivors all remain present
                assert forall|m: int| 0 <= m < kept_pruned.len() implies kept@.contains(
                    #[trigger] kept_pruned[m],
                ) by {
                    if m < np {
                        assert(kept@[m] == kept_pruned[m]);
                    } else {
                        assert(kept@[m + 1] == kept_pruned[m]);
                    }
                }
                assert(kept@[np] == new_findings);
            }
        } else {
            proof {
                assert forall|m: int| 0 <= m < kept_pruned.len() implies kept@.contains(
                    #[trigger] kept_pruned[m],
                ) by {
                    assert(kept@[m] == kept_pruned[m]);
                }
            }
        }
        self.all_findings = kept;
        proof {
            let fin = self.all_findings@;
            // provenance: each survivor is an old finding or the new one
            assert forall|k: int|
                0 <= k < fin.len() implies t.contains(#[trigger] fin[k]) || fin[k] == new_findings
                by {
                if exists|m: int| 0 <= m < kept_pruned.len() && kept_pruned[m] == fin[k] {
                    let m = choose|m: int| 0 <= m < kept_pruned.len() && kept_pruned[m] == fin[k];
                    assert(t[idxs[m]] == fin[k]);
                } else {
                    if dominated {
                        assert(fin[k] == kept_pruned[k]);
                        assert(false);
                    } else {
                        if k != np {
                            let k0 = if k < np {
                                k
                            } else {
                                k - 1
                            };
                            assert(fin[k] == kept_pruned[k0]);
                            assert(false);
                        }
                    }
                }
            }
            // quality well-formedness of each survivor
            assert forall|k: int| 0 <= k < fin.len() implies (
            #[trigger] fin[k]).score_quality.wf() by {
                if t.contains(fin[k]) {
                    let m = choose|m: int| 0 <= m < t.len() && t[m] == fin[k];
                    assert(old(self).all_findings@[m].score_quality.wf());
                }
            }
            // some survivor covers the new finding
            if dominated {
                let k = choose|k: int|
                    0 <= k < kept_pruned.len() && (#[trigger] kept_pruned[k]).score_quality.spec_ge(
                        new_findings.score_quality,
                    );
                assert(fin[k] == kept_pruned[k]);
                assert(0 <= k < fin.len() && fin[k].score_quality.spec_ge(
                    new_findings.score_quality,
                ));
            } else {
                crate::quality::lemma_quality_ge_refl(new_findings.score_quality);
                assert(0 <= np < fin.len() && fin[np] == new_findings);
                assert(fin[np].score_quality.spec_ge(new_findings.score_quality));
            }
            // every old finding remains covered by a survivor
            assert forall|k: int| 0 <= k < t.len() implies exists|j: int|
                0 <= j < fin.len() && (#[trigger] fin[j]).score_quality.spec_ge(
                    (#[trigger] t[k]).score_quality,
                ) by {
                if kept_pruned.contains(t[k]) {
                    let m = choose|m: int| 0 <= m < kept_pruned.len() && kept_pruned[m] == t[k];
                    crate::quality::lemma_quality_ge_refl(t[k].score_quality);
                    assert(fin.contains(kept_pruned[m]));
                    let j2 = choose|j2: int| 0 <= j2 < fin.len() && fin[j2] == t[k];
                    assert(0 <= j2 < fin.len() && fin[j2].score_quality.spec_ge(
                        t[k].score_quality,
                    ));
                } else {
                    // the new finding dominates the dropped one, and some
                    // survivor covers the new finding
                    let j = choose|j: int|
                        0 <= j < fin.len() && (#[trigger] fin[j]).score_quality.spec_ge(
                            new_findings.score_quality,
                        );
                    lemma_quality_ge_trans(
                        fin[j].score_quality,
                        new_findings.score_quality,
                        t[k].score_quality,
                    );
                    assert(0 <= j < fin.len() && fin[j].score_quality.spec_ge(
                        t[k].score_quality,
                    ));
                }
            }
        }
    }
}

/// Two strictly sorted sequences holding the same findings are identical.
proof fn lemma_sorted_unique<M>(s1: Seq<SearchFindings<M>>, s2: Seq<SearchFindings<M>>)
    requires
        sorted_desc(s1),
        sorted_desc(s2),
        forall|x: SearchFindings<M>| s1.contains(x) <==> s2.contains(x),
    ensures
        s1 == s2,
    decreases s1.len(),
{
    if s1.len() == 0 {
        if s2.len() > 0 {
            assert(s2.contains(s2[0]));
            assert(s1.contains(s2[0]));
            assert(false);
        }
        assert(s1 =~= s2);
    } else {
        assert(s1.contains(s1[0]));
        assert(s2.contains(s1[0]));
        let m = choose|m: int| 0 <= m < s2.len() && s2[m] == s1[0];
        assert(s2.contains(s2[0]));
        assert(s1.contains(s2[0]));
        let m2 = choose|m2: int| 0 <= m2 < s1.len() && s1[m2] == s2[0];
        if m > 0 && m2 > 0 {
            assert(s2[0].score_quality.spec_subjective_cmp(s2[m].score_quality)
                == Ordering::Greater);
            assert(s1[0].score_quality.spec_subjective_cmp(s1[m2].score_quality)
                == Ordering::Greater);
            lemma_subjective_asym(s1[0].score_quality, s2[0].score_quality);
            assert(false);
        }
        assert(s1[0] == s2[0]);
        let t1 = s1.subrange(1, s1.len() as int);
        let t2 = s2.subrange(1, s2.len() as int);
        assert forall|i: int, j: int| 0 <= i < j < t1.len() implies (
        #[trigger] t1[i].score_quality.spec_subjective_cmp(t1[j].score_quality))
            == Ordering::Greater by {
            assert(t1[i] == s1[i + 1] && t1[j] == s1[j + 1]);
        }
        assert forall|i: int, j: int| 0 <= i < j < t2.len() implies (
        #[trigger] t2[i].score_quality.spec_subjective_cmp(t2[j].score_quality))
            == Ordering::Greater by {
            assert(t2[i] == s2[i + 1] && t2[j] == s2[j + 1]);
        }
        assert forall|x: SearchFindings<M>| t1.contains(x) implies t2.contains(x) by {
            let w = choose|w: int| 0 <= w < t1.len() && t1[w] == x;
            assert(s1[w + 1] == x);
            assert(s1.contains(x));
            assert(s2.contains(x));
            let j = choose|j: int| 0 <= j < s2.len() && s2[j] == x;
            if j == 0 {
                assert(s1[0] == x);
                assert(s1[0].score_quality.spec_subjective_cmp(s1[w + 1].score_quality)
                    == Ordering::Greater);
                lemma_subjective_refl(x.score_quality);
                assert(false);
            }
            assert(t2[j - 1] == x);
        }
        assert forall|x: SearchFindings<M>| t2.contains(x) implies t1.contains(x) by {
            let w = choose|w: int| 0 <= w < t2.len() && t2[w] == x;
            assert(s2[w + 1] == x);
            assert(s2.contains(x));
            assert(s1.contains(x));
            let j = choose|j: int| 0 <= j < s1.len() && s1[j] == x;
            if j == 0 {
                assert(s2[0] == x);
                assert(s2[0].score_quality.spec_subjective_cmp(s2[w + 1].score_quality)
                    == Ordering::Greater);
                lemma_subjective_refl(x.score_quality);
                assert(false);
            }
            assert(t1[j - 1] == x);
        }
        lemma_sorted_unique(t1, t2);
        assert(s1.len() == s2.len());
        assert forall|i: int| 0 <= i < s1.len() implies s1[i] == s2[i] by {
            if i > 0 {
                assert(t1[i - 1] == s1[i] && t2[i - 1] == s2[i]);
            }
        }
        assert(s1 =~= s2);
    }
}

/// Aggregator idempotence: submitting the same finding twice leaves the
/// surviving set unchanged.
///
/// `t` is a retained sequence produced by an update that submitted `f`
/// (the first four premises are that update's postconditions), and `u` is
/// a retained sequence produced by submitting `f` once more to `t` (the
/// remaining premises are the second update's postconditions).  Then `u`
/// is exactly `t`: the same findings in the same order.
pub proof fn lemma_update_idempotent<M>(
    t: Seq<SearchFindings<M>>,
    u: Seq<SearchFindings<M>>,
    f: SearchFindings<M>,
)
    requires
        undominated(t),
        sorted_desc(t),
        exists|j: int|
            0 <= j < t.len() && (#[trigger] t[j]).score_quality.spec_ge(f.score_quality),
        (exists|j: int| 0 <= j < t.len() && t[j] == f) || (forall|k: int|
            0 <= k < t.len() ==> !f.score_quality.spec_ge((#[trigger] t[k]).score_quality)),
        undominated(u),
        sorted_desc(u),
        forall|k: int| 0 <= k < u.len() ==> t.contains(#[trigger] u[k]) || u[k] == f,
        forall|k: int|
            0 <= k < t.len() ==> exists|j: int|
                0 <= j < u.len() && (#[trigger] u[j]).score_quality.spec_ge(
                    (#[trigger] t[k]).score_quality,
                ),
    ensures
        u == t,
{
    // every retained finding survives the repeat submission
    assert forall|k: int| 0 <= k < t.len() implies u.contains(#[trigger] t[k]) by {
        let j = choose|j: int|
            0 <= j < u.len() && (#[trigger] u[j]).score_quality.spec_ge(t[k].score_quality);
        if t.contains(u[j]) {
            let m = choose|m: int| 0 <= m < t.len() && t[m] == u[j];
            if m != k {
                assert(t[m].score_quality.spec_ge(t[k].score_quality));
                assert(false);
            }
            assert(u[j] == t[k]);
        } else {
            assert(u[j] == f);
            if exists|j2: int| 0 <= j2 < t.len() && t[j2] == f {
                let m = choose|m: int| 0 <= m < t.len() && t[m] == f;
                if m != k {
                    assert(t[m].score_quality.spec_ge(t[k].score_quality));
                    assert(false);
                }
                assert(u[j] == t[k]);
            } else {
                assert(!f.score_quality.spec_ge(t[k].score_quality));
                assert(false);
            }
        }
    }
    // and nothing else appears
    assert forall|k: int| 0 <= k < u.len() implies t.contains(#[trigger] u[k]) by {
        if u[k] == f && !t.contains(f) {
            let j = choose|j: int|
                0 <= j < t.len() && (#[trigger] t[j]).score_quality.spec_ge(f.score_quality);
            assert(u.contains(t[j]));
            let m = choose|m: int| 0 <= m < u.len() && u[m] == t[j];
            if m == k {
                assert(t.contains(u[k]));
                assert(false);
            }
            assert(u[m].score_quality.spec_ge(u[k].score_quality));
            assert(false);
        }
    }
    assert forall|x: SearchFindings<M>| t.contains(x) implies u.contains(x) by {
        let k = choose|k: int| 0 <= k < t.len() && t[k] == x;
        assert(u.contains(t[k]));
    }
    assert forall|x: SearchFindings<M>| u.contains(x) implies t.contains(x) by {
        let k = choose|k: int| 0 <= k < u.len() && u[k] == x;
        assert(t.contains(u[k]));
    }
    lemma_sorted_unique(t, u);
}

/// The sorted position for a new finding: the first index whose quality
/// does not rank above the new one.
fn insert_position<M: Copy>(kept: &Vec<SearchFindings<M>>, new_findings: &SearchFindings<M>) -> (p:
    usize)
    requires
        sorted_desc(kept@),
    ensures
        p <= kept@.len(),
        forall|k: int|
            0 <= k < p ==> (#[trigger] kept@[k].score_quality.spec_subjective_cmp(
                new_findings.score_quality,
            )) == Ordering::Greater,
        p < kept@.len() ==> kept@[p as int].score_quality.spec_subjective_cmp(
            new_findings.score_quality,
        ) != Ordering::Greater,
{
    let mut p: usize = 0;
    while p < kept.len()
        invariant
            p <= kept@.len(),
            forall|k: int|
                0 <= k < p ==> (#[trigger] kept@[k].score_quality.spec_subjective_cmp(
                    new_findings.score_quality,
                )) == Ordering::Greater,
        decreases kept@.len() - p,
    {
        let c = kept[p].score_quality.subjective_cmp(&new_findings.score_quality);
        if !matches!(c, Ordering::Greater) {
            return p;
        }
        p += 1;
    }
    p
}

} // verus!
