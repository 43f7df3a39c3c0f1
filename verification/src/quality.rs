//! How thoroughly a search result was computed.
//!
//! A [`ScoreQuality`] records the nominal depth, the quiescence budget and
//! the principal-variation extension schedule of a search.  Qualities are
//! partially ordered; a higher-ranked quality is treated as at least as
//! trustworthy as a lower one when deciding transposition-table
//! admissibility and when merging findings.  [`ScoreQualityGenerator`]
//! produces the increasing sequence used for iterative deepening.

use vstd::prelude::*;
use core::cmp::Ordering;
use crate::score::spec_cmp_int;

verus! {

/// The quiescence budget never grows beyond this bound, and the nominal
/// depth stops one step past it.
pub const MAX_QUIESCENCE_DEPTH: usize = 100;

/// Schedules selective re-search of the best child: the counter counts
/// down to zero, an extension fires at zero, and incrementing past zero
/// resets the countdown to `reset_to`.
#[derive(Debug, Clone, Copy, PartialEq, Eq, Structural)]
pub struct PvExtensionCounter {
    pub extend_after: usize,
    pub reset_to: usize,
}

impl PvExtensionCounter {
    /// A counter must reset to a positive countdown, so that two
    /// extensions never fire back to back on the same path.
    pub open spec fn wf(self) -> bool {
        self.reset_to >= 1
    }

    /// Build a counter that fires after `extend_after` more notches and
    /// thereafter every `reset_to` notches.
    pub fn new(extend_after: usize, reset_to: usize) -> (r: Self)
        ensures
            r == (PvExtensionCounter { extend_after, reset_to }),
    {
        Self { extend_after, reset_to }
    }

    /// The counter one notch later, at the specification level.
    pub open spec fn spec_increment(self) -> Self {
        if self.extend_after == 0 {
            PvExtensionCounter { extend_after: self.reset_to, ..self }
        } else {
            PvExtensionCounter { extend_after: (self.extend_after - 1) as usize, ..self }
        }
    }

    /// Advance the counter one notch.
    pub fn increment(self) -> (r: Self)
        ensures
            r == self.spec_increment(),
    {
        let mut next = self;
        if next.extend_after == 0 {
            next.extend_after = next.reset_to;
        } else {
            next.extend_after -= 1;
        }
        next
    }

    /// Whether an extension fires right now.
    pub fn do_extension(&self) -> (r: bool)
        ensures
            r == (self.extend_after == 0),
    {
        self.extend_after == 0
    }

    /// Strength order of extension schedules: a larger reset interval and
    /// a smaller pending countdown count as stronger.
    pub open spec fn spec_strength_cmp(self, other: Self) -> Ordering {
        if self.reset_to < other.reset_to {
            Ordering::Less
        } else if self.reset_to > other.reset_to {
            Ordering::Greater
        } else {
            spec_cmp_int(other.extend_after as int, self.extend_after as int)
        }
    }

    /// Compare two schedules by strength.
    pub fn strength_cmp(&self, other: &Self) -> (r: Ordering)
        ensures
            r == self.spec_strength_cmp(*other),
    {
        if self.reset_to < other.reset_to {
            Ordering::Less
        } else if self.reset_to > other.reset_to {
            Ordering::Greater
        } else if other.extend_after < self.extend_after {
            Ordering::Less
        } else if other.extend_after == self.extend_after {
            Ordering::Equal
        } else {
            Ordering::Greater
        }
    }
}

/// Combine two comparisons into their consensus: agreement (treating ties
/// as agreeing with anything) keeps the strict verdict, disagreement
/// yields no order.
pub open spec fn spec_combine_cmp(a: Option<Ordering>, b: Option<Ordering>) -> Option<Ordering> {
    match (a, b) {
        (Some(Ordering::Less), Some(Ordering::Less)) => Some(Ordering::Less),
        (Some(Ordering::Less), Some(Ordering::Equal)) => Some(Ordering::Less),
        (Some(Ordering::Less), Some(Ordering::Greater)) => None,
        (Some(Ordering::Equal), Some(Ordering::Less)) => Some(Ordering::Less),
        (Some(Ordering::Equal), Some(Ordering::Equal)) => Some(Ordering::Equal),
        (Some(Ordering::Equal), Some(Ordering::Greater)) => Some(Ordering::Greater),
        (Some(Ordering::Greater), Some(Ordering::Less)) => None,
        (Some(Ordering::Greater), Some(Ordering::Equal)) => Some(Ordering::Greater),
        (Some(Ordering::Greater), Some(Ordering::Greater)) => Some(Ordering::Greater),
        _ => None,
    }
}

/// Combine two comparisons into their consensus.
pub fn combine_cmp(a: Option<Ordering>, b: Option<Ordering>) -> (r: Option<Ordering>)
    ensures
        r == spec_combine_cmp(a, b),
{
    match (a, b) {
        (Some(Ordering::Less), Some(Ordering::Less)) => Some(Ordering::Less),
        (Some(Ordering::Less), Some(Ordering::Equal)) => Some(Ordering::Less),
        (Some(Ordering::Less), Some(Ordering::Greater)) => None,
        (Some(Ordering::Equal), Some(Ordering::Less)) => Some(Ordering::Less),
        (Some(Ordering::Equal), Some(Ordering::Equal)) => Some(Ordering::Equal),
        (Some(Ordering::Equal), Some(Ordering::Greater)) => Some(Ordering::Greater),
        (Some(Ordering::Greater), Some(Ordering::Less)) => None,
        (Some(Ordering::Greater), Some(Ordering::Equal)) => Some(Ordering::Greater),
        (Some(Ordering::Greater), Some(Ordering::Greater)) => Some(Ordering::Greater),
        _ => None,
    }
}

/// How hard a search result was computed: nominal depth, quiescence
/// budget, and the extension schedule in force.
#[derive(Debug, Clone, Copy, PartialEq, Eq, Structural)]
pub struct ScoreQuality {
    pub depth: usize,
    pub quiescence_depth: usize,
    pub pv_extension_counter: PvExtensionCounter,
}

impl ScoreQuality {
    /// The bounds the generator and the per-ply decrement maintain.
    pub open spec fn wf(self) -> bool {
        &&& self.pv_extension_counter.wf()
        &&& self.depth <= MAX_QUIESCENCE_DEPTH
        &&& self.quiescence_depth <= MAX_QUIESCENCE_DEPTH
    }

    /// The deepest ply the search may reach through quiescence.
    pub fn quiescence_depth(&self) -> (r: usize)
        requires
            self.wf(),
        ensures
            r == self.depth + self.quiescence_depth,
    {
        self.depth + self.quiescence_depth
    }

    /// How many extensions fire during `n` notches of `pvec`.
    pub open spec fn spec_pv_count(pvec: PvExtensionCounter, n: nat) -> nat
        decreases n,
    {
        if n == 0 {
            0
        } else {
            (if pvec.extend_after == 0 {
                1nat
            } else {
                0nat
            }) + Self::spec_pv_count(pvec.spec_increment(), (n - 1) as nat)
        }
    }

    /// No more than one extension can fire per notch.
    pub proof fn lemma_pv_count_le(pvec: PvExtensionCounter, n: nat)
        ensures
            Self::spec_pv_count(pvec, n) <= n,
        decreases n,
    {
        if n > 0 {
            Self::lemma_pv_count_le(pvec.spec_increment(), (n - 1) as nat);
        }
    }

    /// The deepest ply the search may reach along the principal variation,
    /// extensions included.
    pub fn pv_depth(&self) -> (r: usize)
        requires
            self.wf(),
        ensures
            r == self.depth + Self::spec_pv_count(self.pv_extension_counter, self.depth as nat),
    {
        proof {
            Self::lemma_pv_count_le(self.pv_extension_counter, self.depth as nat);
        }
        let mut t: usize = 0;
        let mut pvec = self.pv_extension_counter;
        let mut i: usize = 0;
        while i < self.depth
            invariant
                i <= self.depth,
                self.wf(),
                t + Self::spec_pv_count(pvec, (self.depth - i) as nat) == Self::spec_pv_count(
                    self.pv_extension_counter,
                    self.depth as nat,
                ),
                t <= i,
            decreases self.depth - i,
        {
            proof {
                Self::lemma_pv_count_le(pvec.spec_increment(), (self.depth - i - 1) as nat);
            }
            if pvec.do_extension() {
                t += 1;
            }
            pvec = pvec.increment();
            i += 1;
        }
        self.depth + t
    }

    /// The admissibility order on qualities: first by depth, then by total
    /// quiescence horizon, then by extension-schedule strength; the three
    /// verdicts must agree, else the qualities are incomparable.
    pub open spec fn spec_quality_cmp(self, other: Self) -> Option<Ordering> {
        spec_combine_cmp(
            spec_combine_cmp(
                Some(spec_cmp_int(self.depth as int, other.depth as int)),
                Some(
                    spec_cmp_int(
                        self.depth + self.quiescence_depth,
                        other.depth + other.quiescence_depth,
                    ),
                ),
            ),
            Some(self.pv_extension_counter.spec_strength_cmp(other.pv_extension_counter)),
        )
    }

    /// Whether `self` is at least as trustworthy as `other`.
    pub open spec fn spec_ge(self, other: Self) -> bool {
        self.spec_quality_cmp(other) == Some(Ordering::Greater) || self.spec_quality_cmp(other)
            == Some(Ordering::Equal)
    }
}

impl ScoreQuality {
    /// The total presentation order used to rank findings: nominal depth
    /// first, then the quiescence horizon, then extension-schedule
    /// strength.  It refines the admissibility order: comparable qualities
    /// rank the same way under both.
    pub open spec fn spec_subjective_cmp(self, other: Self) -> Ordering {
        if self.depth != other.depth {
            spec_cmp_int(self.depth as int, other.depth as int)
        } else if self.depth + self.quiescence_depth != other.depth + other.quiescence_depth {
            spec_cmp_int(
                self.depth + self.quiescence_depth,
                other.depth + other.quiescence_depth,
            )
        } else {
            self.pv_extension_counter.spec_strength_cmp(other.pv_extension_counter)
        }
    }

    /// Rank two qualities for presentation, most-searched first.
    pub fn subjective_cmp(&self, other: &Self) -> (r: Ordering)
        ensures
            r == self.spec_subjective_cmp(*other),
    {
        if self.depth != other.depth {
            cmp_usize_q(self.depth, other.depth)
        } else {
            let a = cmp_sum(self.depth, self.quiescence_depth, other.depth, other.quiescence_depth);
            if !matches!(a, Ordering::Equal) {
                a
            } else {
                self.pv_extension_counter.strength_cmp(&other.pv_extension_counter)
            }
        }
    }
}

/// The admissibility order, spelt out: `a` ranks at least as high as `b`
/// exactly when it does so in depth, in quiescence horizon, and in
/// extension-schedule strength at once.
pub proof fn lemma_quality_ge_char(a: ScoreQuality, b: ScoreQuality)
    ensures
        a.spec_ge(b) <==> {
            &&& a.depth >= b.depth
            &&& a.depth + a.quiescence_depth >= b.depth + b.quiescence_depth
            &&& (a.pv_extension_counter.reset_to > b.pv_extension_counter.reset_to
                || (a.pv_extension_counter.reset_to == b.pv_extension_counter.reset_to
                    && a.pv_extension_counter.extend_after <= b.pv_extension_counter.extend_after))
        },
{
}

/// The admissibility order is reflexive.
pub proof fn lemma_quality_ge_refl(a: ScoreQuality)
    ensures
        a.spec_ge(a),
{
}

/// The admissibility order is transitive.
pub proof fn lemma_quality_ge_trans(a: ScoreQuality, b: ScoreQuality, c: ScoreQuality)
    requires
        a.spec_ge(b),
        b.spec_ge(c),
    ensures
        a.spec_ge(c),
{
    lemma_quality_ge_char(a, b);
    lemma_quality_ge_char(b, c);
    lemma_quality_ge_char(a, c);
}

/// The presentation order is reflexive at `Equal`.
pub proof fn lemma_subjective_refl(a: ScoreQuality)
    ensures
        a.spec_subjective_cmp(a) == Ordering::Equal,
{
}

/// The presentation order is asymmetric.
pub proof fn lemma_subjective_asym(a: ScoreQuality, b: ScoreQuality)
    ensures
        (a.spec_subjective_cmp(b) == Ordering::Greater) <==> (b.spec_subjective_cmp(a)
            == Ordering::Less),
{
}

/// The presentation order is transitive in its strict part.
pub proof fn lemma_subjective_trans(a: ScoreQuality, b: ScoreQuality, c: ScoreQuality)
    requires
        a.spec_subjective_cmp(b) == Ordering::Greater,
        b.spec_subjective_cmp(c) == Ordering::Greater,
    ensures
        a.spec_subjective_cmp(c) == Ordering::Greater,
{
}

/// Qualities that tie in the presentation order are mutually admissible:
/// each counts as at least as trustworthy as the other.
pub proof fn lemma_subjective_equal_ge(a: ScoreQuality, b: ScoreQuality)
    requires
        a.spec_subjective_cmp(b) == Ordering::Equal,
    ensures
        a.spec_ge(b),
        b.spec_ge(a),
{
    lemma_quality_ge_char(a, b);
    lemma_quality_ge_char(b, a);
}

impl PartialOrd for ScoreQuality {
    fn partial_cmp(&self, other: &Self) -> (r: Option<Ordering>) {
        combine_cmp(
            combine_cmp(
                Some(cmp_usize_q(self.depth, other.depth)),
                Some(
                    cmp_sum(
                        self.depth,
                        self.quiescence_depth,
                        other.depth,
                        other.quiescence_depth,
                    ),
                ),
            ),
            Some(self.pv_extension_counter.strength_cmp(&other.pv_extension_counter)),
        )
    }
}

impl vstd::std_specs::cmp::PartialOrdSpecImpl for ScoreQuality {
    open spec fn obeys_partial_cmp_spec() -> bool {
        true
    }

    open spec fn partial_cmp_spec(&self, other: &Self) -> Option<Ordering> {
        self.spec_quality_cmp(*other)
    }
}

/// Three-way comparison of two `usize` values.
fn cmp_usize_q(l: usize, r: usize) -> (o: Ordering)
    ensures
        o == spec_cmp_int(l as int, r as int),
{
    if l < r {
        Ordering::Less
    } else if l == r {
        Ordering::Equal
    } else {
        Ordering::Greater
    }
}

/// Three-way comparison of `a1 + a2` against `b1 + b2`, without overflow.
fn cmp_sum(a1: usize, a2: usize, b1: usize, b2: usize) -> (o: Ordering)
    ensures
        o == spec_cmp_int(a1 + a2, b1 + b2),
{
    let left = (a1 as u128) + (a2 as u128);
    let right = (b1 as u128) + (b2 as u128);
    if left < right {
        Ordering::Less
    } else if left == right {
        Ordering::Equal
    } else {
        Ordering::Greater
    }
}

impl ScoreQuality {
    /// The quality one ply further from the root: the nominal depth is
    /// spent first, then the quiescence budget; the extension schedule
    /// advances one notch either way.  Nothing is left once both reach
    /// zero.
    pub open spec fn spec_decrement(self) -> Option<Self> {
        if self.depth > 0 {
            Some(
                ScoreQuality {
                    depth: (self.depth - 1) as usize,
                    quiescence_depth: self.quiescence_depth,
                    pv_extension_counter: self.pv_extension_counter.spec_increment(),
                },
            )
        } else if self.quiescence_depth > 0 {
            Some(
                ScoreQuality {
                    depth: self.depth,
                    quiescence_depth: (self.quiescence_depth - 1) as usize,
                    pv_extension_counter: self.pv_extension_counter.spec_increment(),
                },
            )
        } else {
            None
        }
    }

    /// Spend one ply of this quality.
    pub fn decrement(self) -> (r: Option<Self>)
        ensures
            r == self.spec_decrement(),
            self.wf() ==> (r matches Some(q) ==> q.wf()),
    {
        if self.depth > 0 {
            Some(
                Self {
                    depth: self.depth - 1,
                    quiescence_depth: self.quiescence_depth,
                    pv_extension_counter: self.pv_extension_counter.increment(),
                },
            )
        } else if self.quiescence_depth > 0 {
            Some(
                Self {
                    depth: self.depth,
                    quiescence_depth: self.quiescence_depth - 1,
                    pv_extension_counter: self.pv_extension_counter.increment(),
                },
            )
        } else {
            None
        }
    }

    /// Start the iterative-deepening sequence for one extension policy.
    pub fn generate(pv_extension_counter: PvExtensionCounter) -> (r: ScoreQualityGenerator)
        ensures
            r == (ScoreQualityGenerator { depth: 1usize, quiescence_depth: 1usize, pv_extension_counter }),
            pv_extension_counter.wf() ==> r.wf(),
    {
        ScoreQualityGenerator { depth: 1, quiescence_depth: 1, pv_extension_counter }
    }
}

/// Produces the unbounded deepening sequence: the quiescence budget
/// doubles up to its cap, after which the nominal depth grows by one per
/// step until it too is exhausted.
#[derive(Debug, Clone, Copy, PartialEq, Eq, Structural)]
pub struct ScoreQualityGenerator {
    pub depth: usize,
    pub quiescence_depth: usize,
    pub pv_extension_counter: PvExtensionCounter,
}

impl ScoreQualityGenerator {
    /// The generator stays within one step of the caps, and the depth only
    /// starts to grow once the quiescence budget is full.
    pub open spec fn wf(self) -> bool {
        &&& self.pv_extension_counter.wf()
        &&& 1 <= self.depth <= MAX_QUIESCENCE_DEPTH + 1
        &&& 1 <= self.quiescence_depth <= MAX_QUIESCENCE_DEPTH
        &&& self.depth > 1 ==> self.quiescence_depth == MAX_QUIESCENCE_DEPTH
    }

    /// The emitted quality and successor state, at the specification
    /// level: `None` once the depth is spent.
    pub open spec fn spec_next(self) -> Option<(ScoreQuality, Self)> {
        let q = ScoreQuality {
            depth: self.depth,
            quiescence_depth: self.quiescence_depth,
            pv_extension_counter: self.pv_extension_counter,
        };
        if self.quiescence_depth < MAX_QUIESCENCE_DEPTH {
            let doubled = if 2 * self.quiescence_depth > MAX_QUIESCENCE_DEPTH {
                MAX_QUIESCENCE_DEPTH as usize
            } else {
                (2 * self.quiescence_depth) as usize
            };
            Some((q, ScoreQualityGenerator { quiescence_depth: doubled, ..self }))
        } else if self.depth > MAX_QUIESCENCE_DEPTH {
            None
        } else {
            Some((q, ScoreQualityGenerator { depth: (self.depth + 1) as usize, ..self }))
        }
    }

    /// Emit the next quality of the deepening sequence.
    pub fn next(&mut self) -> (r: Option<ScoreQuality>)
        requires
            old(self).wf(),
        ensures
            final(self).wf(),
            match r {
                Some(q) => old(self).spec_next() == Some((q, *final(self))) && q.wf(),
                None => old(self).spec_next() is None && *final(self) == *old(self),
            },
    {
        let next = ScoreQuality {
            depth: self.depth,
            quiescence_depth: self.quiescence_depth,
            pv_extension_counter: self.pv_extension_counter,
        };
        if self.quiescence_depth < MAX_QUIESCENCE_DEPTH {
            self.quiescence_depth *= 2;
            if self.quiescence_depth > MAX_QUIESCENCE_DEPTH {
                self.quiescence_depth = MAX_QUIESCENCE_DEPTH;
            }
        } else {
            if self.depth > MAX_QUIESCENCE_DEPTH {
                return None;
            }
            self.depth += 1;
        }
        Some(next)
    }
}

} // verus!
