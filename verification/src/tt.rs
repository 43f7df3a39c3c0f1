//! The transposition table: a fixed-capacity, direct-mapped cache from
//! state identity to a bounded search result.
//!
//! A probe is read-only and returns a hit only when the stored identity
//! equals the queried one (a cheap digest comparison first, then the exact
//! words).  A store evicts whatever else occupies the slot: a colliding
//! distinct state unconditionally replaces the prior occupant, trading
//! some depth loss under contention for constant-time, bounded memory.

use vstd::prelude::*;
use crate::quality::ScoreQuality;
use crate::score::RelScore;

verus! {

/// One Feistel round on 32-bit halves: multiply by an odd constant,
/// rotate, mix the high bits back in.
pub open spec fn spec_round_f(x: u32, k: u32) -> u32 {
    let m = vstd::wrapping::u32_specs::wrapping_mul(x, k);
    let rot = (m << 13u32) | (m >> 19u32);
    rot ^ (x >> 5u32)
}

fn round_f(x: u32, k: u32) -> (r: u32)
    ensures
        r == spec_round_f(x, k),
{
    let m = x.wrapping_mul(k);
    let rot = (m << 13u32) | (m >> 19u32);
    rot ^ (x >> 5u32)
}

/// A fast bijective mixing of 64 bits, as a three-round Feistel network on
/// 32-bit halves.
pub open spec fn spec_hash64(v: u64) -> u64 {
    let l0 = (v >> 32u64) as u32;
    let r0 = v as u32;
    let l1 = l0 ^ spec_round_f(r0, 0x9E3779B1u32);
    let r1 = r0 ^ spec_round_f(l1, 0xC2B2AE35u32);
    let l2 = l1 ^ spec_round_f(r1, 0x165667B1u32);
    ((r1 as u64) << 32u64) | (l2 as u64)
}

/// Mix 64 bits bijectively, so that nearby identities spread over the
/// table's slots.
pub fn hash64(v: u64) -> (r: u64)
    ensures
        r == spec_hash64(v),
{
    let mut l: u32 = (v >> 32u64) as u32;
    let mut r_: u32 = v as u32;
    let t = round_f(r_, 0x9E3779B1u32);
    l ^= t;
    let t = round_f(l, 0xC2B2AE35u32);
    r_ ^= t;
    let t = round_f(r_, 0x165667B1u32);
    l ^= t;
    ((r_ as u64) << 32u64) | (l as u64)
}

/// The identity of a game state, as the collaborating game reports it: a
/// fixed sequence of words, equal exactly when the game considers the two
/// states interchangeable for caching.
#[derive(Debug, Clone, PartialEq, Eq)]
pub struct StateIdent {
    pub words: Vec<u64>,
}

impl View for StateIdent {
    type V = Seq<u64>;

    open spec fn view(&self) -> Seq<u64> {
        self.words@
    }
}

/// The digest an identity hashes to, at the specification level.
pub open spec fn spec_ident_digest(s: Seq<u64>) -> u64
    decreases s.len(),
{
    if s.len() == 0 {
        0
    } else {
        spec_hash64(spec_ident_digest(s.drop_last()) ^ s.last())
    }
}

impl StateIdent {
    /// Wrap the given words as an identity.
    pub fn new(words: Vec<u64>) -> (r: Self)
        ensures
            r@ == words@,
    {
        StateIdent { words }
    }

    /// The cheap first-stage digest of this identity.
    pub fn digest(&self) -> (r: u64)
        ensures
            r == spec_ident_digest(self@),
    {
        let mut h: u64 = 0;
        let mut i: usize = 0;
        while i < self.words.len()
            invariant
                i <= self.words.len(),
                h == spec_ident_digest(self@.take(i as int)),
            decreases self.words.len() - i,
        {
            proof {
                assert(self@.take(i + 1int).drop_last() =~= self@.take(i as int));
            }
            h = hash64(h ^ self.words[i]);
            i += 1;
        }
        proof {
            assert(self@.take(self.words.len() as int) =~= self@);
        }
        h
    }

    /// Whether two identities hold the same words.
    pub fn eq_ident(&self, other: &Self) -> (r: bool)
        ensures
            r == (self@ == other@),
    {
        if self.words.len() != other.words.len() {
            proof {
                assert(self@ != other@);
            }
            return false;
        }
        let mut i: usize = 0;
        while i < self.words.len()
            invariant
                i <= self.words.len(),
                self.words.len() == other.words.len(),
                forall|j: int| 0 <= j < i ==> self@[j] == other@[j],
            decreases self.words.len() - i,
        {
            if self.words[i] != other.words[i] {
                return false;
            }
            i += 1;
        }
        proof {
            assert(self@ =~= other@);
        }
        true
    }
}

/// Marks what a cached score proves: the exact value, or only a bound
/// established by a pruned search.
#[derive(Debug, Clone, Copy, PartialEq, Eq, Structural)]
pub enum TranspositionTableEntryFlag {
    Exact,
    LowerBound,
    UpperBound,
}

/// A cached search result: the quality it was computed at, the score
/// relative to the position's own side to move, the best move found, and
/// what kind of bound the score is.
#[derive(Debug, Clone)]
pub struct TranspositionTableEntry<M> {
    pub score_quality: ScoreQuality,
    pub score: RelScore,
    pub best_move: Option<M>,
    pub flag: TranspositionTableEntryFlag,
}

/// One cache slot: the identity of the state it describes and, once a
/// search has completed there, its cached result.
#[derive(Debug, Clone)]
pub struct TranspositionTableItem<M> {
    pub state: StateIdent,
    pub entry: Option<TranspositionTableEntry<M>>,
}

impl<M> TranspositionTableItem<M> {
    /// A slot freshly claimed for `state`, with no result yet.
    pub fn blank(state: StateIdent) -> (r: Self)
        ensures
            r.state == state,
            r.entry is None,
    {
        Self { state, entry: None }
    }
}

/// The slot index an identity maps to: the low `n` bits of its digest.
pub open spec fn spec_idx(n: usize, id: Seq<u64>) -> int {
    (spec_ident_digest(id) & (((1u64 << (n as u64)) - 1) as u64)) as int
}

/// The slot index is always within a table of `2^n` slots.
pub proof fn lemma_idx_bounds(n: usize, id: Seq<u64>)
    requires
        n <= 31,
    ensures
        0 <= spec_idx(n, id) < (1u64 << (n as u64)),
        spec_idx(n, id) < 0x8000_0000u64,
{
    let nn = n as u64;
    let d = spec_ident_digest(id);
    assert((d & (((1u64 << nn) - 1) as u64)) < (1u64 << nn) && (1u64 << nn) <= 0x8000_0000u64)
        by (bit_vector)
        requires
            nn <= 31u64,
    ;
}

/// A direct-mapped cache of `2^n` slots.
#[derive(Debug)]
pub struct TranspositionTable<M> {
    pub n: usize,
    pub entries: Vec<Option<TranspositionTableItem<M>>>,
}

impl<M> TranspositionTableEntry<M> {
    /// Stored scores are negatable and stored qualities in bounds.
    pub open spec fn wf(self) -> bool {
        self.score.wf() && self.score_quality.wf()
    }
}

impl<M> TranspositionTable<M> {
    /// The capacity is a power of two small enough to index, and every
    /// cached result is well formed.
    pub open spec fn wf(self) -> bool {
        &&& self.n <= 31
        &&& self.entries@.len() == (1u64 << (self.n as u64))
        &&& forall|i: int|
            0 <= i < self.entries@.len() ==> match #[trigger] self.entries@[i] {
                Some(item) => match item.entry {
                    Some(e) => e.wf(),
                    None => true,
                },
                None => true,
            }
    }

    /// What a probe of identity `id` finds: the cached entry stored under
    /// exactly that identity, if any.
    pub open spec fn spec_probe(self, id: Seq<u64>) -> Option<TranspositionTableEntry<M>> {
        match self.entries@[spec_idx(self.n, id)] {
            Some(item) => {
                if item.state@ == id {
                    item.entry
                } else {
                    None
                }
            },
            None => None,
        }
    }

    /// Whether storing `entry` under `id` overwrites the slot: it does
    /// unless the slot already holds a result for the same identity at a
    /// quality the new one does not reach.
    pub open spec fn spec_store_writes(self, id: Seq<u64>, quality: ScoreQuality) -> bool {
        match self.entries@[spec_idx(self.n, id)] {
            Some(item) => {
                if item.state@ == id {
                    match item.entry {
                        Some(e) => quality.spec_ge(e.score_quality),
                        None => true,
                    }
                } else {
                    true
                }
            },
            None => true,
        }
    }

    /// Allocate `2^n` empty slots.  The exponent is capped at 31 so that
    /// a slot index always fits a 32-bit `usize`; memory sizing never
    /// asks for more in practice.
    pub fn new(n: usize) -> (r: Self)
        requires
            n <= 31,
        ensures
            r.wf(),
            r.n == n,
            forall|i: int| 0 <= i < r.entries@.len() ==> r.entries@[i] is None,
    {
        let mut entries: Vec<Option<TranspositionTableItem<M>>> = Vec::new();
        let len: u64 = 1u64 << (n as u64);
        assert((1u64 << (n as u64)) <= 0x8000_0000u64) by (bit_vector)
            requires
                n <= 31,
        ;
        let mut i: u64 = 0;
        while i < len
            invariant
                i <= len,
                entries@.len() == i,
                forall|j: int| 0 <= j < i ==> entries@[j] is None,
            decreases len - i,
        {
            entries.push(None);
            i += 1;
        }
        Self { n, entries }
    }

    /// The slot index for `state`.
    pub fn idx_hash(&self, state: &StateIdent) -> (r: usize)
        requires
            self.wf(),
        ensures
            r == spec_idx(self.n, state@),
            r < self.entries@.len(),
    {
        proof {
            let n = self.n as u64;
            assert(1u64 << n >= 1u64) by (bit_vector)
                requires
                    n <= 31u64,
            ;
            lemma_idx_bounds(self.n, state@);
        }
        let digest = state.digest();
        let mask = (1u64 << (self.n as u64)) - 1;
        let idx = digest & mask;
        idx as usize
    }

    /// Read-only probe: a hit only if the slot's identity hashes and
    /// compares equal to the query; never mutates, never allocates.
    pub fn maybe_get(&self, state: &StateIdent) -> (r: Option<&TranspositionTableEntry<M>>)
        requires
            self.wf(),
        ensures
            match r {
                Some(e) => self.spec_probe(state@) == Some(*e) && e.wf(),
                None => self.spec_probe(state@) is None,
            },
    {
        let idx = self.idx_hash(state);
        match &self.entries[idx] {
            Some(item) => {
                if item.state.digest() != state.digest() {
                    proof {
                        assert(item.state@ != state@);
                    }
                    None
                } else if !item.state.eq_ident(state) {
                    None
                } else {
                    match &item.entry {
                        Some(e) => Some(e),
                        None => None,
                    }
                }
            },
            None => None,
        }
    }

    /// Write-path probe and eviction in one: claim the slot for `state`
    /// (blanking it on any identity mismatch, which is how eviction
    /// happens) and record `entry` unless a result of no lower quality for
    /// the same identity is already present.
    pub fn store(&mut self, state: StateIdent, entry: TranspositionTableEntry<M>)
        requires
            old(self).wf(),
            entry.wf(),
        ensures
            final(self).wf(),
            final(self).n == old(self).n,
            final(self).entries@.len() == old(self).entries@.len(),
            forall|j: int|
                0 <= j < old(self).entries@.len() && j != spec_idx(old(self).n, state@)
                    ==> final(self).entries@[j] == old(self).entries@[j],
            if old(self).spec_store_writes(state@, entry.score_quality) {
                final(self).entries@[spec_idx(old(self).n, state@)] == Some(
                    TranspositionTableItem { state, entry: Some(entry) },
                )
            } else {
                final(self).entries@[spec_idx(old(self).n, state@)] == old(self).entries@[spec_idx(
                    old(self).n,
                    state@,
                )]
            },
    {
        let idx = self.idx_hash(&state);
        let write = match &self.entries[idx] {
            Some(item) => {
                if item.state.digest() != state.digest() {
                    proof {
                        assert(item.state@ != state@);
                    }
                    true
                } else if !item.state.eq_ident(&state) {
                    true
                } else {
                    match &item.entry {
                        Some(e) => {
                            matches!(
                                entry.score_quality.partial_cmp(&e.score_quality),
                                Some(core::cmp::Ordering::Greater) | Some(core::cmp::Ordering::Equal)
                            )
                        },
                        None => true,
                    }
                }
            },
            None => true,
        };
        if write {
            self.entries.set(idx, Some(TranspositionTableItem { state, entry: Some(entry) }));
        }
    }
}

/// A store that writes is found again by a probe of the same identity:
/// the cache returns exactly the stored entry.
pub proof fn lemma_store_then_probe<M>(
    tt: TranspositionTable<M>,
    tt2: TranspositionTable<M>,
    state: StateIdent,
    entry: TranspositionTableEntry<M>,
)
    requires
        tt.wf(),
        tt.spec_store_writes(state@, entry.score_quality),
        tt2.n == tt.n,
        tt2.entries@ == tt.entries@.update(
            spec_idx(tt.n, state@),
            Some(TranspositionTableItem { state, entry: Some(entry) }),
        ),
    ensures
        tt2.spec_probe(state@) == Some(entry),
{
    lemma_idx_bounds(tt.n, state@);
}

/// A probe is unaffected by a store whose identity maps to another slot:
/// only a colliding identity can evict.
pub proof fn lemma_probe_unaffected<M>(
    tt: TranspositionTable<M>,
    tt2: TranspositionTable<M>,
    id: Seq<u64>,
    touched: int,
)
    requires
        tt.wf(),
        tt2.n == tt.n,
        tt2.entries@.len() == tt.entries@.len(),
        forall|j: int|
            0 <= j < tt.entries@.len() && j != touched ==> tt2.entries@[j] == tt.entries@[j],
        touched != spec_idx(tt.n, id),
    ensures
        tt2.spec_probe(id) == tt.spec_probe(id),
{
    lemma_idx_bounds(tt.n, id);
}

} // verus!
