use gamesearch::quality::{PvExtensionCounter, ScoreQuality};
use gamesearch::score::{RelScore, RelTerminal};
use gamesearch::tt::{
    hash64, StateIdent, TranspositionTable, TranspositionTableEntry, TranspositionTableEntryFlag,
};

fn quality(depth: usize) -> ScoreQuality {
    ScoreQuality {
        depth,
        quiescence_depth: 1,
        pv_extension_counter: PvExtensionCounter::new(usize::MAX, usize::MAX),
    }
}

fn entry(depth: usize, score: i64, mv: u32) -> TranspositionTableEntry<u32> {
    TranspositionTableEntry {
        score_quality: quality(depth),
        score: RelScore::Heuristic(score),
        best_move: Some(mv),
        flag: TranspositionTableEntryFlag::Exact,
    }
}

#[test]
fn hash64_mixes_and_is_deterministic() {
    assert_eq!(hash64(12345), hash64(12345));
    assert_ne!(hash64(1), hash64(2));
    assert_ne!(hash64(1), 1);
}

#[test]
fn ident_equality_is_exact() {
    let a = StateIdent::new(vec![1, 2, 3]);
    let b = StateIdent::new(vec![1, 2, 3]);
    let c = StateIdent::new(vec![1, 2, 4]);
    let d = StateIdent::new(vec![1, 2]);
    assert!(a.eq_ident(&b));
    assert!(!a.eq_ident(&c));
    assert!(!a.eq_ident(&d));
    assert_eq!(a.digest(), b.digest());
}

// An Exact store at quality Q, re-probed for the same identity, returns
// the exact stored score and move, absent an intervening eviction.
#[test]
fn store_then_probe_roundtrip() {
    let mut tt: TranspositionTable<u32> = TranspositionTable::new(4);
    let id = StateIdent::new(vec![7, 8, 9]);
    tt.store(id, entry(3, 42, 17));
    let hit = tt.maybe_get(&StateIdent::new(vec![7, 8, 9])).expect("stored entry must be found");
    assert_eq!(hit.score, RelScore::Heuristic(42));
    assert_eq!(hit.best_move, Some(17));
    assert!(matches!(hit.flag, TranspositionTableEntryFlag::Exact));
    // the stored quality admits any probe at the same or lower quality
    assert!(hit.score_quality >= quality(3));
    assert!(hit.score_quality >= quality(2));
}

#[test]
fn lower_quality_store_does_not_overwrite() {
    let mut tt: TranspositionTable<u32> = TranspositionTable::new(4);
    let id = StateIdent::new(vec![5]);
    tt.store(id, entry(5, 10, 1));
    tt.store(StateIdent::new(vec![5]), entry(2, 99, 2));
    let hit = tt.maybe_get(&StateIdent::new(vec![5])).unwrap();
    assert_eq!(hit.score, RelScore::Heuristic(10));
    assert_eq!(hit.best_move, Some(1));
}

#[test]
fn higher_quality_store_overwrites() {
    let mut tt: TranspositionTable<u32> = TranspositionTable::new(4);
    tt.store(StateIdent::new(vec![5]), entry(2, 10, 1));
    tt.store(StateIdent::new(vec![5]), entry(5, 99, 2));
    let hit = tt.maybe_get(&StateIdent::new(vec![5])).unwrap();
    assert_eq!(hit.score, RelScore::Heuristic(99));
    // a store at the very same quality refreshes the entry too
    tt.store(StateIdent::new(vec![5]), entry(5, 77, 3));
    let hit = tt.maybe_get(&StateIdent::new(vec![5])).unwrap();
    assert_eq!(hit.score, RelScore::Heuristic(77));
}

#[test]
fn distinct_identity_misses() {
    let mut tt: TranspositionTable<u32> = TranspositionTable::new(4);
    tt.store(StateIdent::new(vec![1, 2]), entry(3, 42, 17));
    // probes for identities never stored miss, even when they collide
    assert!(tt.maybe_get(&StateIdent::new(vec![2, 1])).is_none());
    assert!(tt.maybe_get(&StateIdent::new(vec![1, 2, 3])).is_none());
}

#[test]
fn colliding_store_evicts_wholesale() {
    // a single-slot table: every identity collides
    let mut tt: TranspositionTable<u32> = TranspositionTable::new(0);
    tt.store(StateIdent::new(vec![1]), entry(9, 10, 1));
    tt.store(StateIdent::new(vec![2]), entry(1, 20, 2));
    // the newcomer evicted the prior occupant despite its lower quality
    assert!(tt.maybe_get(&StateIdent::new(vec![1])).is_none());
    let hit = tt.maybe_get(&StateIdent::new(vec![2])).unwrap();
    assert_eq!(hit.score, RelScore::Heuristic(20));
}

#[test]
fn draw_scores_roundtrip() {
    let mut tt: TranspositionTable<u32> = TranspositionTable::new(2);
    let e = TranspositionTableEntry {
        score_quality: quality(4),
        score: RelScore::Terminal(RelTerminal::Draw, 3),
        best_move: None,
        flag: TranspositionTableEntryFlag::UpperBound,
    };
    tt.store(StateIdent::new(vec![11, 12]), e);
    let hit = tt.maybe_get(&StateIdent::new(vec![11, 12])).unwrap();
    assert!(matches!(hit.score, RelScore::Terminal(RelTerminal::Draw, 3)));
    assert!(hit.best_move.is_none());
}

// The digest mixer follows its three-round recipe exactly.
#[test]
fn hash64_matches_its_formula() {
    fn round(x: u32, k: u32) -> u32 {
        x.wrapping_mul(k).rotate_left(13) ^ (x >> 5)
    }
    for v in [0u64, 1, 2, 12345, 0xDEAD_BEEF_0BAD_F00D, u64::MAX] {
        let mut l = (v >> 32) as u32;
        let mut r = v as u32;
        l ^= round(r, 0x9E3779B1);
        r ^= round(l, 0xC2B2AE35);
        l ^= round(r, 0x165667B1);
        let expected = ((r as u64) << 32) | (l as u64);
        assert_eq!(hash64(v), expected);
    }
}
