use gamesearch::findings::{AllSearchFindings, SearchFindings};
use gamesearch::quality::{PvExtensionCounter, ScoreQuality};
use gamesearch::score::RelScore;

fn quality(depth: usize, quiescence_depth: usize) -> ScoreQuality {
    ScoreQuality {
        depth,
        quiescence_depth,
        pv_extension_counter: PvExtensionCounter::new(usize::MAX, usize::MAX),
    }
}

fn finding(depth: usize, score: i64, mv: u32) -> SearchFindings<u32> {
    SearchFindings { score_quality: quality(depth, 1), score: RelScore::Heuristic(score), best_move: mv }
}

// Submitting the same finding twice leaves the surviving set unchanged.
#[test]
fn update_is_idempotent() {
    let mut agg: AllSearchFindings<u32> = AllSearchFindings::new();
    agg.update(finding(1, 5, 10));
    agg.update(finding(3, 7, 11));
    let f = finding(2, 6, 12);
    agg.update(f);
    let before: Vec<(usize, i64, u32)> = agg
        .all_findings
        .iter()
        .map(|x| (x.score_quality.depth, 0i64, x.best_move))
        .collect();
    agg.update(f);
    let after: Vec<(usize, i64, u32)> = agg
        .all_findings
        .iter()
        .map(|x| (x.score_quality.depth, 0i64, x.best_move))
        .collect();
    assert_eq!(before, after);
}

#[test]
fn dominated_findings_are_dropped() {
    let mut agg: AllSearchFindings<u32> = AllSearchFindings::new();
    agg.update(finding(1, 5, 10));
    agg.update(finding(2, 6, 11));
    agg.update(finding(3, 7, 12));
    // each deeper finding with the same policy dominates the previous one
    assert_eq!(agg.all_findings.len(), 1);
    assert_eq!(agg.all_findings[0].best_move, 12);
    assert_eq!(agg.all_findings[0].score_quality.depth, 3);
}

#[test]
fn incomparable_findings_coexist_sorted() {
    let mut agg: AllSearchFindings<u32> = AllSearchFindings::new();
    let weak = PvExtensionCounter::new(0, 1);
    let strong = PvExtensionCounter::new(0, 5);
    // deeper with a weaker schedule vs shallower with a stronger one
    let a = SearchFindings {
        score_quality: ScoreQuality { depth: 4, quiescence_depth: 1, pv_extension_counter: weak },
        score: RelScore::Heuristic(3),
        best_move: 1u32,
    };
    let b = SearchFindings {
        score_quality: ScoreQuality { depth: 2, quiescence_depth: 1, pv_extension_counter: strong },
        score: RelScore::Heuristic(9),
        best_move: 2u32,
    };
    agg.update(b);
    agg.update(a);
    assert_eq!(agg.all_findings.len(), 2);
    // presented most-searched first: the deeper finding leads
    assert_eq!(agg.all_findings[0].best_move, 1);
    assert_eq!(agg.all_findings[1].best_move, 2);
}

#[test]
fn best_moves_labels() {
    let mut agg: AllSearchFindings<u32> = AllSearchFindings::new();
    agg.update(finding(2, 5, 10));
    let labelled = agg.best_moves();
    assert_eq!(labelled.len(), 1);
    assert_eq!(labelled[0].1, 10);
    assert_eq!(labelled[0].0.depth, 2);
    assert_eq!(labelled[0].0.quiescence_depth, 3);
    assert!(matches!(labelled[0].0.score, RelScore::Heuristic(5)));
}
