use core::cmp::Ordering;
use gamesearch::quality::{combine_cmp, PvExtensionCounter, ScoreQuality};

#[test]
fn counter_cycles() {
    let c = PvExtensionCounter::new(2, 3);
    assert!(!c.do_extension());
    let c = c.increment();
    assert_eq!(c.extend_after, 1);
    let c = c.increment();
    assert_eq!(c.extend_after, 0);
    assert!(c.do_extension());
    let c = c.increment();
    assert_eq!(c.extend_after, 3);
    assert_eq!(c.reset_to, 3);
}

#[test]
fn combine_cmp_consensus() {
    let l = Some(Ordering::Less);
    let e = Some(Ordering::Equal);
    let g = Some(Ordering::Greater);
    assert_eq!(combine_cmp(l, l), l);
    assert_eq!(combine_cmp(l, e), l);
    assert_eq!(combine_cmp(l, g), None);
    assert_eq!(combine_cmp(e, l), l);
    assert_eq!(combine_cmp(e, e), e);
    assert_eq!(combine_cmp(e, g), g);
    assert_eq!(combine_cmp(g, l), None);
    assert_eq!(combine_cmp(g, e), g);
    assert_eq!(combine_cmp(g, g), g);
    assert_eq!(combine_cmp(None, g), None);
    assert_eq!(combine_cmp(l, None), None);
}

#[test]
fn quality_partial_order() {
    let pv = PvExtensionCounter::new(0, 1);
    let q1 = ScoreQuality { depth: 1, quiescence_depth: 1, pv_extension_counter: pv };
    let q2 = ScoreQuality { depth: 2, quiescence_depth: 1, pv_extension_counter: pv };
    assert!(q2 > q1);
    assert!(q1 < q2);
    assert_eq!(q1.partial_cmp(&q1), Some(Ordering::Equal));
    // deeper but with a much weaker extension schedule: incomparable
    let strong = PvExtensionCounter::new(0, 5);
    let weak = PvExtensionCounter::new(0, 1);
    let a = ScoreQuality { depth: 2, quiescence_depth: 1, pv_extension_counter: weak };
    let b = ScoreQuality { depth: 1, quiescence_depth: 1, pv_extension_counter: strong };
    assert_eq!(a.partial_cmp(&b), None);
}

#[test]
fn generator_sequence() {
    let pv = PvExtensionCounter::new(usize::MAX, usize::MAX);
    let mut gen = ScoreQuality::generate(pv);
    let q = gen.next().unwrap();
    assert_eq!((q.depth, q.quiescence_depth), (1, 1));
    let q = gen.next().unwrap();
    assert_eq!((q.depth, q.quiescence_depth), (1, 2));
    let q = gen.next().unwrap();
    assert_eq!((q.depth, q.quiescence_depth), (1, 4));
    let q = gen.next().unwrap();
    assert_eq!((q.depth, q.quiescence_depth), (1, 8));
    let q = gen.next().unwrap();
    assert_eq!((q.depth, q.quiescence_depth), (1, 16));
    let q = gen.next().unwrap();
    assert_eq!((q.depth, q.quiescence_depth), (1, 32));
    let q = gen.next().unwrap();
    assert_eq!((q.depth, q.quiescence_depth), (1, 64));
    let q = gen.next().unwrap();
    assert_eq!((q.depth, q.quiescence_depth), (1, 100));
    let q = gen.next().unwrap();
    assert_eq!((q.depth, q.quiescence_depth), (2, 100));
    let q = gen.next().unwrap();
    assert_eq!((q.depth, q.quiescence_depth), (3, 100));
}

#[test]
fn generator_terminates() {
    let pv = PvExtensionCounter::new(usize::MAX, usize::MAX);
    let mut gen = ScoreQuality::generate(pv);
    let mut count = 0usize;
    while let Some(_) = gen.next() {
        count += 1;
        assert!(count < 1000);
    }
    // 8 quiescence-doubling steps, then depths 2 through 100
    assert_eq!(count, 107);
}

#[test]
fn decrement_spends_depth_then_quiescence() {
    let pv = PvExtensionCounter::new(1, 2);
    let q = ScoreQuality { depth: 1, quiescence_depth: 1, pv_extension_counter: pv };
    let q1 = q.decrement().unwrap();
    assert_eq!((q1.depth, q1.quiescence_depth), (0, 1));
    assert_eq!(q1.pv_extension_counter.extend_after, 0);
    let q2 = q1.decrement().unwrap();
    assert_eq!((q2.depth, q2.quiescence_depth), (0, 0));
    assert_eq!(q2.pv_extension_counter.extend_after, 2);
    assert!(q2.decrement().is_none());
}

#[test]
fn pv_depth_counts_extensions() {
    // always-extend policy: every ply extends
    let pv = PvExtensionCounter::new(0, 1);
    let q = ScoreQuality { depth: 4, quiescence_depth: 1, pv_extension_counter: pv };
    // notches alternate fire/reset: extensions fire on every other notch
    assert_eq!(q.pv_depth(), 4 + 2);
    let off = PvExtensionCounter::new(usize::MAX, usize::MAX);
    let q = ScoreQuality { depth: 4, quiescence_depth: 1, pv_extension_counter: off };
    assert_eq!(q.pv_depth(), 4);
    assert_eq!(q.quiescence_depth(), 5);
}
