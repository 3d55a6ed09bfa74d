use niri::anchor::{AnchorIndex, RegisterOutcome, MAX_CHAIN_DEPTH};

type Idx = AnchorIndex;

fn collect_deps(idx: &Idx, target: u64) -> Vec<u64> {
    let mut v: Vec<u64> = idx.dependents_of(&target);
    v.sort_unstable();
    v
}

#[test]
fn register_then_lookup_both_directions() {
    let mut idx = Idx::new();
    let outcome = idx.register(1, 2);
    assert_eq!(outcome, RegisterOutcome::Registered);
    assert_eq!(idx.target_of(&1), Some(&2));
    assert_eq!(collect_deps(&idx, 2), vec![1]);
}

#[test]
fn unregister_clears_both_directions() {
    let mut idx = Idx::new();
    idx.register(1, 2);
    idx.unregister(&1);
    assert_eq!(idx.target_of(&1), None);
    assert!(collect_deps(&idx, 2).is_empty());
    // The reverse entry should be cleaned up when empty.
    assert!(!idx.has_dependents(&2));
}

#[test]
fn unregister_unknown_dependent_is_noop() {
    let mut idx = Idx::new();
    idx.register(1, 2);
    idx.unregister(&99);
    assert_eq!(idx.target_of(&1), Some(&2));
    assert_eq!(collect_deps(&idx, 2), vec![1]);
}

#[test]
fn orphan_dependents_of_target_returns_them_and_clears() {
    let mut idx = Idx::new();
    idx.register(1, 100);
    idx.register(2, 100);
    idx.register(3, 100);
    let mut orphans = idx.orphan_dependents_of(&100);
    orphans.sort_unstable();
    assert_eq!(orphans, vec![1, 2, 3]);
    // After orphaning, dependents have no target.
    assert_eq!(idx.target_of(&1), None);
    assert_eq!(idx.target_of(&2), None);
    assert_eq!(idx.target_of(&3), None);
    // Reverse entry for 100 is gone.
    assert!(collect_deps(&idx, 100).is_empty());
}

#[test]
fn orphan_unknown_target_returns_empty() {
    let mut idx = Idx::new();
    idx.register(1, 2);
    let orphans = idx.orphan_dependents_of(&999);
    assert!(orphans.is_empty());
    // Unrelated state preserved.
    assert_eq!(idx.target_of(&1), Some(&2));
}

#[test]
fn re_register_replaces_old_target() {
    let mut idx = Idx::new();
    idx.register(1, 2);
    idx.register(1, 3);
    assert_eq!(idx.target_of(&1), Some(&3));
    assert!(collect_deps(&idx, 2).is_empty());
    assert_eq!(collect_deps(&idx, 3), vec![1]);
}

#[test]
fn multiple_dependents_per_target() {
    let mut idx = Idx::new();
    idx.register(1, 100);
    idx.register(2, 100);
    idx.register(3, 100);
    assert_eq!(collect_deps(&idx, 100), vec![1, 2, 3]);
}

#[test]
fn shallow_chain_reports_registered() {
    let mut idx = Idx::new();
    // 1 → 2, where 2 has no target.
    let outcome = idx.register(1, 2);
    assert_eq!(outcome, RegisterOutcome::Registered);
}

#[test]
fn recursive_chain_reports_chain_depth_2() {
    let mut idx = Idx::new();
    idx.register(2, 3);
    let outcome = idx.register(1, 2);
    assert_eq!(outcome, RegisterOutcome::RecursiveAnchor { chain_depth: 2 });
}

#[test]
fn recursive_chain_three_deep_reports_chain_depth_3() {
    let mut idx = Idx::new();
    idx.register(3, 4);
    idx.register(2, 3);
    let outcome = idx.register(1, 2);
    assert_eq!(outcome, RegisterOutcome::RecursiveAnchor { chain_depth: 3 });
}

#[test]
fn pathological_cycle_terminates_at_depth_cap() {
    let mut idx = Idx::new();
    idx.register(1, 2);
    let outcome = idx.register(2, 1);
    assert!(matches!(
        outcome,
        RegisterOutcome::Registered | RegisterOutcome::RecursiveAnchor { .. }
    ));
    let outcome2 = idx.register(1, 2);
    assert!(matches!(outcome2, RegisterOutcome::RecursiveAnchor { .. }));
}

#[test]
fn cycle_depth_is_exactly_the_cap() {
    let mut idx = Idx::new();
    idx.register(1, 2);
    idx.register(2, 1);
    let outcome = idx.register(3, 1);
    assert_eq!(
        outcome,
        RegisterOutcome::RecursiveAnchor {
            chain_depth: MAX_CHAIN_DEPTH
        }
    );
}

#[test]
fn long_chain_is_capped() {
    let mut idx = Idx::new();
    for i in 1..40u64 {
        idx.register(i, i + 1);
    }
    let outcome = idx.register(0, 1);
    assert_eq!(
        outcome,
        RegisterOutcome::RecursiveAnchor {
            chain_depth: MAX_CHAIN_DEPTH
        }
    );
    let outcome = idx.register(100, 35);
    assert_eq!(outcome, RegisterOutcome::RecursiveAnchor { chain_depth: 6 });
}

#[test]
fn registered_and_iteration() {
    let mut idx = Idx::new();
    assert!(!idx.is_registered(&1));
    idx.register(1, 2);
    idx.register(5, 2);
    idx.register(7, 1);
    assert!(idx.is_registered(&1));
    assert!(!idx.is_registered(&2));
    let mut all = idx.dependents_iter();
    all.sort_unstable();
    assert_eq!(all, vec![1, 5, 7]);
    assert!(idx.has_dependents(&2));
    assert!(idx.has_dependents(&1));
    assert!(!idx.has_dependents(&7));
}

#[test]
fn unregister_after_register_restores() {
    let mut idx = Idx::new();
    idx.register(1, 2);
    idx.register(3, 4);
    idx.unregister(&3);
    assert_eq!(idx.target_of(&3), None);
    assert!(!idx.has_dependents(&4));
    assert_eq!(idx.target_of(&1), Some(&2));
}

#[test]
fn default_index_is_empty() {
    let idx = AnchorIndex::default();
    assert!(!idx.is_registered(&1));
    assert!(idx.dependents_iter().is_empty());
    assert_eq!(idx.target_of(&1), None);
}
