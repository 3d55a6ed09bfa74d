use niri::screencasting::{ActiveCasts, CastTarget};

#[test]
fn empty_by_default() {
    let active = ActiveCasts::default();
    assert!(active.is_empty());
    assert!(!active.contains_output("anything"));
    assert!(!active.contains_window(0));
}

#[test]
fn recompute_inserts_window_targets() {
    let mut active = ActiveCasts::default();
    let targets = [CastTarget::Window { id: 42 }, CastTarget::Window { id: 7 }];
    active.recompute_from_targets(&targets);

    assert!(active.contains_window(42));
    assert!(active.contains_window(7));
    assert!(!active.contains_window(99));
    assert!(!active.is_empty());
}

#[test]
fn recompute_inserts_output_targets() {
    let targets = [CastTarget::output("HDMI-A-1"), CastTarget::output("DP-2")];

    let mut active = ActiveCasts::default();
    active.recompute_from_targets(&targets);

    assert!(active.contains_output("HDMI-A-1"));
    assert!(active.contains_output("DP-2"));
    assert!(!active.contains_output("eDP-1"));
}

#[test]
fn recompute_ignores_nothing_targets() {
    let mut active = ActiveCasts::default();
    let targets = [CastTarget::Nothing, CastTarget::Nothing];
    active.recompute_from_targets(&targets);

    assert!(active.is_empty());
}

#[test]
fn recompute_clears_stale_entries() {
    let mut active = ActiveCasts::default();

    let targets = [CastTarget::Window { id: 1 }];
    active.recompute_from_targets(&targets);
    assert!(active.contains_window(1));

    // New snapshot replaces the old one entirely.
    let targets = [CastTarget::Window { id: 2 }];
    active.recompute_from_targets(&targets);

    assert!(!active.contains_window(1));
    assert!(active.contains_window(2));
}

#[test]
fn recompute_dedupes_repeated_targets() {
    let mut active = ActiveCasts::default();
    let targets = [
        CastTarget::Window { id: 5 },
        CastTarget::Window { id: 5 },
        CastTarget::Window { id: 5 },
    ];
    active.recompute_from_targets(&targets);

    assert!(active.contains_window(5));
    assert_eq!(active.windows.len(), 1);
}

#[test]
fn recompute_distinguishes_output_and_window() {
    let targets = [CastTarget::output("HDMI-A-1"), CastTarget::Window { id: 1 }];

    let mut active = ActiveCasts::default();
    active.recompute_from_targets(&targets);

    assert!(active.contains_output("HDMI-A-1"));
    assert!(!active.contains_output("1"));
    assert!(active.contains_window(1));
    assert!(!active.contains_window(0));
}

#[test]
fn recompute_with_no_targets_is_empty() {
    let mut active = ActiveCasts::default();
    active.recompute_from_targets(&[]);
    assert!(active.is_empty());
}

#[test]
fn recompute_dedupes_repeated_outputs() {
    let mut active = ActiveCasts::default();
    let targets = [
        CastTarget::output("DP-1"),
        CastTarget::output("DP-1"),
        CastTarget::output("DP-2"),
    ];
    active.recompute_from_targets(&targets);
    assert_eq!(active.outputs.len(), 2);
}

#[test]
fn same_target_comparison() {
    assert!(CastTarget::output("DP-1").same_as(&CastTarget::output("DP-1")));
    assert!(!CastTarget::output("DP-1").same_as(&CastTarget::output("DP-2")));
    assert!(!CastTarget::Window { id: 1 }.same_as(&CastTarget::Nothing));
    assert!(CastTarget::Nothing.same_as(&CastTarget::Nothing));
}
