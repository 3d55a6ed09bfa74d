use std::sync::atomic::{AtomicU32, Ordering};
use std::time::Duration;

use niri::window::{
    mapped_matches, pick_mru, resolve_position_frame_target, resolve_target, window_matches,
    BlockOutFrom, LayoutWindow, Mapped, Match,
    RegexEq, ResolvedWindowRules, Size, TargetCandidate, ToplevelRole, ToplevelSurface, Unmapped,
    WindowRef, WindowRule, WorkspaceId,
};

/// Source of unique ids for tests; each `cand` call burns one.
static NEXT_TEST_ID: AtomicU32 = AtomicU32::new(1);

fn cand(ws: u64, output: Option<&str>, ts_micros: Option<u64>) -> TargetCandidate<u32> {
    TargetCandidate {
        id: NEXT_TEST_ID.fetch_add(1, Ordering::Relaxed),
        workspace_id: WorkspaceId::specific(ws),
        output_name: output.map(str::to_owned),
        focus_timestamp: ts_micros.map(|t| Duration::from_micros(t).as_nanos()),
    }
}

#[test]
fn resolve_target_no_candidates_returns_none() {
    let result = resolve_target(
        Vec::<TargetCandidate<u32>>::new(),
        WorkspaceId::specific(1),
        Some("DP-1"),
    );
    assert_eq!(result, None);
}

#[test]
fn resolve_target_single_candidate_returns_it_regardless_of_match() {
    let c = cand(99, Some("DP-99"), Some(10));
    let id = c.id;
    let result = resolve_target(vec![c], WorkspaceId::specific(1), Some("DP-1"));
    assert_eq!(result, Some(id));
}

#[test]
fn resolve_target_prefers_same_workspace_over_other_workspace_even_with_older_ts() {
    let on_ws = cand(1, Some("DP-1"), Some(1));
    let on_ws_id = on_ws.id;
    let off_ws = cand(2, Some("DP-1"), Some(1000));
    let result = resolve_target(vec![off_ws, on_ws], WorkspaceId::specific(1), Some("DP-1"));
    assert_eq!(result, Some(on_ws_id));
}

#[test]
fn resolve_target_prefers_same_output_when_no_workspace_match() {
    let on_output = cand(5, Some("DP-1"), Some(1));
    let on_output_id = on_output.id;
    let off_output = cand(7, Some("DP-2"), Some(1000));
    let result = resolve_target(
        vec![off_output, on_output],
        WorkspaceId::specific(1),
        Some("DP-1"),
    );
    assert_eq!(result, Some(on_output_id));
}

#[test]
fn resolve_target_falls_through_to_all_when_neither_workspace_nor_output_match() {
    let only = cand(99, Some("DP-99"), Some(42));
    let only_id = only.id;
    let result = resolve_target(vec![only], WorkspaceId::specific(1), Some("DP-1"));
    assert_eq!(result, Some(only_id));
}

#[test]
fn resolve_target_picks_mru_within_same_workspace_set() {
    let older = cand(1, Some("DP-1"), Some(100));
    let newer = cand(1, Some("DP-1"), Some(200));
    let newer_id = newer.id;
    let result = resolve_target(vec![older, newer], WorkspaceId::specific(1), Some("DP-1"));
    assert_eq!(result, Some(newer_id));
}

#[test]
fn resolve_target_some_timestamp_beats_none_timestamp() {
    let no_ts = cand(1, Some("DP-1"), None);
    let with_ts = cand(1, Some("DP-1"), Some(1));
    let with_ts_id = with_ts.id;
    let result = resolve_target(vec![no_ts, with_ts], WorkspaceId::specific(1), Some("DP-1"));
    assert_eq!(result, Some(with_ts_id));
}

#[test]
fn resolve_target_all_none_timestamps_picks_first_in_iteration_order() {
    let first = cand(1, Some("DP-1"), None);
    let first_id = first.id;
    let second = cand(1, Some("DP-1"), None);
    let result = resolve_target(vec![first, second], WorkspaceId::specific(1), Some("DP-1"));
    assert_eq!(result, Some(first_id));
}

#[test]
fn resolve_target_short_circuits_to_workspace_ignoring_better_match_elsewhere() {
    let bad_on_ws = cand(1, None, None);
    let bad_on_ws_id = bad_on_ws.id;
    let good_off_ws = cand(2, Some("DP-1"), Some(9999));
    let result = resolve_target(
        vec![good_off_ws, bad_on_ws],
        WorkspaceId::specific(1),
        Some("DP-1"),
    );
    assert_eq!(result, Some(bad_on_ws_id));
}

#[test]
fn resolve_target_handles_no_output_dependent() {
    let on_no_output = cand(7, None, Some(1));
    let on_no_output_id = on_no_output.id;
    let off_output = cand(8, Some("DP-1"), Some(1000));
    let result = resolve_target(
        vec![off_output, on_no_output],
        WorkspaceId::specific(1),
        None,
    );
    assert_eq!(result, Some(on_no_output_id));
}

#[test]
fn pick_mru_equal_timestamps_keep_first() {
    let a = cand(1, None, Some(5));
    let a_id = a.id;
    let b = cand(2, None, Some(5));
    let c = cand(3, None, Some(4));
    assert_eq!(pick_mru(vec![a, b, c]), Some(a_id));
    assert_eq!(pick_mru(Vec::<TargetCandidate<u32>>::new()), None);
}

fn role(app_id: Option<&str>, title: Option<&str>, activated: bool) -> ToplevelRole {
    ToplevelRole {
        app_id: app_id.map(str::to_owned),
        title: title.map(str::to_owned),
        pending_activated: activated,
    }
}

fn mapped(role: ToplevelRole, focused: bool, floating: bool) -> Mapped {
    Mapped {
        role,
        is_focused: focused,
        is_urgent: false,
        is_active_in_column: true,
        is_floating: floating,
        is_window_cast_target: false,
    }
}

fn matcher() -> Match {
    Match {
        app_id: None,
        title: None,
        is_active: None,
        is_focused: None,
        is_active_in_column: None,
        is_floating: None,
        is_window_cast_target: None,
        is_urgent: None,
        at_startup: None,
    }
}

fn rule(matches: Vec<Match>, excludes: Vec<Match>) -> WindowRule {
    WindowRule {
        matches,
        excludes,
        default_column_display: None,
        open_on_output: None,
        open_on_workspace: None,
        open_maximized: None,
        open_maximized_to_edges: None,
        open_fullscreen: None,
        open_floating: None,
        open_focused: None,
        min_width: None,
        min_height: None,
        max_width: None,
        max_height: None,
        draw_border_with_background: None,
        clip_to_geometry: None,
        baba_is_float: None,
        block_out_from: None,
        variable_refresh_rate: None,
        tiled_state: None,
    }
}

#[test]
fn matchers_check_every_criterion() {
    let m = mapped(role(Some("org.gnome.Nautilus"), Some("Files"), true), true, false);
    let w = WindowRef::Mapped(&m);

    let mut by_app = matcher();
    by_app.app_id = Some(RegexEq::new("^org\\.gnome\\.").unwrap());
    assert!(window_matches(w, &by_app));

    let mut by_title = matcher();
    by_title.title = Some(RegexEq::new("^Term").unwrap());
    assert!(!window_matches(w, &by_title));

    let mut focused_and_active = matcher();
    focused_and_active.is_focused = Some(true);
    focused_and_active.is_active = Some(true);
    assert!(window_matches(w, &focused_and_active));

    let mut floating = matcher();
    floating.is_floating = Some(true);
    assert!(!window_matches(w, &floating));

    let mut at_startup = matcher();
    at_startup.at_startup = Some(true);
    assert!(mapped_matches(&m, &at_startup, true));
    assert!(!mapped_matches(&m, &at_startup, false));

    // An unmapped window is never focused, and counts as active in column.
    let u = Unmapped {
        role: role(Some("org.gnome.Nautilus"), None, false),
    };
    let uw = WindowRef::Unmapped(&u);
    assert!(!uw.is_focused());
    assert!(uw.is_active_in_column());
    assert!(!window_matches(uw, &focused_and_active));
    // A title criterion fails when the window has no title.
    let mut any_title = matcher();
    any_title.title = Some(RegexEq::new("").unwrap());
    assert!(!window_matches(uw, &any_title));
}

#[test]
fn invalid_regex_is_refused() {
    assert!(RegexEq::new("(").is_err());
}

#[test]
fn compute_takes_last_applying_rule() {
    let m = mapped(role(Some("firefox"), Some("Mozilla Firefox"), false), false, false);
    let w = WindowRef::Mapped(&m);

    let mut firefox = matcher();
    firefox.app_id = Some(RegexEq::new("^firefox$").unwrap());
    let mut private = matcher();
    private.title = Some(RegexEq::new("Private").unwrap());
    let mut other = matcher();
    other.app_id = Some(RegexEq::new("^kitty$").unwrap());

    let mut r1 = rule(vec![], vec![]);
    r1.open_maximized = Some(true);
    r1.min_width = Some(100);
    let mut r2 = rule(vec![firefox], vec![private]);
    r2.open_maximized = Some(false);
    r2.open_on_output = Some("DP-1".to_owned());
    r2.block_out_from = Some(BlockOutFrom::Screencast);
    let mut r3 = rule(vec![other], vec![]);
    r3.open_on_output = Some("HDMI-A-1".to_owned());
    r3.min_width = Some(500);

    let resolved = ResolvedWindowRules::compute(&[r1, r2, r3], w, false);
    assert_eq!(resolved.open_maximized, Some(false));
    assert_eq!(resolved.open_on_output.as_deref(), Some("DP-1"));
    assert_eq!(resolved.min_width, Some(100));
    assert_eq!(resolved.block_out_from, Some(BlockOutFrom::Screencast));
    assert_eq!(resolved.open_floating, None);
}

#[test]
fn excluded_rule_does_not_apply() {
    let m = mapped(role(Some("firefox"), Some("Private Browsing"), false), false, false);
    let mut firefox = matcher();
    firefox.app_id = Some(RegexEq::new("^firefox$").unwrap());
    let mut private = matcher();
    private.title = Some(RegexEq::new("Private").unwrap());
    let mut r = rule(vec![firefox], vec![private]);
    r.open_floating = Some(true);
    let resolved = ResolvedWindowRules::compute(&[r], WindowRef::Mapped(&m), false);
    assert_eq!(resolved.open_floating, None);
}

#[test]
fn size_bounds_and_open_floating() {
    let m = mapped(role(None, None, false), false, false);
    let mut r = rule(vec![], vec![]);
    r.min_height = Some(300);
    r.max_height = Some(300);
    r.max_width = Some(0);
    let resolved = ResolvedWindowRules::compute(&[r], WindowRef::Mapped(&m), false);

    let min = resolved.apply_min_size(Size { w: 10, h: 100 });
    assert_eq!(min, Size { w: 10, h: 300 });
    let max = resolved.apply_max_size(Size { w: 800, h: 0 });
    assert_eq!(max, Size { w: 800, h: 300 });
    let max = resolved.apply_max_size(Size { w: 800, h: 500 });
    assert_eq!(max, Size { w: 800, h: 300 });

    let toplevel = ToplevelSurface {
        has_parent: false,
        min_size: Size { w: 0, h: 0 },
        max_size: Size { w: 0, h: 0 },
    };
    // Fixed height after the bounds: opens floating.
    assert!(resolved.compute_open_floating(&toplevel));

    let plain = ResolvedWindowRules::compute(&[], WindowRef::Mapped(&m), false);
    assert!(!plain.compute_open_floating(&toplevel));
    let dialog = ToplevelSurface {
        has_parent: true,
        ..toplevel
    };
    assert!(plain.compute_open_floating(&dialog));
    let fixed = ToplevelSurface {
        has_parent: false,
        min_size: Size { w: 0, h: 200 },
        max_size: Size { w: 0, h: 200 },
    };
    assert!(plain.compute_open_floating(&fixed));

    let mut explicit = rule(vec![], vec![]);
    explicit.open_floating = Some(false);
    let resolved = ResolvedWindowRules::compute(&[explicit], WindowRef::Mapped(&m), false);
    assert!(!resolved.compute_open_floating(&dialog));
}

fn layout_window(id: u64, ws: u64, output: Option<&str>, ts: Option<u128>, title: &str) -> LayoutWindow {
    LayoutWindow {
        id,
        workspace_id: WorkspaceId::specific(ws),
        output_name: output.map(str::to_owned),
        focus_timestamp: ts,
        mapped: mapped(role(Some("app"), Some(title), false), false, false),
    }
}

#[test]
fn position_frame_target_skips_dependent_and_non_matching() {
    let mut target = matcher();
    target.title = Some(RegexEq::new("^target$").unwrap());
    let windows = vec![
        // The dependent itself matches but is never its own target.
        layout_window(1, 1, Some("DP-1"), Some(500), "target"),
        // Does not match the title.
        layout_window(2, 1, Some("DP-1"), Some(900), "other"),
        // Matches, on another workspace.
        layout_window(3, 2, Some("DP-2"), Some(100), "target"),
        // Matches, on the dependent's workspace but older.
        layout_window(4, 1, Some("DP-1"), Some(50), "target"),
    ];
    let r = resolve_position_frame_target(&windows, &target, 1, WorkspaceId::specific(1), Some("DP-1"), false);
    assert_eq!(r, Some(4));
}

#[test]
fn position_frame_target_none_without_match() {
    let mut target = matcher();
    target.title = Some(RegexEq::new("^nothing$").unwrap());
    let windows = vec![
        layout_window(1, 1, Some("DP-1"), Some(500), "target"),
        layout_window(2, 1, Some("DP-1"), None, "other"),
    ];
    let r = resolve_position_frame_target(&windows, &target, 1, WorkspaceId::specific(1), Some("DP-1"), false);
    assert_eq!(r, None);
}

#[test]
fn position_frame_target_falls_back_to_mru_across_layout() {
    let target = matcher();
    let windows = vec![
        layout_window(5, 7, Some("HDMI-A-1"), Some(10), "a"),
        layout_window(6, 8, None, Some(20), "b"),
        layout_window(9, 1, Some("DP-1"), None, "dependent"),
    ];
    let r = resolve_position_frame_target(&windows, &target, 9, WorkspaceId::specific(1), Some("DP-1"), false);
    assert_eq!(r, Some(6));
}

#[test]
fn default_resolved_rules_set_nothing() {
    let r = ResolvedWindowRules::default();
    assert_eq!(r.open_floating, None);
    assert_eq!(r.open_on_output, None);
    assert_eq!(r.min_width, None);
    assert_eq!(r.block_out_from, None);
    assert_eq!(r, ResolvedWindowRules::compute(&[], WindowRef::Unmapped(&Unmapped { role: role(None, None, false) }), false));
}
