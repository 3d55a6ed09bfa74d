use std::collections::HashMap;

use niri::cast_state::{
    frame_render_due, frame_stop_due, FrameAction, SizeChange,
    CursorMode, RefreshUpdate,
    implicit_modifier_probe_needed, keep_only_implicit_modifier, strip_unsupported_implicit_modifier,
    Cast, DynamicRetarget, Format, Niri, PendingCast, PendingStart, PwAction, PwToNiri, RedrawPlan,
    ScreenCastAction, ScreenCastToNiri, Screencasting, State, StreamTargetId, WindowState,
    MODIFIER_INVALID,
};
use niri::screen_cast::ScreenCast;
use niri::screencasting::{is_zoom_app_id, ActiveCasts, CastTarget};

const ARGB8888: u32 = 0x34325241;
const XRGB8888: u32 = 0x34325258;
const LINEAR: u64 = 0;

fn format(code: u32, modifier: u64) -> Format {
    Format { code, modifier }
}

#[test]
fn strip_removes_invalid_entries_when_probe_says_not_renderable() {
    let formats = vec![
        format(ARGB8888, MODIFIER_INVALID),
        format(ARGB8888, LINEAR),
        format(XRGB8888, MODIFIER_INVALID),
    ];
    let result = strip_unsupported_implicit_modifier(formats, Some(false), false);
    assert_eq!(result, vec![format(ARGB8888, LINEAR)]);
}

#[test]
fn strip_is_identity_when_probe_says_renderable() {
    let formats = vec![format(ARGB8888, MODIFIER_INVALID), format(ARGB8888, LINEAR)];
    let result = strip_unsupported_implicit_modifier(formats.clone(), Some(true), false);
    assert_eq!(result, formats);
}

#[test]
fn debug_flag_bypasses_strip_even_when_probe_says_not_renderable() {
    let formats = vec![format(ARGB8888, MODIFIER_INVALID)];
    let result = strip_unsupported_implicit_modifier(formats.clone(), Some(false), true);
    assert_eq!(result, formats);
}

#[test]
fn strip_yields_empty_set_when_all_entries_are_invalid() {
    let formats = vec![format(ARGB8888, MODIFIER_INVALID), format(XRGB8888, MODIFIER_INVALID)];
    let result = strip_unsupported_implicit_modifier(formats, Some(false), false);
    assert_eq!(result.len(), 0);
}

#[test]
fn strip_is_identity_when_probe_has_not_run() {
    let formats = vec![format(ARGB8888, MODIFIER_INVALID)];
    let result = strip_unsupported_implicit_modifier(formats.clone(), None, false);
    assert_eq!(result, formats);
}

#[test]
fn probe_runs_once_and_only_with_implicit_formats() {
    let with_invalid = [format(ARGB8888, LINEAR), format(ARGB8888, MODIFIER_INVALID)];
    let without = [format(ARGB8888, LINEAR)];
    assert!(implicit_modifier_probe_needed(None, &with_invalid));
    assert!(!implicit_modifier_probe_needed(None, &without));
    assert!(!implicit_modifier_probe_needed(Some(true), &with_invalid));
    assert!(!implicit_modifier_probe_needed(Some(false), &with_invalid));
}

#[test]
fn forcing_implicit_modifier_keeps_only_those() {
    let formats = [
        format(ARGB8888, MODIFIER_INVALID),
        format(ARGB8888, LINEAR),
        format(XRGB8888, MODIFIER_INVALID),
    ];
    assert_eq!(
        keep_only_implicit_modifier(&formats),
        vec![format(ARGB8888, MODIFIER_INVALID), format(XRGB8888, MODIFIER_INVALID)]
    );
}

#[test]
fn zoom_app_id_lowercase() {
    assert!(is_zoom_app_id("zoom"));
}

#[test]
fn zoom_app_id_titlecase() {
    assert!(is_zoom_app_id("Zoom"));
}

#[test]
fn zoom_app_id_rejects_others() {
    assert!(!is_zoom_app_id("zoomer"));
    assert!(!is_zoom_app_id("ZoomCorp"));
    assert!(!is_zoom_app_id("firefox"));
    assert!(!is_zoom_app_id(""));
    assert!(!is_zoom_app_id("ZOOM"));
}

fn pending(session_id: u64, stream_id: u64) -> PendingCast {
    PendingCast {
        session_id,
        stream_id,
        cursor_mode: CursorMode::Embedded,
    }
}

fn casting() -> Screencasting {
    Screencasting {
        casts: Vec::new(),
        pending_dynamic_casts: Vec::new(),
        active_casts: ActiveCasts::default(),
        window_cast_sizes: HashMap::new(),
        mapped_cast_output: HashMap::new(),
        dynamic_cast_id_for_portal: 1000,
        pipewire_running: true,
        implicit_modifier_renderable: None,
    }
}

fn window(id: u64, app_id: Option<&str>, output: Option<&str>) -> WindowState {
    WindowState {
        id,
        app_id: app_id.map(str::to_owned),
        output: output.map(str::to_owned),
        cast_size: (id as i32 * 10, id as i32 * 20),
        is_window_cast_target: false,
        block_out_for_screencast_auto: false,
    }
}

fn state(windows: Vec<WindowState>) -> State {
    State {
        niri: Niri {
            casting: casting(),
            windows,
            outputs: vec!["DP-1".to_owned(), "HDMI-A-1".to_owned()],
            screen_cast_config: ScreenCast::default(),
            is_locked: false,
        },
    }
}

fn cast(session_id: u64, stream_id: u64, target: CastTarget, dynamic_target: bool) -> Cast {
    Cast {
        session_id,
        stream_id,
        target,
        dynamic_target,
    }
}

#[test]
fn stop_cast_drops_the_session_only() {
    let mut st = state(vec![]);
    st.niri.casting.add_cast(cast(1, 10, CastTarget::Window { id: 5 }, false));
    st.niri.casting.add_cast(cast(2, 20, CastTarget::output("DP-1"), false));
    st.niri.casting.add_cast(cast(1, 11, CastTarget::output("HDMI-A-1"), false));
    st.niri.casting.pending_dynamic_casts.push(pending(1, 12));
    st.niri.casting.pending_dynamic_casts.push(pending(3, 30));

    let stopped = st.niri.casting.stop_cast(1);
    assert_eq!(stopped.session_id, 1);
    // Casts are dropped from the last to the first.
    assert_eq!(stopped.disconnected_streams, vec![11, 10]);
    assert_eq!(st.niri.casting.casts.len(), 1);
    assert_eq!(st.niri.casting.casts[0].session_id, 2);
    assert_eq!(
        st.niri.casting.pending_dynamic_casts,
        vec![pending(3, 30)]
    );
    assert!(!st.niri.casting.active_casts.contains_window(5));
    assert!(!st.niri.casting.active_casts.contains_output("HDMI-A-1"));
    assert!(st.niri.casting.active_casts.contains_output("DP-1"));
}

#[test]
fn pw_fatal_error_stops_every_session_once() {
    let mut st = state(vec![]);
    st.niri.casting.add_cast(cast(1, 10, CastTarget::Window { id: 5 }, false));
    st.niri.casting.add_cast(cast(1, 11, CastTarget::Window { id: 6 }, false));
    st.niri.casting.add_cast(cast(2, 20, CastTarget::Nothing, true));
    st.niri.casting.pending_dynamic_casts.push(pending(3, 30));

    match st.on_pw_msg(PwToNiri::FatalError) {
        PwAction::Stop {
            sessions,
            shutdown_pipewire,
        } => {
            assert!(shutdown_pipewire);
            let mut ids: Vec<u64> = sessions.iter().map(|s| s.session_id).collect();
            ids.sort_unstable();
            assert_eq!(ids, vec![1, 2, 3]);
            for s in &sessions {
                let expected: Vec<u64> = match s.session_id {
                    1 => vec![11, 10],
                    2 => vec![20],
                    _ => vec![],
                };
                assert_eq!(s.disconnected_streams, expected);
            }
        }
        other => panic!("unexpected action {other:?}"),
    }
    assert!(st.niri.casting.casts.is_empty());
    assert!(st.niri.casting.pending_dynamic_casts.is_empty());
    assert!(!st.niri.casting.pipewire_running);
    assert!(st.niri.casting.active_casts.is_empty());

    // Without PipeWire, a second fatal error does nothing.
    match st.on_pw_msg(PwToNiri::FatalError) {
        PwAction::Stop {
            sessions,
            shutdown_pipewire,
        } => {
            assert!(sessions.is_empty());
            assert!(!shutdown_pipewire);
        }
        other => panic!("unexpected action {other:?}"),
    }
}

#[test]
fn pw_stop_and_redraw_messages() {
    let mut st = state(vec![]);
    st.niri.casting.add_cast(cast(4, 40, CastTarget::Window { id: 5 }, false));
    match st.on_pw_msg(PwToNiri::Redraw { stream_id: 40 }) {
        PwAction::Redraw { stream_id } => assert_eq!(stream_id, 40),
        other => panic!("unexpected action {other:?}"),
    }
    match st.on_pw_msg(PwToNiri::StopCast { session_id: 4 }) {
        PwAction::Stop { sessions, .. } => {
            assert_eq!(sessions.len(), 1);
            assert_eq!(sessions[0].disconnected_streams, vec![40]);
        }
        other => panic!("unexpected action {other:?}"),
    }
    assert!(st.niri.casting.casts.is_empty());
}

#[test]
fn window_cast_target_flags_follow_casts() {
    let mut st = state(vec![window(1, None, None), window(2, None, None)]);
    st.niri.casting.add_cast(cast(1, 10, CastTarget::Window { id: 2 }, false));
    st.niri.refresh_mapped_cast_window_rules();
    assert!(!st.niri.windows[0].is_window_cast_target);
    assert!(st.niri.windows[1].is_window_cast_target);
}

#[test]
fn zoom_auto_hide_policy() {
    let mut st = state(vec![
        window(1, Some("zoom"), None),
        window(2, Some("Zoom"), None),
        window(3, Some("firefox"), None),
    ]);
    // Nothing cast: nothing hidden, nothing changes.
    assert!(!st.niri.refresh_screencast_auto_hide());
    assert!(st.niri.windows.iter().all(|w| !w.block_out_for_screencast_auto));

    // Casting Zoom window 2: window 1 is hidden, 2 (being cast) and 3 are not.
    st.niri.casting.add_cast(cast(1, 10, CastTarget::Window { id: 2 }, false));
    assert!(st.niri.refresh_screencast_auto_hide());
    assert!(st.niri.windows[0].block_out_for_screencast_auto);
    assert!(!st.niri.windows[1].block_out_for_screencast_auto);
    assert!(!st.niri.windows[2].block_out_for_screencast_auto);
    assert!(!st.niri.refresh_screencast_auto_hide());

    // Policy off: everything unhidden.
    st.niri.screen_cast_config.hide_zoom_non_shared_windows = false;
    assert!(st.niri.refresh_screencast_auto_hide());
    assert!(st.niri.windows.iter().all(|w| !w.block_out_for_screencast_auto));
}

#[test]
fn mapped_cast_outputs_track_windows() {
    let mut st = state(vec![window(1, None, Some("DP-1")), window(2, None, None)]);
    st.niri.casting.mapped_cast_output.insert(2, "HDMI-A-1".to_owned());
    st.niri.casting.mapped_cast_output.insert(9, "DP-1".to_owned());
    let changed = st.niri.refresh_mapped_cast_outputs();
    assert!(changed.is_empty());
    assert_eq!(st.niri.casting.mapped_cast_output.get(&1).map(|s| s.as_str()), Some("DP-1"));
    assert_eq!(st.niri.casting.mapped_cast_output.get(&2).map(|s| s.as_str()), Some("HDMI-A-1"));
    assert_eq!(st.niri.casting.mapped_cast_output.get(&9), None);

    st.niri.windows[0].output = Some("HDMI-A-1".to_owned());
    let changed = st.niri.refresh_mapped_cast_outputs();
    assert_eq!(changed, vec![(1, "HDMI-A-1".to_owned())]);
}

#[test]
fn window_cast_sizes_cover_cast_windows_with_known_output() {
    let mut st = state(vec![window(1, None, Some("DP-1")), window(2, None, None), window(3, None, Some("DP-1"))]);
    st.niri.refresh_mapped_cast_outputs();
    st.niri.casting.add_cast(cast(1, 10, CastTarget::Window { id: 1 }, false));
    st.niri.casting.add_cast(cast(1, 11, CastTarget::Window { id: 2 }, false));
    st.niri.refresh_window_cast_sizes();
    let sizes = &st.niri.casting.window_cast_sizes;
    assert_eq!(sizes.len(), 1);
    assert_eq!(sizes.get(&1), Some(&(10, 20)));
    assert_eq!(st.niri.cast_params_for_window(3), Some((30, 60)));
    assert_eq!(st.niri.cast_params_for_window(2), None);
}

#[test]
fn screen_cast_requests() {
    let mut st = state(vec![window(1, None, Some("DP-1"))]);
    st.niri.refresh_mapped_cast_outputs();

    let a = st.on_screen_cast_msg(ScreenCastToNiri::StartCast {
        session_id: 1,
        stream_id: 10,
        target: StreamTargetId::Output { name: "DP-1".to_owned() },
        cursor_mode: CursorMode::Metadata,
    });
    match a {
        ScreenCastAction::Start { target, alpha, cursor_mode, .. } => {
            assert!(target.same_as(&CastTarget::output("DP-1")));
            assert!(!alpha);
            assert_eq!(cursor_mode, CursorMode::Metadata);
        }
        other => panic!("unexpected action {other:?}"),
    }

    let a = st.on_screen_cast_msg(ScreenCastToNiri::StartCast {
        session_id: 2,
        stream_id: 20,
        target: StreamTargetId::Output { name: "eDP-9".to_owned() },
        cursor_mode: CursorMode::Metadata,
    });
    assert!(matches!(a, ScreenCastAction::Stopped(s) if s.session_id == 2));

    let a = st.on_screen_cast_msg(ScreenCastToNiri::StartCast {
        session_id: 3,
        stream_id: 30,
        target: StreamTargetId::Window { id: 1 },
        cursor_mode: CursorMode::Metadata,
    });
    assert!(matches!(a, ScreenCastAction::Start { alpha: true, target: CastTarget::Window { id: 1 }, .. }));

    let a = st.on_screen_cast_msg(ScreenCastToNiri::StartCast {
        session_id: 4,
        stream_id: 40,
        target: StreamTargetId::Window { id: 77 },
        cursor_mode: CursorMode::Metadata,
    });
    assert!(matches!(a, ScreenCastAction::Stopped(_)));

    let a = st.on_screen_cast_msg(ScreenCastToNiri::StartCast {
        session_id: 5,
        stream_id: 50,
        target: StreamTargetId::Window { id: 1000 },
        cursor_mode: CursorMode::Metadata,
    });
    assert!(matches!(a, ScreenCastAction::Deferred));
    assert_eq!(
        st.niri.casting.pending_dynamic_casts,
        vec![PendingCast {
            session_id: 5,
            stream_id: 50,
            cursor_mode: CursorMode::Metadata,
        }]
    );
}

#[test]
fn redraw_plans() {
    let mut st = state(vec![]);
    st.niri.casting.add_cast(cast(1, 10, CastTarget::Nothing, true));
    st.niri.casting.add_cast(cast(2, 20, CastTarget::output("DP-1"), false));
    st.niri.casting.add_cast(cast(3, 30, CastTarget::Window { id: 4 }, false));
    assert!(matches!(st.redraw_cast(10), RedrawPlan::ClearBuffer));
    assert!(matches!(st.redraw_cast(20), RedrawPlan::QueueOutputRedraw { ref name } if name == "DP-1"));
    assert!(matches!(st.redraw_cast(30), RedrawPlan::RenderWindow { id: 4 }));
    assert!(matches!(st.redraw_cast(99), RedrawPlan::Missing));
    st.niri.is_locked = true;
    assert!(matches!(st.redraw_cast(30), RedrawPlan::ClearBuffer));
}

#[test]
fn dynamic_target_switch_and_pending_start() {
    let mut st = state(vec![]);
    st.niri.casting.add_cast(cast(1, 10, CastTarget::Nothing, true));
    st.niri.casting.add_cast(cast(2, 20, CastTarget::Nothing, true));
    st.niri.casting.add_cast(cast(3, 30, CastTarget::Window { id: 4 }, false));
    st.niri.casting.pending_dynamic_casts.push(pending(5, 50));

    let DynamicRetarget {
        redraw_streams,
        start_pending,
    } = st.set_dynamic_cast_target(CastTarget::output("DP-1"), &[20]);
    assert_eq!(redraw_streams, vec![10]);
    assert!(start_pending);
    assert!(st.niri.casting.casts[0].target.same_as(&CastTarget::output("DP-1")));
    assert!(st.niri.casting.casts[1].target.same_as(&CastTarget::Nothing));
    assert!(st.niri.casting.active_casts.contains_output("DP-1"));

    let dp1 = CastTarget::output("DP-1");
    assert!(st.pending_dynamic_start_ready(&dp1));
    let list = match st.start_pending_dynamic_casts(&dp1, true) {
        PendingStart::Start(list) => list,
        other => panic!("unexpected {other:?}"),
    };
    assert_eq!(list, vec![pending(5, 50)]);
    assert!(st.niri.casting.pending_dynamic_casts.is_empty());
    assert!(matches!(st.start_pending_dynamic_casts(&dp1, true), PendingStart::Nothing));

    let stopped = st.record_started_dynamic_casts(&dp1, &list, &[true]);
    assert!(stopped.is_empty());
    let last = st.niri.casting.casts.last().unwrap();
    assert_eq!((last.session_id, last.stream_id, last.dynamic_target), (5, 50, true));
    assert!(last.target.same_as(&dp1));
}

#[test]
fn pending_casts_stop_when_pipewire_cannot_start() {
    let mut st = state(vec![]);
    st.niri.casting.pending_dynamic_casts.push(pending(5, 50));
    st.niri.casting.pending_dynamic_casts.push(pending(5, 51));
    // An output that is not connected is no target yet.
    assert!(matches!(
        st.start_pending_dynamic_casts(&CastTarget::output("eDP-9"), true),
        PendingStart::Nothing
    ));
    assert!(matches!(
        st.start_pending_dynamic_casts(&CastTarget::Window { id: 3 }, true),
        PendingStart::Nothing
    ));
    assert_eq!(st.niri.casting.pending_dynamic_casts.len(), 2);
    match st.start_pending_dynamic_casts(&CastTarget::output("DP-1"), false) {
        PendingStart::Stopped(s) => {
            assert_eq!(s.len(), 1);
            assert_eq!(s[0].session_id, 5);
        }
        other => panic!("unexpected {other:?}"),
    }
    assert!(st.niri.casting.pending_dynamic_casts.is_empty());
}

#[test]
fn stopping_casts_of_a_target_spares_dynamic_ones() {
    let mut st = state(vec![]);
    st.niri.casting.add_cast(cast(1, 10, CastTarget::Window { id: 4 }, false));
    st.niri.casting.add_cast(cast(2, 20, CastTarget::Window { id: 4 }, true));
    st.niri.casting.add_cast(cast(3, 30, CastTarget::Window { id: 5 }, false));
    let r = st.niri.stop_casts_for_target(&CastTarget::Window { id: 4 });
    assert!(r.switch_dynamic_to_nothing);
    assert_eq!(r.stopped.len(), 1);
    assert_eq!(r.stopped[0].session_id, 1);
    // The last cast takes the place of the dropped one.
    let sessions: Vec<u64> = st.niri.casting.casts.iter().map(|c| c.session_id).collect();
    assert_eq!(sessions, vec![3, 2]);
}

#[test]
fn new_screencasting_is_idle() {
    let s = Screencasting::new(77);
    assert!(s.casts.is_empty());
    assert!(s.pending_dynamic_casts.is_empty());
    assert!(s.active_casts.is_empty());
    assert!(s.window_cast_sizes.is_empty());
    assert!(s.mapped_cast_output.is_empty());
    assert_eq!(s.dynamic_cast_id_for_portal, 77);
    assert!(!s.pipewire_running);
    assert_eq!(s.implicit_modifier_renderable, None);
}

#[test]
fn stopping_a_target_cast_twice_in_one_session_stops_it_once() {
    let mut st = state(vec![]);
    st.niri.casting.add_cast(cast(1, 10, CastTarget::output("DP-1"), false));
    st.niri.casting.add_cast(cast(1, 11, CastTarget::output("DP-1"), false));
    st.niri.casting.add_cast(cast(1, 12, CastTarget::Window { id: 3 }, false));
    let r = st.niri.stop_casts_for_target(&CastTarget::output("DP-1"));
    assert!(!r.switch_dynamic_to_nothing);
    assert_eq!(r.stopped.len(), 2);
    assert_eq!(r.stopped[0].session_id, 1);
    assert_eq!(r.stopped[0].disconnected_streams, vec![12, 11, 10]);
    assert_eq!(r.stopped[1].session_id, 1);
    assert!(r.stopped[1].disconnected_streams.is_empty());
    assert!(st.niri.casting.casts.is_empty());
}

#[test]
fn pending_stop_disconnects_live_streams_of_the_session() {
    let mut st = state(vec![]);
    st.niri.casting.add_cast(cast(5, 49, CastTarget::Window { id: 2 }, false));
    st.niri.casting.add_cast(cast(6, 60, CastTarget::Window { id: 2 }, false));
    st.niri.casting.pending_dynamic_casts.push(pending(5, 50));
    match st.start_pending_dynamic_casts(&CastTarget::output("HDMI-A-1"), false) {
        PendingStart::Stopped(s) => {
            assert_eq!(s.len(), 1);
            assert_eq!(s[0].disconnected_streams, vec![49]);
        }
        other => panic!("unexpected {other:?}"),
    }
    let sessions: Vec<u64> = st.niri.casting.casts.iter().map(|c| c.session_id).collect();
    assert_eq!(sessions, vec![6]);
}

#[test]
fn started_dynamic_casts_are_recorded_and_failures_stop_their_session() {
    let mut st = state(vec![window(2, None, Some("DP-1"))]);
    st.niri.refresh_mapped_cast_outputs();
    st.niri.casting.add_cast(cast(8, 80, CastTarget::output("DP-1"), false));
    st.niri.casting.pending_dynamic_casts.push(pending(6, 60));
    st.niri.casting.pending_dynamic_casts.push(pending(7, 70));
    st.niri.casting.pending_dynamic_casts.push(pending(6, 61));
    let target = CastTarget::Window { id: 2 };
    let list = match st.start_pending_dynamic_casts(&target, true) {
        PendingStart::Start(list) => list,
        other => panic!("unexpected {other:?}"),
    };
    // Stream 60 starts, 70 starts, 61 fails: session 6 stops as a whole.
    let stopped = st.record_started_dynamic_casts(&target, &list, &[true, true, false]);
    assert_eq!(stopped.len(), 1);
    assert_eq!(stopped[0].session_id, 6);
    assert_eq!(stopped[0].disconnected_streams, vec![60]);
    let kept: Vec<(u64, u64, bool)> = st
        .niri
        .casting
        .casts
        .iter()
        .map(|c| (c.session_id, c.stream_id, c.dynamic_target))
        .collect();
    assert_eq!(kept, vec![(8, 80, false), (7, 70, true)]);
    assert!(st.niri.casting.active_casts.contains_window(2));
    assert!(st.niri.casting.active_casts.contains_output("DP-1"));
}

#[test]
fn moved_cast_windows_owe_frame_rate_updates() {
    let mut st = state(vec![window(2, None, Some("DP-1")), window(3, None, Some("DP-1"))]);
    st.niri.refresh_mapped_cast_outputs();
    st.niri.casting.add_cast(cast(1, 10, CastTarget::Window { id: 2 }, false));
    st.niri.casting.add_cast(cast(2, 20, CastTarget::Window { id: 3 }, false));
    st.niri.casting.add_cast(cast(3, 30, CastTarget::Window { id: 2 }, true));
    st.niri.windows[0].output = Some("HDMI-A-1".to_owned());
    let changed = st.niri.refresh_mapped_cast_outputs();
    assert_eq!(changed, vec![(2, "HDMI-A-1".to_owned())]);
    let updates = st.niri.casting.refresh_updates_for(&changed);
    let seen: Vec<(u64, u64, &str)> = updates
        .iter()
        .map(|u: &RefreshUpdate| (u.stream_id, u.session_id, u.output.as_str()))
        .collect();
    assert_eq!(seen, vec![(10, 1, "HDMI-A-1"), (30, 3, "HDMI-A-1")]);
    // The update of stream 30 fails: its session stops.
    let stopped = st.niri.casting.stop_sessions(&vec![3]);
    assert_eq!(stopped[0].disconnected_streams, vec![30]);
    assert_eq!(st.niri.casting.casts.len(), 2);
}

#[test]
fn pipewire_preparation_probes_once_and_offers_formats() {
    let mut st = state(vec![]);
    st.niri.casting.pipewire_running = false;
    let formats = [format(ARGB8888, LINEAR), format(ARGB8888, MODIFIER_INVALID)];
    assert!(implicit_modifier_probe_needed(
        st.niri.casting.implicit_modifier_renderable,
        &formats
    ));
    let offered = st.prepare_pw_cast(&formats, Some(false), false);
    assert_eq!(offered, vec![format(ARGB8888, LINEAR)]);
    assert_eq!(st.niri.casting.implicit_modifier_renderable, Some(false));
    assert!(st.niri.casting.pipewire_running);
    // Cached now: no second probe, and a new result does not replace it.
    assert!(!implicit_modifier_probe_needed(
        st.niri.casting.implicit_modifier_renderable,
        &formats
    ));
    let offered = st.prepare_pw_cast(&formats, Some(true), false);
    assert_eq!(offered, vec![format(ARGB8888, LINEAR)]);
    assert_eq!(st.niri.casting.implicit_modifier_renderable, Some(false));
    // Forcing the implicit modifier keeps only those formats.
    let offered = st.prepare_pw_cast(&formats, None, true);
    assert_eq!(offered, vec![format(ARGB8888, MODIFIER_INVALID)]);
}

#[test]
fn probe_result_is_not_cached_without_implicit_formats() {
    let mut st = state(vec![]);
    let formats = [format(XRGB8888, LINEAR)];
    let offered = st.prepare_pw_cast(&formats, Some(false), false);
    assert_eq!(offered, vec![format(XRGB8888, LINEAR)]);
    assert_eq!(st.niri.casting.implicit_modifier_renderable, None);
}

#[test]
fn output_frame_renders_active_casts_of_that_output() {
    let mut st = state(vec![]);
    st.niri.casting.add_cast(cast(1, 10, CastTarget::output("DP-1"), false));
    st.niri.casting.add_cast(cast(2, 20, CastTarget::output("HDMI-A-1"), false));
    st.niri.casting.add_cast(cast(3, 30, CastTarget::output("DP-1"), false));
    st.niri.casting.add_cast(cast(4, 40, CastTarget::Window { id: 7 }, false));
    let plan = st.plan_output_frame("DP-1", &[true, true, false, true]);
    assert_eq!(
        plan,
        vec![
            FrameAction::Render { stream_id: 10 },
            FrameAction::Skip,
            FrameAction::Skip,
            FrameAction::Skip
        ]
    );
}

#[test]
fn window_frames_clear_while_locked() {
    let mut st = state(vec![]);
    st.niri.casting.add_cast(cast(1, 10, CastTarget::Window { id: 7 }, false));
    st.niri.casting.add_cast(cast(2, 20, CastTarget::Window { id: 8 }, false));
    st.niri.casting.add_cast(cast(3, 30, CastTarget::output("DP-1"), false));
    st.niri.casting.add_cast(cast(4, 40, CastTarget::Window { id: 7 }, false));
    let active = [true, true, true, false];
    assert_eq!(
        st.plan_window_frames(&[7], &active),
        vec![
            FrameAction::Render { stream_id: 10 },
            FrameAction::Skip,
            FrameAction::Skip,
            FrameAction::Skip
        ]
    );
    st.niri.is_locked = true;
    assert_eq!(
        st.plan_window_frames(&[7], &active),
        vec![
            FrameAction::Clear { stream_id: 10 },
            FrameAction::Clear { stream_id: 20 },
            FrameAction::Skip,
            FrameAction::Skip
        ]
    );
}

#[test]
fn frame_render_and_stop_decisions() {
    assert!(frame_render_due(SizeChange::Ready, false));
    assert!(!frame_render_due(SizeChange::Ready, true));
    assert!(!frame_render_due(SizeChange::Pending, false));
    // A failed resize still renders, then stops the session.
    assert!(frame_render_due(SizeChange::Failed, false));
    assert!(frame_stop_due(SizeChange::Failed, false, true));
    assert!(frame_stop_due(SizeChange::Ready, true, false));
    assert!(!frame_stop_due(SizeChange::Ready, true, true));
    assert!(!frame_stop_due(SizeChange::Ready, false, false));
    assert!(!frame_stop_due(SizeChange::Pending, false, false));
}
