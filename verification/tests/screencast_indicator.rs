use niri::screen_cast::{Color, ScreenCastIndicator};
use niri::screencasting::{output_indicator_visible, ActiveCasts, CastTarget};

fn casting_outputs(names: &[&str]) -> ActiveCasts {
    let targets: Vec<CastTarget> = names.iter().map(|n| CastTarget::output(n)).collect();
    let mut active = ActiveCasts::default();
    active.recompute_from_targets(&targets);
    active
}

#[test]
fn no_indicator_when_inactive() {
    let active = ActiveCasts::default();
    let config = ScreenCastIndicator { width: 2, color: None };
    assert!(!output_indicator_visible(&active, "HDMI-A-1", &config));
}

#[test]
fn no_indicator_when_width_zero() {
    let active = casting_outputs(&["HDMI-A-1"]);
    let config = ScreenCastIndicator {
        width: 0,
        color: Some(Color { r: 255, g: 0, b: 0, a: 255 }),
    };
    assert!(!output_indicator_visible(&active, "HDMI-A-1", &config));
}

#[test]
fn indicator_for_matching_output() {
    let active = casting_outputs(&["HDMI-A-1"]);
    let config = ScreenCastIndicator { width: 2, color: None };
    assert!(output_indicator_visible(&active, "HDMI-A-1", &config));
}

#[test]
fn no_indicator_for_unmatched_output() {
    let active = casting_outputs(&["HDMI-A-1"]);
    let config = ScreenCastIndicator { width: 2, color: None };
    assert!(!output_indicator_visible(&active, "DP-2", &config));
}

#[test]
fn indicator_ignored_when_window_cast_only() {
    // Window casts are decorated on the tile, never on the output.
    let mut active = ActiveCasts::default();
    active.recompute_from_targets(&[CastTarget::Window { id: 42 }]);
    let config = ScreenCastIndicator { width: 2, color: None };
    assert!(!output_indicator_visible(&active, "HDMI-A-1", &config));
}

#[test]
fn indicator_for_one_of_several_outputs() {
    let active = casting_outputs(&["DP-2", "HDMI-A-1", "DP-2"]);
    let config = ScreenCastIndicator { width: 1, color: None };
    assert!(output_indicator_visible(&active, "DP-2", &config));
    assert!(output_indicator_visible(&active, "HDMI-A-1", &config));
    assert!(!output_indicator_visible(&active, "eDP-1", &config));
}
