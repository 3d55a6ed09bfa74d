use niri::kdl::{ConfigError, KdlNode, KdlValue};
use niri::screen_cast::{parse_screen_cast_config, parse_screen_cast_text, ScreenCast, ScreenCastIndicator};

fn parse_mem(text: &str) -> Result<ScreenCast, ConfigError> {
    parse_screen_cast_text("config.kdl", text)
}

#[test]
fn default_hides_overlay_and_top_only() {
    let sc = parse_mem("").unwrap();
    assert!(sc.hide_overlay_layer, "default hide_overlay_layer is true");
    assert!(sc.hide_top_layer, "default hide_top_layer is true");
    assert!(!sc.hide_bottom_layer, "default hide_bottom_layer is false");
    assert!(
        !sc.hide_background_layer,
        "default hide_background_layer is false"
    );
    assert!(
        sc.hide_zoom_non_shared_windows,
        "default hide_zoom_non_shared_windows is true"
    );
    assert_eq!(sc.indicator.width, 0, "indicator off by default");
    assert!(
        sc.indicator.color.is_none(),
        "indicator color None by default"
    );
}

#[test]
fn parse_indicator_only() {
    let sc = parse_mem(
        r##"
        screen-cast {
            indicator {
                width 2
            }
        }
        "##,
    )
    .unwrap();

    assert_eq!(sc.indicator.width, 2);
    assert!(sc.indicator.color.is_none());
    // Other defaults still apply.
    assert!(sc.hide_overlay_layer);
}

#[test]
fn parse_indicator_with_color() {
    let sc = parse_mem(
        r##"
        screen-cast {
            indicator {
                width 3
                color "#ff5555"
            }
        }
        "##,
    )
    .unwrap();

    let indicator = sc.indicator;
    assert_eq!(indicator.width, 3);
    let color = indicator.color.expect("color set");
    let r = color.r as f32 / 255.;
    let g = color.g as f32 / 255.;
    let b = color.b as f32 / 255.;
    assert!((r - 1.0).abs() < 0.01);
    assert!((g - 0x55 as f32 / 255.).abs() < 0.01);
    assert!((b - 0x55 as f32 / 255.).abs() < 0.01);
}

#[test]
fn parse_each_layer_flag_off() {
    let sc = parse_mem(
        r##"
        screen-cast {
            hide-overlay-layer false
            hide-top-layer false
            hide-zoom-non-shared-windows false
        }
        "##,
    )
    .unwrap();

    assert!(!sc.hide_overlay_layer);
    assert!(!sc.hide_top_layer);
    assert!(!sc.hide_zoom_non_shared_windows);
    // Untouched defaults preserved.
    assert!(!sc.hide_bottom_layer);
    assert!(!sc.hide_background_layer);
}

#[test]
fn parse_each_layer_flag_on() {
    let sc = parse_mem(
        r##"
        screen-cast {
            hide-bottom-layer true
            hide-background-layer true
        }
        "##,
    )
    .unwrap();

    assert!(sc.hide_bottom_layer);
    assert!(sc.hide_background_layer);
    // Untouched defaults preserved.
    assert!(sc.hide_overlay_layer);
    assert!(sc.hide_top_layer);
}

#[test]
fn parse_flag_without_argument_means_true() {
    let sc = parse_mem(
        r##"
        screen-cast {
            hide-bottom-layer
        }
        "##,
    )
    .unwrap();

    assert!(sc.hide_bottom_layer);
}

#[test]
fn parse_full() {
    let sc = parse_mem(
        r##"
        screen-cast {
            indicator {
                width 4
                color "#00ff00"
            }
            hide-overlay-layer false
            hide-top-layer false
            hide-bottom-layer true
            hide-background-layer true
            hide-zoom-non-shared-windows false
        }
        "##,
    )
    .unwrap();

    assert_eq!(sc.indicator.width, 4);
    assert!(sc.indicator.color.is_some());
    assert!(!sc.hide_overlay_layer);
    assert!(!sc.hide_top_layer);
    assert!(sc.hide_bottom_layer);
    assert!(sc.hide_background_layer);
    assert!(!sc.hide_zoom_non_shared_windows);
}

#[test]
fn debug_default_is_stable() {
    let expected = "ScreenCast {
    indicator: ScreenCastIndicator {
        width: 0,
        color: None,
    },
    hide_overlay_layer: true,
    hide_top_layer: true,
    hide_bottom_layer: false,
    hide_background_layer: false,
    hide_zoom_non_shared_windows: true,
}";
    assert_eq!(format!("{:#?}", ScreenCast::default()), expected);
}

#[test]
fn default_indicator_is_off() {
    let ind = ScreenCastIndicator::default();
    assert_eq!(ind.width, 0);
    assert_eq!(ind.color, None);
}

#[test]
fn later_screen_cast_section_overrides_earlier() {
    let sc = parse_mem(
        r##"
        screen-cast {
            hide-top-layer false
            indicator { width 2; }
        }
        screen-cast {
            hide-top-layer true
            indicator { color "#0000ff"; }
        }
        "##,
    )
    .unwrap();
    assert!(sc.hide_top_layer);
    assert_eq!(sc.indicator.width, 2);
    let c = sc.indicator.color.unwrap();
    assert_eq!((c.r, c.g, c.b, c.a), (0, 0, 255, 255));
}

#[test]
fn other_sections_are_not_read() {
    let sc = parse_mem(
        r##"
        layout { gaps 16; }
        screen-cast { hide-bottom-layer; }
        "##,
    )
    .unwrap();
    assert!(sc.hide_bottom_layer);
}

#[test]
fn unknown_child_is_refused() {
    assert_eq!(
        parse_mem("screen-cast { hide-everything; }"),
        Err(ConfigError::UnknownNode)
    );
}

#[test]
fn duplicate_child_is_refused() {
    assert_eq!(
        parse_mem("screen-cast { hide-top-layer; hide-top-layer false; }"),
        Err(ConfigError::DuplicateNode)
    );
}

#[test]
fn flag_with_two_arguments_is_refused() {
    assert_eq!(
        parse_mem("screen-cast { hide-top-layer true false; }"),
        Err(ConfigError::UnexpectedArgument)
    );
}

#[test]
fn flag_with_non_boolean_is_refused() {
    assert_eq!(
        parse_mem("screen-cast { hide-top-layer 1; }"),
        Err(ConfigError::InvalidValue)
    );
}

#[test]
fn width_out_of_range_is_refused() {
    assert_eq!(
        parse_mem("screen-cast { indicator { width 70000; }; }"),
        Err(ConfigError::InvalidValue)
    );
    assert_eq!(
        parse_mem("screen-cast { indicator { width -1; }; }"),
        Err(ConfigError::InvalidValue)
    );
}

#[test]
fn width_without_argument_is_refused() {
    assert_eq!(
        parse_mem("screen-cast { indicator { width; }; }"),
        Err(ConfigError::MissingArgument)
    );
}

#[test]
fn bad_color_is_refused() {
    assert_eq!(
        parse_mem(r#"screen-cast { indicator { color "not-a-color"; }; }"#),
        Err(ConfigError::InvalidValue)
    );
}

#[test]
fn section_argument_property_and_flag_child_are_refused() {
    assert_eq!(
        parse_mem("screen-cast 1 { }"),
        Err(ConfigError::UnexpectedArgument)
    );
    assert_eq!(
        parse_mem("screen-cast x=1 { }"),
        Err(ConfigError::UnexpectedProperty)
    );
    assert_eq!(
        parse_mem("screen-cast { hide-top-layer { x; }; }"),
        Err(ConfigError::UnexpectedChild)
    );
    assert_eq!(
        parse_mem("screen-cast { hide-top-layer y=1; }"),
        Err(ConfigError::UnexpectedProperty)
    );
}

#[test]
fn text_that_is_not_kdl_is_refused() {
    assert_eq!(parse_mem("screen-cast {").unwrap_err(), ConfigError::Syntax);
    assert_eq!(parse_mem("\"unterminated").unwrap_err(), ConfigError::Syntax);
}

#[test]
fn decoding_hand_built_nodes() {
    let node = |name: &str, arguments: Vec<KdlValue>, children: Option<Vec<KdlNode>>| KdlNode {
        name: name.to_string(),
        arguments,
        properties: Vec::new(),
        children,
    };
    let nodes = vec![node(
        "screen-cast",
        vec![],
        Some(vec![
            node("hide-top-layer", vec![KdlValue::Bool(false)], None),
            node("indicator", vec![], Some(vec![node("width", vec![KdlValue::Int(Some(4))], None)])),
        ]),
    )];
    let sc = parse_screen_cast_config(&nodes).unwrap();
    assert!(!sc.hide_top_layer);
    assert!(sc.hide_overlay_layer);
    assert_eq!(sc.indicator.width, 4);

    let too_wide = vec![node(
        "screen-cast",
        vec![],
        Some(vec![node("indicator", vec![], Some(vec![node("width", vec![KdlValue::Int(None)], None)]))]),
    )];
    assert_eq!(parse_screen_cast_config(&too_wide).unwrap_err(), ConfigError::InvalidValue);
}

#[test]
fn non_ascii_color_is_refused_without_panicking() {
    let sc = parse_mem(
        r##"
        screen-cast {
            indicator {
                color "hsl(éé, 1, 1)"
            }
        }
        "##,
    );
    assert_eq!(sc.unwrap_err(), ConfigError::InvalidValue);
}

#[test]
fn color_with_surrounding_unicode_whitespace_is_read() {
    let sc = parse_mem(
        "screen-cast {\n    indicator {\n        color \"\u{a0}#00ff00\u{2003}\"\n    }\n}\n",
    )
    .unwrap();
    let c = sc.indicator.color.expect("color set");
    assert_eq!((c.r, c.g, c.b, c.a), (0, 255, 0, 255));
}
