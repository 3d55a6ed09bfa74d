//! The `screen-cast` configuration section: appearance of the cast
//! indicator and which surfaces are hidden from casts, its defaults, how a
//! parsed part is merged over it, and how the section is decoded from KDL
//! nodes.

use crate::kdl::{has_child_nodes, kdl_document, node_has_children, parse_kdl, ConfigError, KdlNode, KdlValue};
use crate::strings::str_eq;
use vstd::prelude::*;
use vstd::utf8::is_ascii_chars;

verus! {

/// A color as 8-bit unpremultiplied RGBA.
#[derive(Debug, Clone, Copy, PartialEq, Eq, Structural)]
pub struct Color {
    pub r: u8,
    pub g: u8,
    pub b: u8,
    pub a: u8,
}

/// Configuration for screencast appearance and overlay-filtering policy.
#[derive(Debug, Clone, Copy, PartialEq)]
pub struct ScreenCast {
    pub indicator: ScreenCastIndicator,
    pub hide_overlay_layer: bool,
    pub hide_top_layer: bool,
    pub hide_bottom_layer: bool,
    pub hide_background_layer: bool,
    pub hide_zoom_non_shared_windows: bool,
}

/// Visual indicator drawn around the cast region on the local screen only.
/// `width = 0` disables it; `color = None` defers to a renderer default.
#[derive(Debug, Clone, Copy, PartialEq)]
pub struct ScreenCastIndicator {
    pub width: u16,
    pub color: Option<Color>,
}

/// A boolean set by a node whose single optional argument defaults to true.
#[derive(Debug, Clone, Copy, PartialEq, Eq)]
pub struct Flag(pub bool);

/// The `screen-cast` section as written in one config file: every field
/// that is `None` was not mentioned.
#[derive(Debug, Clone, Copy, PartialEq)]
pub struct ScreenCastPart {
    pub indicator: Option<ScreenCastIndicatorPart>,
    pub hide_overlay_layer: Option<Flag>,
    pub hide_top_layer: Option<Flag>,
    pub hide_bottom_layer: Option<Flag>,
    pub hide_background_layer: Option<Flag>,
    pub hide_zoom_non_shared_windows: Option<Flag>,
}

/// The `indicator` block as written in one config file.
#[derive(Debug, Clone, Copy, PartialEq)]
pub struct ScreenCastIndicatorPart {
    pub width: Option<u16>,
    pub color: Option<Color>,
}

impl ScreenCastIndicator {
    pub open spec fn spec_default() -> Self {
        ScreenCastIndicator { width: 0, color: None }
    }

    /// Overrides the width when the part sets it, and the color when the
    /// part sets it.
    pub open spec fn spec_merged(self, part: ScreenCastIndicatorPart) -> Self {
        ScreenCastIndicator {
            width: match part.width {
                Some(w) => w,
                None => self.width,
            },
            color: if part.color is Some {
                part.color
            } else {
                self.color
            },
        }
    }

    /// Merges a parsed part over this value.
    pub fn merge_with(&mut self, part: &ScreenCastIndicatorPart)
        ensures
            *final(self) == old(self).spec_merged(*part),
            part.color is None ==> final(self).color == old(self).color,
            part.color is Some ==> final(self).color == part.color,
            part.width is None ==> final(self).width == old(self).width,
            part.width matches Some(w) ==> final(self).width == w,
    {
        if let Some(w) = part.width {
            self.width = w;
        }
        if part.color.is_some() {
            self.color = part.color;
        }
    }
}

/// Law: merging an indicator part overrides exactly what the part sets: a
/// color or width the part leaves out keeps its earlier value, one it sets
/// replaces it.
pub proof fn law_indicator_merge_overrides_only_what_is_set(ind: ScreenCastIndicator, part: ScreenCastIndicatorPart)
    ensures
        part.color is None ==> ind.spec_merged(part).color == ind.color,
        part.color matches Some(c) ==> ind.spec_merged(part).color == Some(c),
        part.width is None ==> ind.spec_merged(part).width == ind.width,
        part.width matches Some(w) ==> ind.spec_merged(part).width == w,
{
}

/// Law: merging a `screen-cast` part whose indicator leaves the color out
/// keeps the color set by earlier sections.
pub proof fn law_later_section_keeps_earlier_color(sc: ScreenCast, part: ScreenCastPart)
    ensures
        (part.indicator is None || part.indicator->0.color is None) ==> sc.spec_merged(part).indicator.color
            == sc.indicator.color,
        part.indicator is Some && part.indicator->0.color is Some ==> sc.spec_merged(part).indicator.color
            == part.indicator->0.color,
{
}

impl Default for ScreenCastIndicator {
    /// The indicator is off until a width is configured.
    fn default() -> (r: Self)
        ensures
            r == Self::spec_default(),
    {
        ScreenCastIndicator { width: 0, color: None }
    }
}

/// A flag overrides a boolean when present.
pub open spec fn merged_flag(b: bool, f: Option<Flag>) -> bool {
    match f {
        Some(Flag(v)) => v,
        None => b,
    }
}

fn merge_flag(b: &mut bool, f: Option<Flag>)
    ensures
        *final(b) == merged_flag(*old(b), f),
{
    if let Some(Flag(v)) = f {
        *b = v;
    }
}

impl ScreenCast {
    /// Top and Overlay layers hidden from casts, Bottom and Background
    /// shown; indicator off; Zoom auto-hide on.
    pub open spec fn spec_default() -> Self {
        ScreenCast {
            indicator: ScreenCastIndicator::spec_default(),
            hide_overlay_layer: true,
            hide_top_layer: true,
            hide_bottom_layer: false,
            hide_background_layer: false,
            hide_zoom_non_shared_windows: true,
        }
    }

    /// Every field the part mentions overrides this value's.
    pub open spec fn spec_merged(self, part: ScreenCastPart) -> Self {
        ScreenCast {
            indicator: match part.indicator {
                Some(p) => self.indicator.spec_merged(p),
                None => self.indicator,
            },
            hide_overlay_layer: merged_flag(self.hide_overlay_layer, part.hide_overlay_layer),
            hide_top_layer: merged_flag(self.hide_top_layer, part.hide_top_layer),
            hide_bottom_layer: merged_flag(self.hide_bottom_layer, part.hide_bottom_layer),
            hide_background_layer: merged_flag(self.hide_background_layer, part.hide_background_layer),
            hide_zoom_non_shared_windows: merged_flag(
                self.hide_zoom_non_shared_windows,
                part.hide_zoom_non_shared_windows,
            ),
        }
    }

    /// Merges a parsed part over this value.
    pub fn merge_with(&mut self, part: &ScreenCastPart)
        ensures
            *final(self) == old(self).spec_merged(*part),
    {
        if let Some(p) = &part.indicator {
            self.indicator.merge_with(p);
        }
        merge_flag(&mut self.hide_overlay_layer, part.hide_overlay_layer);
        merge_flag(&mut self.hide_top_layer, part.hide_top_layer);
        merge_flag(&mut self.hide_bottom_layer, part.hide_bottom_layer);
        merge_flag(&mut self.hide_background_layer, part.hide_background_layer);
        merge_flag(&mut self.hide_zoom_non_shared_windows, part.hide_zoom_non_shared_windows);
    }
}

impl Default for ScreenCast {
    fn default() -> (r: Self)
        ensures
            r == Self::spec_default(),
    {
        ScreenCast {
            indicator: ScreenCastIndicator::default(),
            hide_overlay_layer: true,
            hide_top_layer: true,
            hide_bottom_layer: false,
            hide_background_layer: false,
            hide_zoom_non_shared_windows: true,
        }
    }
}

/// The 8-bit RGBA color that a CSS color string denotes, if any.
pub uninterp spec fn css_color(text: Seq<char>) -> Option<Color>;

/// Parses a CSS color string with `csscolorparser::parse`, rounding the
/// channels to 8 bits as its `to_rgba8` does.
///
/// Claimed: the result depends on the string alone. The string must be
/// ASCII: the parser slices some function arguments by byte position and
/// panics on some non-ASCII ones (such as the hue of `hsl(éé, 1, 1)`).
#[verifier::external_body]
fn parse_css_color(text: &str) -> (r: Option<Color>)
    requires
        is_ascii_chars(text@),
    ensures
        r == css_color(text@),
{
    match csscolorparser::parse(text) {
        Ok(c) => {
            let [r, g, b, a] = c.to_rgba8();
            Some(Color { r, g, b, a })
        },
        Err(_) => None,
    }
}

/// Decodes a flag node: no argument means true, one boolean argument gives
/// the value; properties and children are refused.
pub open spec fn spec_flag(n: KdlNode) -> Result<Flag, ConfigError> {
    if n.properties@.len() > 0 {
        Err(ConfigError::UnexpectedProperty)
    } else if has_child_nodes(n) {
        Err(ConfigError::UnexpectedChild)
    } else if n.arguments@.len() == 0 {
        Ok(Flag(true))
    } else if n.arguments@.len() > 1 {
        Err(ConfigError::UnexpectedArgument)
    } else {
        match n.arguments@[0] {
            KdlValue::Bool(b) => Ok(Flag(b)),
            _ => Err(ConfigError::InvalidValue),
        }
    }
}

/// Checks that a node has no properties and no children, and takes exactly
/// one argument.
pub open spec fn spec_single_argument(n: KdlNode) -> Result<KdlValue, ConfigError> {
    if n.properties@.len() > 0 {
        Err(ConfigError::UnexpectedProperty)
    } else if has_child_nodes(n) {
        Err(ConfigError::UnexpectedChild)
    } else if n.arguments@.len() == 0 {
        Err(ConfigError::MissingArgument)
    } else if n.arguments@.len() > 1 {
        Err(ConfigError::UnexpectedArgument)
    } else {
        Ok(n.arguments@[0])
    }
}

/// Decodes a node whose single argument is a `u16`.
pub open spec fn spec_u16_node(n: KdlNode) -> Result<u16, ConfigError> {
    match spec_single_argument(n) {
        Err(e) => Err(e),
        Ok(KdlValue::Int(Some(v))) => if 0 <= v <= u16::MAX {
            Ok(v as u16)
        } else {
            Err(ConfigError::InvalidValue)
        },
        Ok(_) => Err(ConfigError::InvalidValue),
    }
}

/// What `str::trim` leaves of a string: the string without its leading and
/// trailing whitespace.
pub uninterp spec fn trimmed(s: Seq<char>) -> Seq<char>;

/// Drops leading and trailing whitespace with `str::trim`.
///
/// Claimed: the result depends on the string alone. That it is a run of the
/// string's characters, and which characters count as whitespace
/// (Unicode's `White_Space`), is left unsaid.
#[verifier::external_body]
fn trim_str(s: &str) -> (r: &str)
    ensures
        r@ == trimmed(s@),
{
    s.trim()
}

/// The color a CSS color string denotes: the color parser reads the text
/// without its surrounding whitespace, and only ASCII text can name a color
/// (non-ASCII text is refused before the parser sees it).
pub open spec fn color_of_text(text: Seq<char>) -> Option<Color> {
    let t = trimmed(text);
    if is_ascii_chars(t) {
        css_color(t)
    } else {
        None
    }
}

/// Decodes a node whose single argument is a CSS color string.
pub open spec fn spec_color_node(n: KdlNode) -> Result<Color, ConfigError> {
    match spec_single_argument(n) {
        Err(e) => Err(e),
        Ok(KdlValue::Str(text)) => match color_of_text(text@) {
            Some(c) => Ok(c),
            None => Err(ConfigError::InvalidValue),
        },
        Ok(_) => Err(ConfigError::InvalidValue),
    }
}

/// Adds one child node of an `indicator` block to what was decoded so far.
pub open spec fn spec_indicator_child(acc: ScreenCastIndicatorPart, c: KdlNode) -> Result<
    ScreenCastIndicatorPart,
    ConfigError,
> {
    if c.name@ == "width"@ {
        if acc.width is Some {
            Err(ConfigError::DuplicateNode)
        } else {
            match spec_u16_node(c) {
                Ok(w) => Ok(ScreenCastIndicatorPart { width: Some(w), ..acc }),
                Err(e) => Err(e),
            }
        }
    } else if c.name@ == "color"@ {
        if acc.color is Some {
            Err(ConfigError::DuplicateNode)
        } else {
            match spec_color_node(c) {
                Ok(col) => Ok(ScreenCastIndicatorPart { color: Some(col), ..acc }),
                Err(e) => Err(e),
            }
        }
    } else {
        Err(ConfigError::UnknownNode)
    }
}

/// Decodes a list of nodes in order, starting from `init` and adding each
/// node with `step`; the first failing node decides the error.
pub open spec fn decode_nodes<A>(
    nodes: Seq<KdlNode>,
    init: A,
    step: spec_fn(A, KdlNode) -> Result<A, ConfigError>,
) -> Result<A, ConfigError>
    decreases nodes.len(),
{
    if nodes.len() == 0 {
        Ok(init)
    } else {
        match decode_nodes(nodes.drop_last(), init, step) {
            Err(e) => Err(e),
            Ok(acc) => step(acc, nodes.last()),
        }
    }
}

/// Once a prefix of the nodes fails, the whole list fails with the same
/// error.
proof fn lemma_decode_error_persists<A>(
    all: Seq<KdlNode>,
    k: int,
    init: A,
    step: spec_fn(A, KdlNode) -> Result<A, ConfigError>,
    e: ConfigError,
)
    requires
        0 <= k <= all.len(),
        decode_nodes(all.take(k), init, step) == Err::<A, ConfigError>(e),
    ensures
        decode_nodes(all, init, step) == Err::<A, ConfigError>(e),
    decreases all.len() - k,
{
    if k < all.len() {
        assert(all.take(k + 1).drop_last() == all.take(k));
        lemma_decode_error_persists(all, k + 1, init, step, e);
    } else {
        assert(all.take(k) == all);
    }
}

/// An `indicator` block with nothing decoded yet.
pub open spec fn empty_indicator_part() -> ScreenCastIndicatorPart {
    ScreenCastIndicatorPart { width: None, color: None }
}

/// `spec_indicator_child` as a step of `decode_nodes`.
pub open spec fn indicator_step() -> spec_fn(ScreenCastIndicatorPart, KdlNode) -> Result<ScreenCastIndicatorPart, ConfigError> {
    |acc: ScreenCastIndicatorPart, c: KdlNode| spec_indicator_child(acc, c)
}

/// Decodes the children of an `indicator` block, in order; the first
/// failing child decides the error.
pub open spec fn spec_indicator_children(cs: Seq<KdlNode>) -> Result<ScreenCastIndicatorPart, ConfigError> {
    decode_nodes(cs, empty_indicator_part(), indicator_step())
}

/// The children of a node, none when it has no braces.
pub open spec fn node_children(n: KdlNode) -> Seq<KdlNode> {
    match n.children {
        Some(c) => c@,
        None => Seq::empty(),
    }
}

/// Decodes an `indicator` node: no arguments or properties, and children
/// among `width` and `color`, each at most once.
pub open spec fn spec_indicator_node(n: KdlNode) -> Result<ScreenCastIndicatorPart, ConfigError> {
    if n.arguments@.len() > 0 {
        Err(ConfigError::UnexpectedArgument)
    } else if n.properties@.len() > 0 {
        Err(ConfigError::UnexpectedProperty)
    } else {
        spec_indicator_children(node_children(n))
    }
}

/// Sets a flag field once; a second occurrence is an error.
pub open spec fn spec_set_flag(current: Option<Flag>, c: KdlNode) -> Result<Option<Flag>, ConfigError> {
    if current is Some {
        Err(ConfigError::DuplicateNode)
    } else {
        match spec_flag(c) {
            Ok(f) => Ok(Some(f)),
            Err(e) => Err(e),
        }
    }
}

/// Adds one child node of a `screen-cast` block to what was decoded so far.
pub open spec fn spec_screen_cast_child(acc: ScreenCastPart, c: KdlNode) -> Result<ScreenCastPart, ConfigError> {
    if c.name@ == "indicator"@ {
        if acc.indicator is Some {
            Err(ConfigError::DuplicateNode)
        } else {
            match spec_indicator_node(c) {
                Ok(p) => Ok(ScreenCastPart { indicator: Some(p), ..acc }),
                Err(e) => Err(e),
            }
        }
    } else if c.name@ == "hide-overlay-layer"@ {
        match spec_set_flag(acc.hide_overlay_layer, c) {
            Ok(f) => Ok(ScreenCastPart { hide_overlay_layer: f, ..acc }),
            Err(e) => Err(e),
        }
    } else if c.name@ == "hide-top-layer"@ {
        match spec_set_flag(acc.hide_top_layer, c) {
            Ok(f) => Ok(ScreenCastPart { hide_top_layer: f, ..acc }),
            Err(e) => Err(e),
        }
    } else if c.name@ == "hide-bottom-layer"@ {
        match spec_set_flag(acc.hide_bottom_layer, c) {
            Ok(f) => Ok(ScreenCastPart { hide_bottom_layer: f, ..acc }),
            Err(e) => Err(e),
        }
    } else if c.name@ == "hide-background-layer"@ {
        match spec_set_flag(acc.hide_background_layer, c) {
            Ok(f) => Ok(ScreenCastPart { hide_background_layer: f, ..acc }),
            Err(e) => Err(e),
        }
    } else if c.name@ == "hide-zoom-non-shared-windows"@ {
        match spec_set_flag(acc.hide_zoom_non_shared_windows, c) {
            Ok(f) => Ok(ScreenCastPart { hide_zoom_non_shared_windows: f, ..acc }),
            Err(e) => Err(e),
        }
    } else {
        Err(ConfigError::UnknownNode)
    }
}

/// A part that mentions nothing.
pub open spec fn empty_part() -> ScreenCastPart {
    ScreenCastPart {
        indicator: None,
        hide_overlay_layer: None,
        hide_top_layer: None,
        hide_bottom_layer: None,
        hide_background_layer: None,
        hide_zoom_non_shared_windows: None,
    }
}

/// `spec_screen_cast_child` as a step of `decode_nodes`.
pub open spec fn screen_cast_step() -> spec_fn(ScreenCastPart, KdlNode) -> Result<ScreenCastPart, ConfigError> {
    |acc: ScreenCastPart, c: KdlNode| spec_screen_cast_child(acc, c)
}

/// Decodes the children of a `screen-cast` block, in order; the first
/// failing child decides the error.
pub open spec fn spec_screen_cast_children(cs: Seq<KdlNode>) -> Result<ScreenCastPart, ConfigError> {
    decode_nodes(cs, empty_part(), screen_cast_step())
}

/// Decodes a `screen-cast` node: no arguments or properties, and known
/// children, each at most once.
pub open spec fn spec_screen_cast_node(n: KdlNode) -> Result<ScreenCastPart, ConfigError> {
    if n.arguments@.len() > 0 {
        Err(ConfigError::UnexpectedArgument)
    } else if n.properties@.len() > 0 {
        Err(ConfigError::UnexpectedProperty)
    } else {
        spec_screen_cast_children(node_children(n))
    }
}

/// Merges one top-level node into the configuration: a `screen-cast` node
/// is decoded and merged; other top-level nodes belong to other sections
/// and are not read here.
pub open spec fn spec_config_node(sc: ScreenCast, n: KdlNode) -> Result<ScreenCast, ConfigError> {
    if n.name@ == "screen-cast"@ {
        match spec_screen_cast_node(n) {
            Ok(part) => Ok(sc.spec_merged(part)),
            Err(e) => Err(e),
        }
    } else {
        Ok(sc)
    }
}

/// `spec_config_node` as a step of `decode_nodes`.
pub open spec fn config_step() -> spec_fn(ScreenCast, KdlNode) -> Result<ScreenCast, ConfigError> {
    |sc: ScreenCast, n: KdlNode| spec_config_node(sc, n)
}

/// The screen-cast configuration of a config document: the defaults with
/// every `screen-cast` node of the document merged over them in order.
pub open spec fn spec_screen_cast_config(nodes: Seq<KdlNode>) -> Result<ScreenCast, ConfigError> {
    decode_nodes(nodes, ScreenCast::spec_default(), config_step())
}

fn decode_single_argument(n: &KdlNode) -> (r: Result<&KdlValue, ConfigError>)
    ensures
        match r {
            Ok(v) => spec_single_argument(*n) == Ok::<KdlValue, ConfigError>(*v),
            Err(e) => spec_single_argument(*n) == Err::<KdlValue, ConfigError>(e),
        },
{
    if n.properties.len() > 0 {
        Err(ConfigError::UnexpectedProperty)
    } else if node_has_children(n) {
        Err(ConfigError::UnexpectedChild)
    } else if n.arguments.len() == 0 {
        Err(ConfigError::MissingArgument)
    } else if n.arguments.len() > 1 {
        Err(ConfigError::UnexpectedArgument)
    } else {
        Ok(&n.arguments[0])
    }
}

/// Decodes a flag node: no argument means true, one boolean argument gives
/// the value; properties and children are refused.
pub fn decode_flag(n: &KdlNode) -> (r: Result<Flag, ConfigError>)
    ensures
        r == spec_flag(*n),
{
    if n.properties.len() > 0 {
        Err(ConfigError::UnexpectedProperty)
    } else if node_has_children(n) {
        Err(ConfigError::UnexpectedChild)
    } else if n.arguments.len() == 0 {
        Ok(Flag(true))
    } else if n.arguments.len() > 1 {
        Err(ConfigError::UnexpectedArgument)
    } else {
        match &n.arguments[0] {
            KdlValue::Bool(b) => Ok(Flag(*b)),
            _ => Err(ConfigError::InvalidValue),
        }
    }
}

fn decode_u16_node(n: &KdlNode) -> (r: Result<u16, ConfigError>)
    ensures
        r == spec_u16_node(*n),
{
    match decode_single_argument(n) {
        Err(e) => Err(e),
        Ok(KdlValue::Int(Some(v))) => if 0 <= *v && *v <= 65535 {
            Ok(*v as u16)
        } else {
            Err(ConfigError::InvalidValue)
        },
        Ok(_) => Err(ConfigError::InvalidValue),
    }
}

fn decode_color_node(n: &KdlNode) -> (r: Result<Color, ConfigError>)
    ensures
        r == spec_color_node(*n),
{
    match decode_single_argument(n) {
        Err(e) => Err(e),
        Ok(KdlValue::Str(text)) => {
            let t = trim_str(text.as_str());
            if !t.is_ascii() {
                return Err(ConfigError::InvalidValue);
            }
            match parse_css_color(t) {
                Some(c) => Ok(c),
                None => Err(ConfigError::InvalidValue),
            }
        },
        Ok(_) => Err(ConfigError::InvalidValue),
    }
}

fn decode_indicator_child(acc: ScreenCastIndicatorPart, c: &KdlNode) -> (r: Result<
    ScreenCastIndicatorPart,
    ConfigError,
>)
    ensures
        r == spec_indicator_child(acc, *c),
{
    if str_eq(c.name.as_str(), "width") {
        if acc.width.is_some() {
            Err(ConfigError::DuplicateNode)
        } else {
            match decode_u16_node(c) {
                Ok(w) => Ok(ScreenCastIndicatorPart { width: Some(w), ..acc }),
                Err(e) => Err(e),
            }
        }
    } else if str_eq(c.name.as_str(), "color") {
        if acc.color.is_some() {
            Err(ConfigError::DuplicateNode)
        } else {
            match decode_color_node(c) {
                Ok(col) => Ok(ScreenCastIndicatorPart { color: Some(col), ..acc }),
                Err(e) => Err(e),
            }
        }
    } else {
        Err(ConfigError::UnknownNode)
    }
}

/// Decodes an `indicator` node: no arguments or properties, and children
/// among `width` and `color`, each at most once.
pub fn decode_indicator_node(n: &KdlNode) -> (r: Result<ScreenCastIndicatorPart, ConfigError>)
    ensures
        r == spec_indicator_node(*n),
{
    if n.arguments.len() > 0 {
        return Err(ConfigError::UnexpectedArgument);
    }
    if n.properties.len() > 0 {
        return Err(ConfigError::UnexpectedProperty);
    }
    let mut acc = ScreenCastIndicatorPart { width: None, color: None };
    match &n.children {
        None => {
            assert(node_children(*n) =~= Seq::<KdlNode>::empty());
            Ok(acc)
        },
        Some(cs) => {
            let ghost all = cs@;
            let mut i: usize = 0;
            while i < cs.len()
                invariant
                    i <= all.len(),
                    all == cs@,
                    all == node_children(*n),
                    n.arguments@.len() == 0,
                    n.properties@.len() == 0,
                    spec_indicator_children(all.take(i as int)) == Ok::<ScreenCastIndicatorPart, ConfigError>(acc),
                decreases all.len() - i,
            {
                proof {
                    assert(all.take(i + 1).drop_last() == all.take(i as int));
                    assert(all.take(i + 1).last() == all[i as int]);
                }
                match decode_indicator_child(acc, &cs[i]) {
                    Ok(next) => {
                        acc = next;
                    },
                    Err(e) => {
                        proof {
                            lemma_decode_error_persists(all, i as int + 1, empty_indicator_part(), indicator_step(), e);
                        }
                        return Err(e);
                    },
                }
                i = i + 1;
            }
            assert(all.take(all.len() as int) == all);
            Ok(acc)
        },
    }
}

fn decode_set_flag(current: Option<Flag>, c: &KdlNode) -> (r: Result<Option<Flag>, ConfigError>)
    ensures
        r == spec_set_flag(current, *c),
{
    if current.is_some() {
        Err(ConfigError::DuplicateNode)
    } else {
        match decode_flag(c) {
            Ok(f) => Ok(Some(f)),
            Err(e) => Err(e),
        }
    }
}

fn decode_screen_cast_child(acc: ScreenCastPart, c: &KdlNode) -> (r: Result<ScreenCastPart, ConfigError>)
    ensures
        r == spec_screen_cast_child(acc, *c),
{
    let name = c.name.as_str();
    if str_eq(name, "indicator") {
        if acc.indicator.is_some() {
            Err(ConfigError::DuplicateNode)
        } else {
            match decode_indicator_node(c) {
                Ok(p) => Ok(ScreenCastPart { indicator: Some(p), ..acc }),
                Err(e) => Err(e),
            }
        }
    } else if str_eq(name, "hide-overlay-layer") {
        match decode_set_flag(acc.hide_overlay_layer, c) {
            Ok(f) => Ok(ScreenCastPart { hide_overlay_layer: f, ..acc }),
            Err(e) => Err(e),
        }
    } else if str_eq(name, "hide-top-layer") {
        match decode_set_flag(acc.hide_top_layer, c) {
            Ok(f) => Ok(ScreenCastPart { hide_top_layer: f, ..acc }),
            Err(e) => Err(e),
        }
    } else if str_eq(name, "hide-bottom-layer") {
        match decode_set_flag(acc.hide_bottom_layer, c) {
            Ok(f) => Ok(ScreenCastPart { hide_bottom_layer: f, ..acc }),
            Err(e) => Err(e),
        }
    } else if str_eq(name, "hide-background-layer") {
        match decode_set_flag(acc.hide_background_layer, c) {
            Ok(f) => Ok(ScreenCastPart { hide_background_layer: f, ..acc }),
            Err(e) => Err(e),
        }
    } else if str_eq(name, "hide-zoom-non-shared-windows") {
        match decode_set_flag(acc.hide_zoom_non_shared_windows, c) {
            Ok(f) => Ok(ScreenCastPart { hide_zoom_non_shared_windows: f, ..acc }),
            Err(e) => Err(e),
        }
    } else {
        Err(ConfigError::UnknownNode)
    }
}

/// Decodes a `screen-cast` node: no arguments or properties, and known
/// children, each at most once.
pub fn decode_screen_cast_node(n: &KdlNode) -> (r: Result<ScreenCastPart, ConfigError>)
    ensures
        r == spec_screen_cast_node(*n),
{
    if n.arguments.len() > 0 {
        return Err(ConfigError::UnexpectedArgument);
    }
    if n.properties.len() > 0 {
        return Err(ConfigError::UnexpectedProperty);
    }
    let mut acc = ScreenCastPart {
        indicator: None,
        hide_overlay_layer: None,
        hide_top_layer: None,
        hide_bottom_layer: None,
        hide_background_layer: None,
        hide_zoom_non_shared_windows: None,
    };
    match &n.children {
        None => {
            assert(node_children(*n) =~= Seq::<KdlNode>::empty());
            Ok(acc)
        },
        Some(cs) => {
            let ghost all = cs@;
            let mut i: usize = 0;
            while i < cs.len()
                invariant
                    i <= all.len(),
                    all == cs@,
                    all == node_children(*n),
                    n.arguments@.len() == 0,
                    n.properties@.len() == 0,
                    spec_screen_cast_children(all.take(i as int)) == Ok::<ScreenCastPart, ConfigError>(acc),
                decreases all.len() - i,
            {
                proof {
                    assert(all.take(i + 1).drop_last() == all.take(i as int));
                    assert(all.take(i + 1).last() == all[i as int]);
                }
                match decode_screen_cast_child(acc, &cs[i]) {
                    Ok(next) => {
                        acc = next;
                    },
                    Err(e) => {
                        proof {
                            lemma_decode_error_persists(all, i as int + 1, empty_part(), screen_cast_step(), e);
                        }
                        return Err(e);
                    },
                }
                i = i + 1;
            }
            assert(all.take(all.len() as int) == all);
            Ok(acc)
        },
    }
}

/// Reads the `screen-cast` sections of a KDL configuration text: a text
/// that is not a KDL document is refused with `ConfigError::Syntax`; the
/// nodes of one are decoded as `parse_screen_cast_config` does.
pub fn parse_screen_cast_text(file_name: &str, text: &str) -> (r: Result<ScreenCast, ConfigError>)
    ensures
        match kdl_document(text@) {
            None => r == Err::<ScreenCast, ConfigError>(ConfigError::Syntax),
            Some(nodes) => r == spec_screen_cast_config(nodes),
        },
{
    match parse_kdl(file_name, text) {
        Ok(nodes) => parse_screen_cast_config(nodes.as_slice()),
        Err(_) => Err(ConfigError::Syntax),
    }
}

/// The screen-cast configuration of a config document: the defaults with
/// every `screen-cast` node merged over them in order. Other top-level
/// nodes belong to other sections and are not read here.
pub fn parse_screen_cast_config(nodes: &[KdlNode]) -> (r: Result<ScreenCast, ConfigError>)
    ensures
        r == spec_screen_cast_config(nodes@),
{
    let mut sc = ScreenCast::default();
    let mut i: usize = 0;
    while i < nodes.len()
        invariant
            i <= nodes@.len(),
            spec_screen_cast_config(nodes@.take(i as int)) == Ok::<ScreenCast, ConfigError>(sc),
        decreases nodes@.len() - i,
    {
        proof {
            assert(nodes@.take(i + 1).drop_last() == nodes@.take(i as int));
            assert(nodes@.take(i + 1).last() == nodes@[i as int]);
        }
        let n = &nodes[i];
        if str_eq(n.name.as_str(), "screen-cast") {
            match decode_screen_cast_node(n) {
                Ok(part) => {
                    sc.merge_with(&part);
                },
                Err(e) => {
                    proof {
                        lemma_decode_error_persists(nodes@, i as int + 1, ScreenCast::spec_default(), config_step(), e);
                    }
                    return Err(e);
                },
            }
        }
        i = i + 1;
    }
    assert(nodes@.take(nodes@.len() as int) == nodes@);
    Ok(sc)
}

/// Law: a part that mentions nothing leaves the configuration unchanged.
pub proof fn law_merge_empty_is_identity(sc: ScreenCast)
    ensures
        sc.spec_merged(
            ScreenCastPart {
                indicator: None,
                hide_overlay_layer: None,
                hide_top_layer: None,
                hide_bottom_layer: None,
                hide_background_layer: None,
                hide_zoom_non_shared_windows: None,
            },
        ) == sc,
{
}

/// Law: merging is last-writer-wins, so merging the same part twice is
/// the same as merging it once.
pub proof fn law_merge_idempotent(sc: ScreenCast, part: ScreenCastPart)
    ensures
        sc.spec_merged(part).spec_merged(part) == sc.spec_merged(part),
{
}

} // verus!
