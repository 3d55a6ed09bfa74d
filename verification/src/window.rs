//! Window-rule matching and the choice of the window that a new window is
//! positioned relative to.

use crate::strings::{opt_str_view, opt_string_eq_str, opt_string_view};
use vstd::prelude::*;

verus! {

#[verifier::external_type_specification]
#[verifier::external_body]
pub struct ExRegex(regex::Regex);

#[verifier::external_type_specification]
#[verifier::external_body]
pub struct ExRegexError(regex::Error);

/// Whether the regular expression written `pattern` is accepted by the
/// regex engine.
pub uninterp spec fn regex_pattern_valid(pattern: Seq<char>) -> bool;

/// Whether the regular expression written `pattern` matches somewhere in
/// `haystack`.
pub uninterp spec fn regex_finds(pattern: Seq<char>, haystack: Seq<char>) -> bool;

/// Compiles `pattern` with `regex::Regex::new`.
///
/// Claimed: compilation succeeds exactly when the pattern is valid, which
/// depends on the pattern alone.
#[verifier::external_body]
fn compile_regex(pattern: &str) -> (r: Result<regex::Regex, regex::Error>)
    ensures
        r is Ok <==> regex_pattern_valid(pattern@),
{
    regex::Regex::new(pattern)
}

/// A compiled regular expression together with the pattern it was compiled
/// from.
pub struct RegexEq {
    pattern: String,
    re: regex::Regex,
}

impl RegexEq {
    /// The pattern this regular expression was compiled from.
    pub closed spec fn pattern(&self) -> Seq<char> {
        self.pattern@
    }

    /// Compiles `pattern`; fails exactly when the pattern is not valid.
    pub fn new(pattern: &str) -> (r: Result<RegexEq, regex::Error>)
        ensures
            r is Ok <==> regex_pattern_valid(pattern@),
            r matches Ok(re) ==> re.pattern() == pattern@,
    {
        match compile_regex(pattern) {
            Ok(re) => Ok(RegexEq { pattern: pattern.to_owned(), re }),
            Err(e) => Err(e),
        }
    }

    /// Whether this regular expression matches somewhere in `haystack`,
    /// through `regex::Regex::is_match`.
    ///
    /// Claimed: the result is a function of the pattern the expression was
    /// compiled from (every `RegexEq` is built by `RegexEq::new`, which keeps
    /// the pattern beside the compiled form) and of the haystack.
    #[verifier::external_body]
    pub fn is_match(&self, haystack: &str) -> (r: bool)
        ensures
            r == regex_finds(self.pattern(), haystack@),
    {
        self.re.is_match(haystack)
    }
}

/// What rule matching reads of a toplevel's role: its app id, its title,
/// and whether its pending server state holds the Activated state.
#[derive(Debug, Clone)]
pub struct ToplevelRole {
    pub app_id: Option<String>,
    pub title: Option<String>,
    pub pending_activated: bool,
}

/// A window that has not been mapped yet.
pub struct Unmapped {
    pub role: ToplevelRole,
}

/// What rule matching reads of a mapped window.
pub struct Mapped {
    pub role: ToplevelRole,
    pub is_focused: bool,
    pub is_urgent: bool,
    pub is_active_in_column: bool,
    pub is_floating: bool,
    pub is_window_cast_target: bool,
}

/// Reference to a mapped or unmapped window.
#[derive(Clone, Copy)]
pub enum WindowRef<'a> {
    Unmapped(&'a Unmapped),
    Mapped(&'a Mapped),
}

impl<'a> WindowRef<'a> {
    /// The toplevel role of the window.
    pub open spec fn spec_role(self) -> ToplevelRole {
        match self {
            WindowRef::Unmapped(u) => u.role,
            WindowRef::Mapped(m) => m.role,
        }
    }

    pub open spec fn spec_is_focused(self) -> bool {
        match self {
            WindowRef::Unmapped(_) => false,
            WindowRef::Mapped(m) => m.is_focused,
        }
    }

    pub open spec fn spec_is_urgent(self) -> bool {
        match self {
            WindowRef::Unmapped(_) => false,
            WindowRef::Mapped(m) => m.is_urgent,
        }
    }

    pub open spec fn spec_is_active_in_column(self) -> bool {
        match self {
            WindowRef::Unmapped(_) => true,
            WindowRef::Mapped(m) => m.is_active_in_column,
        }
    }

    pub open spec fn spec_is_floating(self) -> bool {
        match self {
            WindowRef::Unmapped(_) => false,
            WindowRef::Mapped(m) => m.is_floating,
        }
    }

    pub open spec fn spec_is_window_cast_target(self) -> bool {
        match self {
            WindowRef::Unmapped(_) => false,
            WindowRef::Mapped(m) => m.is_window_cast_target,
        }
    }

    /// The toplevel role of the window.
    pub fn toplevel(self) -> (r: &'a ToplevelRole)
        ensures
            *r == self.spec_role(),
    {
        match self {
            WindowRef::Unmapped(u) => &u.role,
            WindowRef::Mapped(m) => &m.role,
        }
    }

    /// An unmapped window is never focused.
    pub fn is_focused(self) -> (r: bool)
        ensures
            r == self.spec_is_focused(),
    {
        match self {
            WindowRef::Unmapped(_) => false,
            WindowRef::Mapped(m) => m.is_focused,
        }
    }

    /// An unmapped window is never urgent.
    pub fn is_urgent(self) -> (r: bool)
        ensures
            r == self.spec_is_urgent(),
    {
        match self {
            WindowRef::Unmapped(_) => false,
            WindowRef::Mapped(m) => m.is_urgent,
        }
    }

    /// An unmapped window counts as active in its column.
    pub fn is_active_in_column(self) -> (r: bool)
        ensures
            r == self.spec_is_active_in_column(),
    {
        match self {
            WindowRef::Unmapped(_) => true,
            WindowRef::Mapped(m) => m.is_active_in_column,
        }
    }

    /// An unmapped window never counts as floating (the open-floating rule
    /// depends on rule matching, so matching cannot depend on it).
    pub fn is_floating(self) -> (r: bool)
        ensures
            r == self.spec_is_floating(),
    {
        match self {
            WindowRef::Unmapped(_) => false,
            WindowRef::Mapped(m) => m.is_floating,
        }
    }

    /// An unmapped window is never a window-cast target.
    pub fn is_window_cast_target(self) -> (r: bool)
        ensures
            r == self.spec_is_window_cast_target(),
    {
        match self {
            WindowRef::Unmapped(_) => false,
            WindowRef::Mapped(m) => m.is_window_cast_target,
        }
    }
}

/// A window matcher of a window rule. Every criterion that is set must hold.
pub struct Match {
    pub app_id: Option<RegexEq>,
    pub title: Option<RegexEq>,
    pub is_active: Option<bool>,
    pub is_focused: Option<bool>,
    pub is_active_in_column: Option<bool>,
    pub is_floating: Option<bool>,
    pub is_window_cast_target: Option<bool>,
    pub is_urgent: Option<bool>,
    pub at_startup: Option<bool>,
}

/// An optional regex criterion against an optional string: holds when
/// unset, and otherwise needs the string present and matched.
pub open spec fn regex_criterion(re: Option<RegexEq>, s: Option<String>) -> bool {
    match re {
        None => true,
        Some(re) => match s {
            None => false,
            Some(s) => regex_finds(re.pattern(), s@),
        },
    }
}

/// An optional boolean criterion: holds when unset or equal.
pub open spec fn flag_criterion(want: Option<bool>, actual: bool) -> bool {
    match want {
        None => true,
        Some(w) => w == actual,
    }
}

/// Every criterion of `m` except `at_startup` holds for `window`.
pub open spec fn window_matches_spec(window: WindowRef, m: Match) -> bool {
    &&& flag_criterion(m.is_focused, window.spec_is_focused())
    &&& flag_criterion(m.is_urgent, window.spec_is_urgent())
    &&& flag_criterion(m.is_active, window.spec_role().pending_activated)
    &&& regex_criterion(m.app_id, window.spec_role().app_id)
    &&& regex_criterion(m.title, window.spec_role().title)
    &&& flag_criterion(m.is_active_in_column, window.spec_is_active_in_column())
    &&& flag_criterion(m.is_floating, window.spec_is_floating())
    &&& flag_criterion(m.is_window_cast_target, window.spec_is_window_cast_target())
}

/// `m` applies to `window` at this point of the session: its `at_startup`
/// criterion holds and so do all the others.
pub open spec fn match_applies(window: WindowRef, m: Match, is_at_startup: bool) -> bool {
    flag_criterion(m.at_startup, is_at_startup) && window_matches_spec(window, m)
}

fn regex_criterion_holds(re: &Option<RegexEq>, s: &Option<String>) -> (r: bool)
    ensures
        r == regex_criterion(*re, *s),
{
    match re {
        None => true,
        Some(re) => match s {
            None => false,
            Some(s) => re.is_match(s.as_str()),
        },
    }
}

/// Evaluates every criterion of `m` except `at_startup` against `window`.
pub fn window_matches(window: WindowRef, m: &Match) -> (r: bool)
    ensures
        r == window_matches_spec(window, *m),
{
    let role = window.toplevel();
    if let Some(is_focused) = m.is_focused {
        if window.is_focused() != is_focused {
            return false;
        }
    }
    if let Some(is_urgent) = m.is_urgent {
        if window.is_urgent() != is_urgent {
            return false;
        }
    }
    if let Some(is_active) = m.is_active {
        if role.pending_activated != is_active {
            return false;
        }
    }
    if !regex_criterion_holds(&m.app_id, &role.app_id) {
        return false;
    }
    if !regex_criterion_holds(&m.title, &role.title) {
        return false;
    }
    if let Some(is_active_in_column) = m.is_active_in_column {
        if window.is_active_in_column() != is_active_in_column {
            return false;
        }
    }
    if let Some(is_floating) = m.is_floating {
        if window.is_floating() != is_floating {
            return false;
        }
    }
    if let Some(is_window_cast_target) = m.is_window_cast_target {
        if window.is_window_cast_target() != is_window_cast_target {
            return false;
        }
    }
    true
}

/// Evaluates a matcher against a mapped window, `at_startup` included.
pub fn mapped_matches(mapped: &Mapped, m: &Match, is_at_startup: bool) -> (r: bool)
    ensures
        r == match_applies(WindowRef::Mapped(mapped), *m, is_at_startup),
{
    if let Some(at_startup) = m.at_startup {
        if at_startup != is_at_startup {
            return false;
        }
    }
    window_matches(WindowRef::Mapped(mapped), m)
}

/// How windows of a new column are displayed.
#[derive(Debug, Clone, Copy, PartialEq, Eq, Structural)]
pub enum ColumnDisplay {
    Normal,
    Tabbed,
}

/// Render targets a window can be blocked out from.
#[derive(Debug, Clone, Copy, PartialEq, Eq, Structural)]
pub enum BlockOutFrom {
    Screencast,
    ScreenCapture,
}

/// A window rule: the matchers that select windows, and the properties it
/// sets on them (`None` leaves a property to other rules).
pub struct WindowRule {
    pub matches: Vec<Match>,
    pub excludes: Vec<Match>,
    pub default_column_display: Option<ColumnDisplay>,
    pub open_on_output: Option<String>,
    pub open_on_workspace: Option<String>,
    pub open_maximized: Option<bool>,
    pub open_maximized_to_edges: Option<bool>,
    pub open_fullscreen: Option<bool>,
    pub open_floating: Option<bool>,
    pub open_focused: Option<bool>,
    pub min_width: Option<u16>,
    pub min_height: Option<u16>,
    pub max_width: Option<u16>,
    pub max_height: Option<u16>,
    pub draw_border_with_background: Option<bool>,
    pub clip_to_geometry: Option<bool>,
    pub baba_is_float: Option<bool>,
    pub block_out_from: Option<BlockOutFrom>,
    pub variable_refresh_rate: Option<bool>,
    pub tiled_state: Option<bool>,
}

/// Rules fully resolved for a window: for each property, the value set by
/// the last rule that applies to the window and sets it.
#[derive(Debug, Clone, PartialEq)]
pub struct ResolvedWindowRules {
    pub default_column_display: Option<ColumnDisplay>,
    pub open_on_output: Option<String>,
    pub open_on_workspace: Option<String>,
    pub open_maximized: Option<bool>,
    pub open_maximized_to_edges: Option<bool>,
    pub open_fullscreen: Option<bool>,
    pub open_floating: Option<bool>,
    pub open_focused: Option<bool>,
    pub min_width: Option<u16>,
    pub min_height: Option<u16>,
    pub max_width: Option<u16>,
    pub max_height: Option<u16>,
    pub draw_border_with_background: Option<bool>,
    pub clip_to_geometry: Option<bool>,
    pub baba_is_float: Option<bool>,
    pub block_out_from: Option<BlockOutFrom>,
    pub variable_refresh_rate: Option<bool>,
    pub tiled_state: Option<bool>,
}

/// Some matcher of the list applies.
pub open spec fn any_applies(ms: Seq<Match>, window: WindowRef, is_at_startup: bool) -> bool {
    exists|i: int| 0 <= i < ms.len() && match_applies(window, #[trigger] ms[i], is_at_startup)
}

/// A rule applies to a window when it has no matchers or one of them
/// applies, and none of its exclusions applies.
pub open spec fn rule_applies(rule: WindowRule, window: WindowRef, is_at_startup: bool) -> bool {
    (rule.matches@.len() == 0 || any_applies(rule.matches@, window, is_at_startup)) && !any_applies(
        rule.excludes@,
        window,
        is_at_startup,
    )
}

/// The value that the last applying rule setting a property gives it.
pub open spec fn last_set<T>(
    rules: Seq<WindowRule>,
    applies: spec_fn(WindowRule) -> bool,
    field: spec_fn(WindowRule) -> Option<T>,
) -> Option<T>
    decreases rules.len(),
{
    if rules.len() == 0 {
        None
    } else if applies(rules.last()) && field(rules.last()) is Some {
        field(rules.last())
    } else {
        last_set(rules.drop_last(), applies, field)
    }
}

/// Whether some matcher of the list applies to the window.
fn any_match_applies(ms: &Vec<Match>, window: WindowRef, is_at_startup: bool) -> (r: bool)
    ensures
        r == any_applies(ms@, window, is_at_startup),
{
    let mut i: usize = 0;
    while i < ms.len()
        invariant
            i <= ms@.len(),
            forall|j: int| 0 <= j < i ==> !match_applies(window, #[trigger] ms@[j], is_at_startup),
        decreases ms@.len() - i,
    {
        let m = &ms[i];
        let applies = match m.at_startup {
            Some(at_startup) => at_startup == is_at_startup && window_matches(window, m),
            None => window_matches(window, m),
        };
        if applies {
            return true;
        }
        i = i + 1;
    }
    false
}

/// A later value, when set, overrides an earlier one.
fn override_with<T: Copy>(acc: Option<T>, x: Option<T>) -> (r: Option<T>)
    ensures
        r == (if x is Some { x } else { acc }),
{
    match x {
        Some(v) => Some(v),
        None => acc,
    }
}

fn override_string(acc: Option<String>, x: &Option<String>) -> (r: Option<String>)
    ensures
        r == (if x is Some { *x } else { acc }),
{
    match x {
        Some(v) => Some(v.clone()),
        None => acc,
    }
}

impl Default for ResolvedWindowRules {
    /// Nothing set.
    fn default() -> (r: Self)
        ensures
            r == Self::spec_empty(),
    {
        Self::empty()
    }
}

impl ResolvedWindowRules {
    /// Nothing set.
    pub fn empty() -> (r: Self)
        ensures
            r == Self::spec_empty(),
    {
        ResolvedWindowRules {
            default_column_display: None,
            open_on_output: None,
            open_on_workspace: None,
            open_maximized: None,
            open_maximized_to_edges: None,
            open_fullscreen: None,
            open_floating: None,
            open_focused: None,
            min_width: None,
            min_height: None,
            max_width: None,
            max_height: None,
            draw_border_with_background: None,
            clip_to_geometry: None,
            baba_is_float: None,
            block_out_from: None,
            variable_refresh_rate: None,
            tiled_state: None,
        }
    }

    pub open spec fn spec_empty() -> Self {
        ResolvedWindowRules {
            default_column_display: None,
            open_on_output: None,
            open_on_workspace: None,
            open_maximized: None,
            open_maximized_to_edges: None,
            open_fullscreen: None,
            open_floating: None,
            open_focused: None,
            min_width: None,
            min_height: None,
            max_width: None,
            max_height: None,
            draw_border_with_background: None,
            clip_to_geometry: None,
            baba_is_float: None,
            block_out_from: None,
            variable_refresh_rate: None,
            tiled_state: None,
        }
    }

    /// The rules resolved from the rule list `rules`: each property comes
    /// from the last rule that applies and sets it.
    pub open spec fn resolved_from(rules: Seq<WindowRule>, applies: spec_fn(WindowRule) -> bool) -> Self {
        ResolvedWindowRules {
            default_column_display: last_set(rules, applies, |r: WindowRule| r.default_column_display),
            open_on_output: last_set(rules, applies, |r: WindowRule| r.open_on_output),
            open_on_workspace: last_set(rules, applies, |r: WindowRule| r.open_on_workspace),
            open_maximized: last_set(rules, applies, |r: WindowRule| r.open_maximized),
            open_maximized_to_edges: last_set(rules, applies, |r: WindowRule| r.open_maximized_to_edges),
            open_fullscreen: last_set(rules, applies, |r: WindowRule| r.open_fullscreen),
            open_floating: last_set(rules, applies, |r: WindowRule| r.open_floating),
            open_focused: last_set(rules, applies, |r: WindowRule| r.open_focused),
            min_width: last_set(rules, applies, |r: WindowRule| r.min_width),
            min_height: last_set(rules, applies, |r: WindowRule| r.min_height),
            max_width: last_set(rules, applies, |r: WindowRule| r.max_width),
            max_height: last_set(rules, applies, |r: WindowRule| r.max_height),
            draw_border_with_background: last_set(rules, applies, |r: WindowRule| r.draw_border_with_background),
            clip_to_geometry: last_set(rules, applies, |r: WindowRule| r.clip_to_geometry),
            baba_is_float: last_set(rules, applies, |r: WindowRule| r.baba_is_float),
            block_out_from: last_set(rules, applies, |r: WindowRule| r.block_out_from),
            variable_refresh_rate: last_set(rules, applies, |r: WindowRule| r.variable_refresh_rate),
            tiled_state: last_set(rules, applies, |r: WindowRule| r.tiled_state),
        }
    }

    /// Resolves the rules for `window`: a rule applies when it has no
    /// matchers or one of them applies, and none of its exclusions does;
    /// each property takes the value of the last applying rule that sets it.
    pub fn compute(rules: &[WindowRule], window: WindowRef, is_at_startup: bool) -> (r: Self)
        ensures
            r == Self::resolved_from(
                rules@,
                |rule: WindowRule| rule_applies(rule, window, is_at_startup),
            ),
    {
        let ghost applies = |rule: WindowRule| rule_applies(rule, window, is_at_startup);
        let mut resolved = ResolvedWindowRules::empty();
        let mut i: usize = 0;
        while i < rules.len()
            invariant
                i <= rules@.len(),
                applies == (|rule: WindowRule| rule_applies(rule, window, is_at_startup)),
                resolved == Self::resolved_from(rules@.take(i as int), applies),
            decreases rules@.len() - i,
        {
            let rule = &rules[i];
            let ghost prev = rules@.take(i as int);
            let ghost next = rules@.take(i + 1);
            proof {
                assert(next.drop_last() == prev);
                assert(next.last() == *rule);
            }
            let selected = rule.matches.len() == 0 || any_match_applies(&rule.matches, window, is_at_startup);
            if selected && !any_match_applies(&rule.excludes, window, is_at_startup) {
                resolved = ResolvedWindowRules {
                    default_column_display: override_with(resolved.default_column_display, rule.default_column_display),
                    open_on_output: override_string(resolved.open_on_output, &rule.open_on_output),
                    open_on_workspace: override_string(resolved.open_on_workspace, &rule.open_on_workspace),
                    open_maximized: override_with(resolved.open_maximized, rule.open_maximized),
                    open_maximized_to_edges: override_with(resolved.open_maximized_to_edges, rule.open_maximized_to_edges),
                    open_fullscreen: override_with(resolved.open_fullscreen, rule.open_fullscreen),
                    open_floating: override_with(resolved.open_floating, rule.open_floating),
                    open_focused: override_with(resolved.open_focused, rule.open_focused),
                    min_width: override_with(resolved.min_width, rule.min_width),
                    min_height: override_with(resolved.min_height, rule.min_height),
                    max_width: override_with(resolved.max_width, rule.max_width),
                    max_height: override_with(resolved.max_height, rule.max_height),
                    draw_border_with_background: override_with(resolved.draw_border_with_background, rule.draw_border_with_background),
                    clip_to_geometry: override_with(resolved.clip_to_geometry, rule.clip_to_geometry),
                    baba_is_float: override_with(resolved.baba_is_float, rule.baba_is_float),
                    block_out_from: override_with(resolved.block_out_from, rule.block_out_from),
                    variable_refresh_rate: override_with(resolved.variable_refresh_rate, rule.variable_refresh_rate),
                    tiled_state: override_with(resolved.tiled_state, rule.tiled_state),
                };
            }
            i = i + 1;
        }
        assert(rules@.take(rules@.len() as int) == rules@);
        resolved
    }
}

/// Law: rules that do not apply to a window have no effect on what is
/// resolved for it: resolving from only the applying rules gives the same
/// value for every property.
pub proof fn law_unselected_rules_have_no_effect<T>(
    rules: Seq<WindowRule>,
    applies: spec_fn(WindowRule) -> bool,
    field: spec_fn(WindowRule) -> Option<T>,
)
    ensures
        last_set(rules, applies, field) == last_set(rules.filter(applies), |r: WindowRule| true, field),
    decreases rules.len(),
{
    reveal_with_fuel(Seq::<WindowRule>::filter, 1);
    if rules.len() > 0 {
        law_unselected_rules_have_no_effect(rules.drop_last(), applies, field);
        let sub = rules.drop_last().filter(applies);
        if applies(rules.last()) {
            assert(rules.filter(applies) == sub.push(rules.last()));
            assert(sub.push(rules.last()).drop_last() =~= sub);
        } else {
            assert(rules.filter(applies) == sub);
        }
    }
}

/// Law: a rule with no matchers and no exclusions applies to every window.
pub proof fn law_unconditional_rule_applies(rule: WindowRule, window: WindowRef, is_at_startup: bool)
    requires
        rule.matches@.len() == 0,
        rule.excludes@.len() == 0,
    ensures
        rule_applies(rule, window, is_at_startup),
{
}

/// Law: a rule without matchers applies to every window that none of its
/// exclusions catches, whatever exclusions it has; a rule with matchers
/// applies to a window exactly when one matcher applies and no exclusion
/// does.
pub proof fn law_rule_without_matchers_applies_unless_excluded(rule: WindowRule, window: WindowRef, is_at_startup: bool)
    ensures
        rule.matches@.len() == 0 ==> (rule_applies(rule, window, is_at_startup) <==> forall|k: int|
            0 <= k < rule.excludes@.len() ==> !match_applies(window, #[trigger] rule.excludes@[k], is_at_startup)),
        rule.matches@.len() > 0 ==> (rule_applies(rule, window, is_at_startup) <==> (exists|k: int|
            0 <= k < rule.matches@.len() && match_applies(window, #[trigger] rule.matches@[k], is_at_startup))
            && forall|k: int|
            0 <= k < rule.excludes@.len() ==> !match_applies(window, #[trigger] rule.excludes@[k], is_at_startup)),
{
}

/// Law: when the last rule has no matchers, none of its exclusions applies
/// to the window and it sets a property, the resolved property is that
/// rule's value.
pub proof fn law_last_unmatched_rule_sets_property(
    rules: Seq<WindowRule>,
    window: WindowRef,
    is_at_startup: bool,
    b: bool,
)
    requires
        rules.len() > 0,
        rules.last().matches@.len() == 0,
        forall|k: int|
            0 <= k < rules.last().excludes@.len() ==> !match_applies(
                window,
                #[trigger] rules.last().excludes@[k],
                is_at_startup,
            ),
        rules.last().open_maximized == Some(b),
    ensures
        ResolvedWindowRules::resolved_from(rules, |rule: WindowRule| rule_applies(rule, window, is_at_startup)).open_maximized
            == Some(b),
{
    law_rule_without_matchers_applies_unless_excluded(rules.last(), window, is_at_startup);
}

/// Law: an exclusion that applies always wins over any matcher.
pub proof fn law_exclusion_wins(rule: WindowRule, window: WindowRef, is_at_startup: bool, k: int)
    requires
        0 <= k < rule.excludes@.len(),
        match_applies(window, rule.excludes@[k], is_at_startup),
    ensures
        !rule_applies(rule, window, is_at_startup),
{
}

/// Law: the size bounds of the rules only ever widen a minimum and only
/// ever narrow a constrained maximum: the minimum never drops below the
/// window's own or the rule's bound, and a non-zero maximum never grows,
/// nor exceeds a non-zero rule bound.
pub proof fn law_size_bounds(v: i32, bound: Option<u16>)
    ensures
        min_bound(v, bound) >= v,
        bound matches Some(x) ==> min_bound(v, bound) >= x,
        v != 0 ==> max_bound(v, bound) <= v,
        bound matches Some(x) ==> (x > 0 ==> max_bound(v, bound) <= x),
{
}

/// A size in logical pixels.
#[derive(Debug, Clone, Copy, PartialEq, Eq, Structural)]
pub struct Size {
    pub w: i32,
    pub h: i32,
}

/// What the open-floating decision reads of a toplevel: whether it has a
/// parent, and the minimum and maximum size it currently asks for
/// (0 meaning unconstrained).
#[derive(Debug, Clone, Copy)]
pub struct ToplevelSurface {
    pub has_parent: bool,
    pub min_size: Size,
    pub max_size: Size,
}

/// A minimum dimension raised to the rule's bound.
pub open spec fn min_bound(v: i32, bound: Option<u16>) -> i32 {
    match bound {
        None => v,
        Some(x) => if v >= x as i32 { v } else { x as i32 },
    }
}

/// A maximum dimension lowered to the rule's bound: an unconstrained (0)
/// dimension takes the bound; a bound of 0 leaves the dimension as it is.
pub open spec fn max_bound(v: i32, bound: Option<u16>) -> i32 {
    match bound {
        None => v,
        Some(x) => if v == 0 {
            x as i32
        } else if x > 0 {
            if v <= x as i32 { v } else { x as i32 }
        } else {
            v
        },
    }
}

fn apply_min_bound(v: i32, bound: Option<u16>) -> (r: i32)
    ensures
        r == min_bound(v, bound),
{
    match bound {
        None => v,
        Some(x) => {
            let x = x as i32;
            if v >= x { v } else { x }
        },
    }
}

fn apply_max_bound(v: i32, bound: Option<u16>) -> (r: i32)
    ensures
        r == max_bound(v, bound),
{
    match bound {
        None => v,
        Some(x) => {
            if v == 0 {
                x as i32
            } else if x > 0 {
                let x = x as i32;
                if v <= x { v } else { x }
            } else {
                v
            }
        },
    }
}

impl ResolvedWindowRules {
    /// Raises the window's minimum size to the rules' minimum bounds.
    pub fn apply_min_size(&self, min_size: Size) -> (r: Size)
        ensures
            r.w == min_bound(min_size.w, self.min_width),
            r.h == min_bound(min_size.h, self.min_height),
    {
        Size { w: apply_min_bound(min_size.w, self.min_width), h: apply_min_bound(min_size.h, self.min_height) }
    }

    /// Lowers the window's maximum size to the rules' maximum bounds.
    pub fn apply_max_size(&self, max_size: Size) -> (r: Size)
        ensures
            r.w == max_bound(max_size.w, self.max_width),
            r.h == max_bound(max_size.h, self.max_height),
    {
        Size { w: apply_max_bound(max_size.w, self.max_width), h: apply_max_bound(max_size.h, self.max_height) }
    }

    /// Both of the above.
    pub fn apply_min_max_size(&self, min_size: Size, max_size: Size) -> (r: (Size, Size))
        ensures
            r.0.w == min_bound(min_size.w, self.min_width),
            r.0.h == min_bound(min_size.h, self.min_height),
            r.1.w == max_bound(max_size.w, self.max_width),
            r.1.h == max_bound(max_size.h, self.max_height),
    {
        let min_size = self.apply_min_size(min_size);
        let max_size = self.apply_max_size(max_size);
        (min_size, max_size)
    }

    /// Whether the window opens floating: as the rules say if they say;
    /// otherwise windows with a parent (usually dialogs) do, and so do
    /// fixed-height windows (after the rules' size bounds).
    pub fn compute_open_floating(&self, toplevel: &ToplevelSurface) -> (r: bool)
        ensures
            r == match self.open_floating {
                Some(v) => v,
                None => toplevel.has_parent || {
                    let min_h = min_bound(toplevel.min_size.h, self.min_height);
                    let max_h = max_bound(toplevel.max_size.h, self.max_height);
                    min_h > 0 && min_h == max_h
                },
            },
    {
        if let Some(res) = self.open_floating {
            return res;
        }
        if toplevel.has_parent {
            return true;
        }
        let (min_size, max_size) = self.apply_min_max_size(toplevel.min_size, toplevel.max_size);
        min_size.h > 0 && min_size.h == max_size.h
    }
}

/// Identifier of a workspace.
#[derive(Debug, Clone, Copy, PartialEq, Eq, Structural)]
pub struct WorkspaceId(pub u64);

impl WorkspaceId {
    /// The workspace id with the given number.
    pub fn specific(id: u64) -> (r: Self)
        ensures
            r.0 == id,
    {
        WorkspaceId(id)
    }
}

/// A projection of a mapped window's state, as seen by the target resolver.
#[derive(Debug, Clone, PartialEq, Eq)]
pub struct TargetCandidate<Id> {
    pub id: Id,
    pub workspace_id: WorkspaceId,
    /// `None` for a workspace with no associated output.
    pub output_name: Option<String>,
    /// Time of the last focus, in nanoseconds of the monotonic clock; `None`
    /// if the window has never been focused, which counts as older than any
    /// time.
    pub focus_timestamp: Option<u128>,
}

/// Whether the focus time `a` is strictly more recent than `b`.
pub open spec fn more_recent(a: Option<u128>, b: Option<u128>) -> bool {
    match (a, b) {
        (Some(x), Some(y)) => x > y,
        (Some(_), None) => true,
        (None, _) => false,
    }
}

/// `i` is the most recently focused of the candidates that `keep` admits;
/// among equally recent ones, the first.
pub open spec fn is_mru_choice<Id>(
    s: Seq<TargetCandidate<Id>>,
    keep: spec_fn(TargetCandidate<Id>) -> bool,
    i: int,
) -> bool {
    &&& 0 <= i < s.len()
    &&& keep(s[i])
    &&& forall|j: int|
        0 <= j < s.len() && keep(#[trigger] s[j]) ==> !more_recent(s[j].focus_timestamp, s[i].focus_timestamp)
    &&& forall|j: int|
        0 <= j < i && keep(#[trigger] s[j]) ==> more_recent(s[i].focus_timestamp, s[j].focus_timestamp)
}

/// The candidate is on the dependent's workspace.
pub open spec fn on_workspace<Id>(c: TargetCandidate<Id>, ws: WorkspaceId) -> bool {
    c.workspace_id == ws
}

/// The candidate is on the dependent's output (both `None` counts too).
pub open spec fn on_output<Id>(c: TargetCandidate<Id>, out: Option<Seq<char>>) -> bool {
    opt_string_view(c.output_name) == out
}

/// The layer of candidates the resolver chooses from: those on the
/// dependent's workspace if any; else those on its output if any; else all.
pub open spec fn in_chosen_layer<Id>(
    s: Seq<TargetCandidate<Id>>,
    ws: WorkspaceId,
    out: Option<Seq<char>>,
    c: TargetCandidate<Id>,
) -> bool {
    if exists|j: int| 0 <= j < s.len() && on_workspace(#[trigger] s[j], ws) {
        on_workspace(c, ws)
    } else if exists|j: int| 0 <= j < s.len() && on_output(#[trigger] s[j], out) {
        on_output(c, out)
    } else {
        true
    }
}

/// Law: the most-recently-focused choice is unique, so the contracts of
/// `pick_mru` and `resolve_target` determine the returned window.
pub proof fn law_mru_choice_unique<Id>(
    s: Seq<TargetCandidate<Id>>,
    keep: spec_fn(TargetCandidate<Id>) -> bool,
    i: int,
    j: int,
)
    requires
        is_mru_choice(s, keep, i),
        is_mru_choice(s, keep, j),
    ensures
        i == j,
{
    if i < j {
        assert(more_recent(s[j].focus_timestamp, s[i].focus_timestamp));
        assert(!more_recent(s[j].focus_timestamp, s[i].focus_timestamp));
    } else if j < i {
        assert(more_recent(s[i].focus_timestamp, s[j].focus_timestamp));
        assert(!more_recent(s[i].focus_timestamp, s[j].focus_timestamp));
    }
}

/// Law: a candidate on the dependent's workspace always beats candidates
/// elsewhere, however recently those were focused; failing that, a
/// candidate on the dependent's output beats the rest.
pub proof fn law_layer_preference<Id>(
    s: Seq<TargetCandidate<Id>>,
    ws: WorkspaceId,
    out: Option<Seq<char>>,
    i: int,
)
    requires
        is_mru_choice(s, |c: TargetCandidate<Id>| in_chosen_layer(s, ws, out, c), i),
    ensures
        (exists|j: int| 0 <= j < s.len() && on_workspace(#[trigger] s[j], ws)) ==> on_workspace(s[i], ws),
        (!exists|j: int| 0 <= j < s.len() && on_workspace(#[trigger] s[j], ws)) && (exists|j: int|
            0 <= j < s.len() && on_output(#[trigger] s[j], out)) ==> on_output(s[i], out),
{
}

/// Law: a candidate that was focused at some point beats every candidate
/// that never was: if any admitted candidate has a focus time, the choice
/// has one.
pub proof fn law_focused_beats_never_focused<Id>(
    s: Seq<TargetCandidate<Id>>,
    keep: spec_fn(TargetCandidate<Id>) -> bool,
    i: int,
    j: int,
)
    requires
        is_mru_choice(s, keep, i),
        0 <= j < s.len(),
        keep(s[j]),
        s[j].focus_timestamp is Some,
    ensures
        s[i].focus_timestamp is Some,
{
    assert(!more_recent(s[j].focus_timestamp, s[i].focus_timestamp));
}

/// Index of the most recently focused candidate among those marked in `mask`.
fn mru_index<Id>(
    cands: &Vec<TargetCandidate<Id>>,
    mask: &Vec<bool>,
    Ghost(keep): Ghost<spec_fn(TargetCandidate<Id>) -> bool>,
) -> (r: Option<usize>)
    requires
        mask@.len() == cands@.len(),
        forall|i: int| 0 <= i < cands@.len() ==> mask@[i] == keep(#[trigger] cands@[i]),
    ensures
        match r {
            None => forall|j: int| 0 <= j < cands@.len() ==> !keep(#[trigger] cands@[j]),
            Some(i) => is_mru_choice(cands@, keep, i as int),
        },
{
    let mut best: Option<usize> = None;
    let n = cands.len();
    for k in 0..n
        invariant
            n == cands@.len(),
            mask@.len() == cands@.len(),
            forall|i: int| 0 <= i < cands@.len() ==> mask@[i] == keep(#[trigger] cands@[i]),
            match best {
                None => forall|j: int| 0 <= j < k ==> !keep(#[trigger] cands@[j]),
                Some(b) => {
                    &&& b < k
                    &&& keep(cands@[b as int])
                    &&& forall|j: int|
                        0 <= j < k && keep(#[trigger] cands@[j]) ==> !more_recent(
                            cands@[j].focus_timestamp,
                            cands@[b as int].focus_timestamp,
                        )
                    &&& forall|j: int|
                        0 <= j < b && keep(#[trigger] cands@[j]) ==> more_recent(
                            cands@[b as int].focus_timestamp,
                            cands@[j].focus_timestamp,
                        )
                },
            },
    {
        if mask[k] {
            let beats = match best {
                None => true,
                Some(b) => match (cands[k].focus_timestamp, cands[b].focus_timestamp) {
                    (Some(ct), Some(bt)) => ct > bt,
                    (Some(_), None) => true,
                    (None, _) => false,
                },
            };
            if beats {
                best = Some(k);
            }
        }
    }
    best
}

/// Picks the most recently focused candidate; ties go to the first in
/// order, and a candidate never focused counts as older than any other.
/// `None` only when there is no candidate.
pub fn pick_mru<Id>(candidates: Vec<TargetCandidate<Id>>) -> (r: Option<Id>)
    ensures
        match r {
            None => candidates@.len() == 0,
            Some(id) => exists|i: int|
                is_mru_choice(candidates@, |c: TargetCandidate<Id>| true, i) && id == #[trigger] candidates@[i].id,
        },
{
    let mut all = candidates;
    let mut mask: Vec<bool> = Vec::new();
    for k in 0..all.len()
        invariant
            mask@.len() == k,
            forall|i: int| 0 <= i < k ==> mask@[i],
    {
        mask.push(true);
    }
    let ghost keep = |c: TargetCandidate<Id>| true;
    match mru_index(&all, &mask, Ghost(keep)) {
        None => {
            proof {
                if all@.len() > 0 {
                    assert(keep(all@[0]));
                }
            }
            None
        },
        Some(i) => {
            let ghost s = all@;
            let c = all.remove(i);
            assert(c == s[i as int]);
            Some(c.id)
        },
    }
}

/// Picks the window a dependent window is positioned relative to: among
/// candidates on the dependent's workspace if there are any, else among
/// those on its output if there are any, else among all, the most recently
/// focused one (ties to the first in order). `None` only when there is no
/// candidate.
pub fn resolve_target<Id>(
    candidates: Vec<TargetCandidate<Id>>,
    dependent_workspace_id: WorkspaceId,
    dependent_output_name: Option<&str>,
) -> (r: Option<Id>)
    ensures
        match r {
            None => candidates@.len() == 0,
            Some(id) => exists|i: int|
                is_mru_choice(
                    candidates@,
                    |c: TargetCandidate<Id>|
                        in_chosen_layer(
                            candidates@,
                            dependent_workspace_id,
                            opt_str_view(dependent_output_name),
                            c,
                        ),
                    i,
                ) && id == #[trigger] candidates@[i].id,
        },
{
    let mut all = candidates;
    let ghost s = all@;
    let ghost out = opt_str_view(dependent_output_name);
    let n = all.len();
    let mut ws_mask: Vec<bool> = Vec::new();
    let mut out_mask: Vec<bool> = Vec::new();
    let mut any_ws = false;
    let mut any_out = false;
    for k in 0..n
        invariant
            n == s.len(),
            all@ == s,
            out == opt_str_view(dependent_output_name),
            ws_mask@.len() == k,
            out_mask@.len() == k,
            forall|i: int| 0 <= i < k ==> ws_mask@[i] == on_workspace(#[trigger] s[i], dependent_workspace_id),
            forall|i: int| 0 <= i < k ==> out_mask@[i] == on_output(#[trigger] s[i], out),
            any_ws == exists|j: int| 0 <= j < k && on_workspace(#[trigger] s[j], dependent_workspace_id),
            any_out == exists|j: int| 0 <= j < k && on_output(#[trigger] s[j], out),
    {
        let cand = &all[k];
        let w = cand.workspace_id == dependent_workspace_id;
        assert(cand.output_name == s[k as int].output_name);
        let o = opt_string_eq_str(&cand.output_name, dependent_output_name);
        assert(o == (opt_string_view(cand.output_name) == opt_str_view(dependent_output_name)));
        assert(o == (opt_string_view(s[k as int].output_name) == out));
        ws_mask.push(w);
        out_mask.push(o);
        if w {
            any_ws = true;
        }
        if o {
            any_out = true;
        }
        proof {
            if w {
                assert(on_workspace(s[k as int], dependent_workspace_id));
            }
            if o {
                assert(on_output(s[k as int], out));
            }
        }
    }
    let ghost keep = |c: TargetCandidate<Id>| in_chosen_layer(s, dependent_workspace_id, out, c);
    let chosen = if any_ws {
        mru_index(&all, &ws_mask, Ghost(keep))
    } else if any_out {
        mru_index(&all, &out_mask, Ghost(keep))
    } else {
        let mut mask: Vec<bool> = Vec::new();
        for k in 0..n
            invariant
                mask@.len() == k,
                forall|i: int| 0 <= i < k ==> mask@[i],
        {
            mask.push(true);
        }
        mru_index(&all, &mask, Ghost(keep))
    };
    match chosen {
        None => {
            proof {
                if s.len() > 0 {
                    if exists|j: int| 0 <= j < s.len() && on_workspace(#[trigger] s[j], dependent_workspace_id) {
                        let j = choose|j: int| 0 <= j < s.len() && on_workspace(#[trigger] s[j], dependent_workspace_id);
                        assert(keep(s[j]));
                    } else if exists|j: int| 0 <= j < s.len() && on_output(#[trigger] s[j], out) {
                        let j = choose|j: int| 0 <= j < s.len() && on_output(#[trigger] s[j], out);
                        assert(keep(s[j]));
                    } else {
                        assert(keep(s[0]));
                    }
                }
            }
            None
        },
        Some(i) => {
            let c = all.remove(i);
            assert(c == s[i as int]);
            Some(c.id)
        },
    }
}

/// A mapped window of the layout, as the position-frame resolver sees it.
pub struct LayoutWindow {
    pub id: u64,
    pub workspace_id: WorkspaceId,
    /// Output of the window's workspace, `None` when it has none.
    pub output_name: Option<String>,
    /// Time of the last focus, in nanoseconds; `None` if never focused.
    pub focus_timestamp: Option<u128>,
    pub mapped: Mapped,
}

/// The window can serve as the target of a dependent: it is not the
/// dependent itself and the target matcher applies to it.
pub open spec fn is_target_candidate(w: LayoutWindow, target: Match, dependent_id: u64, is_at_startup: bool) -> bool {
    w.id != dependent_id && match_applies(WindowRef::Mapped(&w.mapped), target, is_at_startup)
}

/// The candidate record of a layout window.
pub open spec fn candidate_of(w: LayoutWindow) -> TargetCandidate<u64> {
    TargetCandidate {
        id: w.id,
        workspace_id: w.workspace_id,
        output_name: w.output_name,
        focus_timestamp: w.focus_timestamp,
    }
}

/// The candidates for the target of a dependent, in layout order.
pub open spec fn target_candidates(
    windows: Seq<LayoutWindow>,
    target: Match,
    dependent_id: u64,
    is_at_startup: bool,
) -> Seq<TargetCandidate<u64>> {
    windows.filter(target_filter(target, dependent_id, is_at_startup)).map_values(candidate_map())
}

/// `is_target_candidate` as a predicate on layout windows.
pub open spec fn target_filter(target: Match, dependent_id: u64, is_at_startup: bool) -> spec_fn(LayoutWindow) -> bool {
    |w: LayoutWindow| is_target_candidate(w, target, dependent_id, is_at_startup)
}

/// `candidate_of` as a function value.
pub open spec fn candidate_map() -> spec_fn(LayoutWindow) -> TargetCandidate<u64> {
    |w: LayoutWindow| candidate_of(w)
}

/// Picks the window a dependent window is anchored to: among the layout's
/// windows (in layout order) other than the dependent that the target
/// matcher selects, the choice of `resolve_target`.
pub fn resolve_position_frame_target(
    windows: &[LayoutWindow],
    target: &Match,
    dependent_id: u64,
    dependent_workspace_id: WorkspaceId,
    dependent_output_name: Option<&str>,
    is_at_startup: bool,
) -> (r: Option<u64>)
    ensures
        ({
            let cands = target_candidates(windows@, *target, dependent_id, is_at_startup);
            match r {
                None => cands.len() == 0,
                Some(id) => exists|i: int|
                    is_mru_choice(
                        cands,
                        |c: TargetCandidate<u64>|
                            in_chosen_layer(cands, dependent_workspace_id, opt_str_view(dependent_output_name), c),
                        i,
                    ) && id == #[trigger] cands[i].id,
            }
        }),
{
    let ghost pred = target_filter(*target, dependent_id, is_at_startup);
    let mut cands: Vec<TargetCandidate<u64>> = Vec::new();
    let mut i: usize = 0;
    while i < windows.len()
        invariant
            i <= windows@.len(),
            pred == target_filter(*target, dependent_id, is_at_startup),
            cands@ == windows@.take(i as int).filter(pred).map_values(candidate_map()),
        decreases windows@.len() - i,
    {
        let w = &windows[i];
        proof {
            reveal_with_fuel(Seq::<LayoutWindow>::filter, 1);
            assert(windows@.take(i + 1).drop_last() == windows@.take(i as int));
            assert(windows@.take(i + 1).last() == windows@[i as int]);
            let f = windows@.take(i as int).filter(pred);
            assert(f.push(*w).map_values(candidate_map()) =~= f.map_values(candidate_map()).push(candidate_of(*w)));
        }
        if w.id != dependent_id && mapped_matches(&w.mapped, target, is_at_startup) {
            let output_name = match &w.output_name {
                Some(o) => Some(o.clone()),
                None => None,
            };
            cands.push(TargetCandidate {
                id: w.id,
                workspace_id: w.workspace_id,
                output_name,
                focus_timestamp: w.focus_timestamp,
            });
        }
        i = i + 1;
    }
    assert(windows@.take(windows@.len() as int) == windows@);
    let ghost cs = cands@;
    assert(cs == target_candidates(windows@, *target, dependent_id, is_at_startup));
    let r = resolve_target(cands, dependent_workspace_id, dependent_output_name);
    proof {
        let keep = |c: TargetCandidate<u64>|
            in_chosen_layer(cs, dependent_workspace_id, opt_str_view(dependent_output_name), c);
        if let Some(id) = r {
            let i = choose|i: int| is_mru_choice(cs, keep, i) && id == #[trigger] cs[i].id;
            assert(is_mru_choice(cs, keep, i));
        }
    }
    r
}

/// The candidate carries the window's id, workspace, output name and focus
/// time.
pub open spec fn carries_window(c: TargetCandidate<u64>, w: LayoutWindow) -> bool {
    &&& c.id == w.id
    &&& c.workspace_id == w.workspace_id
    &&& c.output_name == w.output_name
    &&& c.focus_timestamp == w.focus_timestamp
}

/// The candidate comes from a target-candidate window among `windows`.
pub open spec fn from_target_window(
    windows: Seq<LayoutWindow>,
    target: Match,
    dependent_id: u64,
    is_at_startup: bool,
    c: TargetCandidate<u64>,
) -> bool {
    exists|j: int|
        0 <= j < windows.len() && is_target_candidate(windows[j], target, dependent_id, is_at_startup)
            && #[trigger] carries_window(c, windows[j])
}

/// Law: the candidates built from the layout's windows are exactly the
/// target-candidate windows, each with its own id, workspace, output name
/// and focus time.
pub proof fn law_candidates_keep_window_fields(
    windows: Seq<LayoutWindow>,
    target: Match,
    dependent_id: u64,
    is_at_startup: bool,
)
    ensures
        ({
            let cands = target_candidates(windows, target, dependent_id, is_at_startup);
            &&& forall|i: int|
                0 <= i < cands.len() ==> from_target_window(windows, target, dependent_id, is_at_startup, #[trigger] cands[i])
            &&& forall|j: int|
                0 <= j < windows.len() && is_target_candidate(#[trigger] windows[j], target, dependent_id, is_at_startup)
                    ==> exists|i: int| 0 <= i < cands.len() && carries_window(#[trigger] cands[i], windows[j])
        }),
{
    broadcast use vstd::seq_lib::group_filter_ensures;
    let pred = target_filter(target, dependent_id, is_at_startup);
    let f = windows.filter(pred);
    let cands = target_candidates(windows, target, dependent_id, is_at_startup);
    assert(cands == f.map_values(candidate_map()));
    assert forall|i: int| 0 <= i < cands.len() implies from_target_window(
        windows,
        target,
        dependent_id,
        is_at_startup,
        #[trigger] cands[i],
    ) by {
        assert(cands[i] == candidate_of(f[i]));
        assert(f.contains(f[i]));
        windows.lemma_filter_contains_rev(pred, f[i]);
        let j = choose|j: int| 0 <= j < windows.len() && windows[j] == f[i];
        assert(pred(f[i]));
        assert(is_target_candidate(windows[j], target, dependent_id, is_at_startup));
        assert(carries_window(cands[i], windows[j]));
    }
    assert forall|j: int| 0 <= j < windows.len() && is_target_candidate(#[trigger] windows[j], target, dependent_id, is_at_startup)
        implies exists|i: int| 0 <= i < cands.len() && carries_window(#[trigger] cands[i], windows[j]) by {
        assert(pred(windows[j]));
        windows.lemma_filter_contains(pred, j);
        let i = choose|i: int| 0 <= i < f.len() && f[i] == windows[j];
        assert(cands[i] == candidate_of(f[i]));
        assert(carries_window(cands[i], windows[j]));
    }
}

/// Law: when no target-candidate window is on the dependent's workspace and
/// one is on the dependent's output, the chosen target is a window on that
/// output.
#[verifier::rlimit(40)]
pub proof fn law_position_target_prefers_dependent_output(
    windows: Seq<LayoutWindow>,
    target: Match,
    dependent_id: u64,
    dependent_workspace_id: WorkspaceId,
    dependent_output: Option<Seq<char>>,
    is_at_startup: bool,
    i: int,
)
    requires
        is_mru_choice(
            target_candidates(windows, target, dependent_id, is_at_startup),
            |c: TargetCandidate<u64>|
                in_chosen_layer(
                    target_candidates(windows, target, dependent_id, is_at_startup),
                    dependent_workspace_id,
                    dependent_output,
                    c,
                ),
            i,
        ),
        forall|j: int|
            0 <= j < windows.len() && is_target_candidate(#[trigger] windows[j], target, dependent_id, is_at_startup)
                ==> windows[j].workspace_id != dependent_workspace_id,
        exists|j: int|
            0 <= j < windows.len() && is_target_candidate(#[trigger] windows[j], target, dependent_id, is_at_startup)
                && opt_string_view(windows[j].output_name) == dependent_output,
    ensures
        opt_string_view(target_candidates(windows, target, dependent_id, is_at_startup)[i].output_name)
            == dependent_output,
        exists|j: int|
            #![trigger windows[j]]
            0 <= j < windows.len() && is_target_candidate(windows[j], target, dependent_id, is_at_startup)
                && windows[j].id == target_candidates(windows, target, dependent_id, is_at_startup)[i].id
                && opt_string_view(windows[j].output_name) == dependent_output,
{
    let cands = target_candidates(windows, target, dependent_id, is_at_startup);
    law_candidates_keep_window_fields(windows, target, dependent_id, is_at_startup);
    assert forall|k: int| 0 <= k < cands.len() implies !on_workspace(#[trigger] cands[k], dependent_workspace_id) by {
        assert(from_target_window(windows, target, dependent_id, is_at_startup, cands[k]));
        let j = choose|j: int|
            0 <= j < windows.len() && is_target_candidate(windows[j], target, dependent_id, is_at_startup)
                && #[trigger] carries_window(cands[k], windows[j]);
        assert(windows[j].workspace_id != dependent_workspace_id);
    }
    let w = choose|j: int|
        0 <= j < windows.len() && is_target_candidate(#[trigger] windows[j], target, dependent_id, is_at_startup)
            && opt_string_view(windows[j].output_name) == dependent_output;
    let k = choose|k: int| 0 <= k < cands.len() && carries_window(#[trigger] cands[k], windows[w]);
    assert(on_output(cands[k], dependent_output));
    law_layer_preference(cands, dependent_workspace_id, dependent_output, i);
    assert(from_target_window(windows, target, dependent_id, is_at_startup, cands[i]));
    let j = choose|j: int|
        0 <= j < windows.len() && is_target_candidate(windows[j], target, dependent_id, is_at_startup)
            && #[trigger] carries_window(cands[i], windows[j]);
    assert(windows[j].id == cands[i].id);
}

} // verus!
