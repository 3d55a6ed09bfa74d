//! What is being cast: the cast targets and the snapshot of cast outputs and
//! windows derived from them.

use crate::strings::str_eq;
use std::collections::HashSet;
use vstd::prelude::*;

verus! {

broadcast use vstd::std_specs::hash::group_hash_axioms;

/// What a screencast shows.
#[derive(Debug, Clone)]
pub enum CastTarget {
    /// The cast has no target yet (dynamic casts before the user picks one).
    Nothing,
    /// A whole output, by connector name.
    Output { name: String },
    /// A single window, by id.
    Window { id: u64 },
}

impl CastTarget {
    /// A copy of this target.
    pub fn duplicate(&self) -> (t: CastTarget)
        ensures
            t == *self,
    {
        match self {
            CastTarget::Nothing => CastTarget::Nothing,
            CastTarget::Output { name } => CastTarget::Output { name: name.clone() },
            CastTarget::Window { id } => CastTarget::Window { id: *id },
        }
    }

    /// What identifies the target: its kind, and its output name or window id.
    pub open spec fn key(self) -> (u8, Seq<char>, u64) {
        match self {
            CastTarget::Nothing => (0, Seq::empty(), 0),
            CastTarget::Output { name } => (1, name@, 0),
            CastTarget::Window { id } => (2, Seq::empty(), id),
        }
    }

    /// Whether two targets are the same target.
    pub fn same_as(&self, other: &CastTarget) -> (r: bool)
        ensures
            r == (self.key() == other.key()),
    {
        match (self, other) {
            (CastTarget::Nothing, CastTarget::Nothing) => true,
            (CastTarget::Output { name: a }, CastTarget::Output { name: b }) => str_eq(a.as_str(), b.as_str()),
            (CastTarget::Window { id: a }, CastTarget::Window { id: b }) => *a == *b,
            _ => false,
        }
    }

    /// The target for the output with the given connector name.
    pub fn output(name: &str) -> (t: CastTarget)
        ensures
            t matches CastTarget::Output { name: n } && n@ == name@,
    {
        CastTarget::Output { name: name.to_owned() }
    }
}

/// The output names that the targets cast.
pub open spec fn targeted_outputs(ts: Seq<CastTarget>) -> Set<Seq<char>> {
    Set::new(
        |n: Seq<char>|
            exists|i: int| 0 <= i < ts.len() && (#[trigger] ts[i] matches CastTarget::Output { name } && name@ == n),
    )
}

/// The window ids that the targets cast.
pub open spec fn targeted_windows(ts: Seq<CastTarget>) -> Set<u64> {
    Set::new(
        |w: u64| exists|i: int| 0 <= i < ts.len() && (#[trigger] ts[i] matches CastTarget::Window { id } && id == w),
    )
}

/// Derived view of the live casts: which outputs and which window ids are
/// currently being cast.
#[derive(Debug)]
pub struct ActiveCasts {
    /// Names of the cast outputs, each at most once.
    pub outputs: Vec<String>,
    /// Ids of the cast windows.
    pub windows: HashSet<u64>,
}

/// The set of names in a list of strings.
pub open spec fn name_set(v: Seq<String>) -> Set<Seq<char>> {
    Set::new(|n: Seq<char>| exists|i: int| 0 <= i < v.len() && (#[trigger] v[i])@ == n)
}

/// Whether a list of strings holds some name twice.
pub open spec fn names_distinct(v: Seq<String>) -> bool {
    forall|i: int, j: int| 0 <= i < v.len() && 0 <= j < v.len() && i != j ==> (#[trigger] v[i])@ != (#[trigger] v[j])@
}

/// Whether `name` is among `names`.
fn contains_name(names: &Vec<String>, name: &str) -> (r: bool)
    ensures
        r == name_set(names@).contains(name@),
{
    let mut i: usize = 0;
    while i < names.len()
        invariant
            i <= names@.len(),
            forall|j: int| 0 <= j < i ==> (#[trigger] names@[j])@ != name@,
        decreases names@.len() - i,
    {
        if str_eq(names[i].as_str(), name) {
            assert(name_set(names@).contains(name@) == true) by {
                assert(names@[i as int]@ == name@);
            }
            return true;
        }
        i = i + 1;
    }
    false
}

impl Default for ActiveCasts {
    /// Nothing is being cast.
    fn default() -> (r: Self)
        ensures
            r.outputs@.len() == 0,
            r.windows@.is_empty(),
            r.output_names().is_empty(),
    {
        let r = ActiveCasts { outputs: Vec::new(), windows: HashSet::new() };
        assert(r.output_names() =~= Set::<Seq<char>>::empty());
        r
    }
}

impl ActiveCasts {
    /// The names of the cast outputs.
    pub open spec fn output_names(&self) -> Set<Seq<char>> {
        name_set(self.outputs@)
    }

    /// True when nothing is being cast.
    pub fn is_empty(&self) -> (r: bool)
        ensures
            r == (self.outputs@.len() == 0 && self.windows@.is_empty()),
    {
        self.outputs.len() == 0 && self.windows.is_empty()
    }

    /// True when the output called `name` is being cast.
    pub fn contains_output(&self, name: &str) -> (r: bool)
        ensures
            r == self.output_names().contains(name@),
    {
        contains_name(&self.outputs, name)
    }

    /// True when the window with id `id` is being cast.
    pub fn contains_window(&self, id: u64) -> (r: bool)
        ensures
            r == self.windows@.contains(id),
    {
        self.windows.contains(&id)
    }

    /// Replace the snapshot with the one derived from `targets`: every output
    /// target contributes its name, every window target its id, `Nothing`
    /// contributes nothing; repeated targets count once.
    pub fn recompute_from_targets(&mut self, targets: &[CastTarget])
        ensures
            final(self).output_names() == targeted_outputs(targets@),
            names_distinct(final(self).outputs@),
            final(self).windows@ == targeted_windows(targets@),
    {
        self.outputs.clear();
        self.windows.clear();
        let mut i: usize = 0;
        while i < targets.len()
            invariant
                i <= targets@.len(),
                self.output_names() == targeted_outputs(targets@.take(i as int)),
                names_distinct(self.outputs@),
                self.windows@ == targeted_windows(targets@.take(i as int)),
            decreases targets@.len() - i,
        {
            let ghost before = self.outputs@;
            let ghost prefix = targets@.take(i as int);
            let ghost next = targets@.take(i + 1);
            assert(next == prefix.push(targets@[i as int]));
            match &targets[i] {
                CastTarget::Nothing => {
                    assert(targeted_outputs(next) =~= targeted_outputs(prefix));
                    assert(targeted_windows(next) =~= targeted_windows(prefix));
                },
                CastTarget::Output { name } => {
                    if !contains_name(&self.outputs, name.as_str()) {
                        self.outputs.push(name.clone());
                        assert(name_set(self.outputs@) =~= name_set(before).insert(name@)) by {
                            assert(self.outputs@[before.len() as int] == *name);
                            assert forall|n: Seq<char>| name_set(before).contains(n) implies name_set(self.outputs@).contains(n) by {
                                let j = choose|j: int| 0 <= j < before.len() && (#[trigger] before[j])@ == n;
                                assert(self.outputs@[j] == before[j]);
                            }
                        }
                    }
                    assert(targeted_outputs(next) =~= targeted_outputs(prefix).insert(name@)) by {
                        assert forall|n: Seq<char>| targeted_outputs(prefix).contains(n) implies targeted_outputs(next).contains(n) by {
                            let j = choose|j: int| 0 <= j < prefix.len() && (#[trigger] prefix[j] matches CastTarget::Output { name } && name@ == n);
                            assert(next[j] == prefix[j]);
                        }
                        assert(next[i as int] == targets@[i as int]);
                    }
                    assert(targeted_windows(next) =~= targeted_windows(prefix));
                },
                CastTarget::Window { id } => {
                    self.windows.insert(*id);
                    assert(targeted_outputs(next) =~= targeted_outputs(prefix));
                    assert(targeted_windows(next) =~= targeted_windows(prefix).insert(*id)) by {
                        assert forall|w: u64| targeted_windows(prefix).contains(w) implies targeted_windows(next).contains(w) by {
                            let j = choose|j: int| 0 <= j < prefix.len() && (#[trigger] prefix[j] matches CastTarget::Window { id } && id == w);
                            assert(next[j] == prefix[j]);
                        }
                        assert(next[i as int] == targets@[i as int]);
                    }
                },
            }
            i = i + 1;
        }
        assert(targets@.take(targets@.len() as int) == targets@);
    }
}

/// Law: the snapshot depends only on which targets are cast, not on their
/// order or on how often each appears.
pub proof fn law_snapshot_ignores_order_and_repeats(ts1: Seq<CastTarget>, ts2: Seq<CastTarget>)
    requires
        ts1.to_set() == ts2.to_set(),
    ensures
        targeted_outputs(ts1) == targeted_outputs(ts2),
        targeted_windows(ts1) == targeted_windows(ts2),
{
    assert forall|n: Seq<char>| targeted_outputs(ts1).contains(n) implies targeted_outputs(ts2).contains(n) by {
        let i = choose|i: int| 0 <= i < ts1.len() && (#[trigger] ts1[i] matches CastTarget::Output { name } && name@ == n);
        assert(ts1.to_set().contains(ts1[i]));
        let j = choose|j: int| 0 <= j < ts2.len() && ts2[j] == ts1[i];
        assert(ts2[j] == ts1[i]);
    }
    assert forall|n: Seq<char>| targeted_outputs(ts2).contains(n) implies targeted_outputs(ts1).contains(n) by {
        let i = choose|i: int| 0 <= i < ts2.len() && (#[trigger] ts2[i] matches CastTarget::Output { name } && name@ == n);
        assert(ts2.to_set().contains(ts2[i]));
        let j = choose|j: int| 0 <= j < ts1.len() && ts1[j] == ts2[i];
        assert(ts1[j] == ts2[i]);
    }
    assert forall|w: u64| targeted_windows(ts1).contains(w) implies targeted_windows(ts2).contains(w) by {
        let i = choose|i: int| 0 <= i < ts1.len() && (#[trigger] ts1[i] matches CastTarget::Window { id } && id == w);
        assert(ts1.to_set().contains(ts1[i]));
        let j = choose|j: int| 0 <= j < ts2.len() && ts2[j] == ts1[i];
        assert(ts2[j] == ts1[i]);
    }
    assert forall|w: u64| targeted_windows(ts2).contains(w) implies targeted_windows(ts1).contains(w) by {
        let i = choose|i: int| 0 <= i < ts2.len() && (#[trigger] ts2[i] matches CastTarget::Window { id } && id == w);
        assert(ts2.to_set().contains(ts2[i]));
        let j = choose|j: int| 0 <= j < ts1.len() && ts1[j] == ts2[i];
        assert(ts1[j] == ts2[i]);
    }
    assert(targeted_outputs(ts1) =~= targeted_outputs(ts2));
    assert(targeted_windows(ts1) =~= targeted_windows(ts2));
}

/// Law: targets that cast nothing contribute nothing: a list made only of
/// `Nothing` yields an empty snapshot.
pub proof fn law_nothing_targets_give_empty_snapshot(ts: Seq<CastTarget>)
    requires
        forall|i: int| 0 <= i < ts.len() ==> #[trigger] ts[i] is Nothing,
    ensures
        targeted_outputs(ts) == Set::<Seq<char>>::empty(),
        targeted_windows(ts) == Set::<u64>::empty(),
{
    assert(targeted_outputs(ts) =~= Set::<Seq<char>>::empty());
    assert(targeted_windows(ts) =~= Set::<u64>::empty());
}

/// Matches the Zoom client by its app id: exactly `zoom` or `Zoom`.
pub fn is_zoom_app_id(app_id: &str) -> (r: bool)
    ensures
        r == (app_id@ == "zoom"@ || app_id@ == "Zoom"@),
{
    str_eq(app_id, "zoom") || str_eq(app_id, "Zoom")
}

/// Whether the cast indicator border is drawn on the output called
/// `output_name`: the indicator is enabled (non-zero width) and a cast of
/// that output is active. Window casts do not put it on the output.
pub fn output_indicator_visible(
    active_casts: &ActiveCasts,
    output_name: &str,
    config: &crate::screen_cast::ScreenCastIndicator,
) -> (r: bool)
    ensures
        r == (config.width != 0 && active_casts.output_names().contains(output_name@)),
{
    if config.width == 0 {
        return false;
    }
    active_casts.contains_output(output_name)
}

} // verus!
