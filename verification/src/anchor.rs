//! Bidirectional index of cross-window anchor relationships: which window
//! (the dependent) is anchored to which other window (the target), and in
//! reverse which dependents each target has.

use std::collections::{HashMap, HashSet};
use vstd::prelude::*;
use vstd::std_specs::iter::IteratorSpec;

verus! {

broadcast use vstd::std_specs::hash::group_hash_axioms;

/// Longest chain walked when measuring how deep a new anchor chain is.
pub const MAX_CHAIN_DEPTH: usize = 16;

/// Result of a registration attempt. The registration itself always succeeds.
#[derive(Debug, Clone, Copy, PartialEq, Eq, Structural)]
pub enum RegisterOutcome {
    /// The new target has no target of its own: the chain has depth 1.
    Registered,
    /// The new target is itself anchored (chain depth above 1).
    RecursiveAnchor { chain_depth: usize },
}

/// Number of anchor hops that can be followed starting at `x`, counting at
/// most `cap` of them.
pub open spec fn chain_links(m: Map<u64, u64>, x: u64, cap: nat) -> nat
    decreases cap,
{
    if cap == 0 || !m.contains_key(x) {
        0
    } else {
        1 + chain_links(m, m[x], (cap - 1) as nat)
    }
}

/// Depth of the anchor chain that a new registration onto `target` creates:
/// one for the new link, plus the hops already leading away from `target`,
/// the total capped at `MAX_CHAIN_DEPTH`.
pub open spec fn chain_depth(m: Map<u64, u64>, target: u64) -> nat {
    1 + chain_links(m, target, (MAX_CHAIN_DEPTH - 1) as nat)
}

/// The outcome reported for a chain of the given depth.
pub open spec fn outcome_for_depth(depth: nat) -> RegisterOutcome {
    if depth > 1 {
        RegisterOutcome::RecursiveAnchor { chain_depth: depth as usize }
    } else {
        RegisterOutcome::Registered
    }
}

/// The dependents anchored to `target` in the dependent → target map `m`.
pub open spec fn dependents_in(m: Map<u64, u64>, target: u64) -> Set<u64> {
    Set::new(|d: u64| m.contains_key(d) && m[d] == target)
}

/// Bidirectional index of anchor relationships for cross-window positioning.
pub struct AnchorIndex {
    /// dependent → target.
    forward: HashMap<u64, u64>,
    /// target → set of dependents.
    reverse: HashMap<u64, HashSet<u64>>,
}

impl View for AnchorIndex {
    type V = Map<u64, u64>;

    /// The abstract state: each registered dependent mapped to its target.
    closed spec fn view(&self) -> Map<u64, u64> {
        self.forward@
    }
}

/// Counting hops never exceeds the cap.
proof fn lemma_chain_links_bounded(m: Map<u64, u64>, x: u64, cap: nat)
    ensures
        chain_links(m, x, cap) <= cap,
    decreases cap,
{
    if cap > 0 && m.contains_key(x) {
        lemma_chain_links_bounded(m, m[x], (cap - 1) as nat);
    }
}

/// Along a two-window cycle every hop can be followed, so the count reaches the cap.
proof fn lemma_cycle_links_reach_cap(m: Map<u64, u64>, a: u64, b: u64, cap: nat)
    requires
        m.contains_key(a),
        m.contains_key(b),
        m[a] == b,
        m[b] == a,
    ensures
        chain_links(m, a, cap) == cap,
        chain_links(m, b, cap) == cap,
    decreases cap,
{
    if cap > 0 {
        lemma_cycle_links_reach_cap(m, a, b, (cap - 1) as nat);
    }
}

/// Law: the depth reported by a registration lies between 1 and
/// `MAX_CHAIN_DEPTH`, and the registration is reported as recursive exactly
/// when the new target is itself anchored to something.
pub proof fn law_chain_depth_bounds(m: Map<u64, u64>, target: u64)
    ensures
        1 <= chain_depth(m, target) <= MAX_CHAIN_DEPTH,
        outcome_for_depth(chain_depth(m, target)) is RecursiveAnchor <==> m.contains_key(target),
{
    lemma_chain_links_bounded(m, target, (MAX_CHAIN_DEPTH - 1) as nat);
}

/// Law: when the new target sits on a cycle of two anchored windows, the
/// depth walk stops at the cap instead of looping.
pub proof fn law_cycle_depth_is_capped(m: Map<u64, u64>, a: u64, b: u64)
    requires
        m.contains_key(a),
        m.contains_key(b),
        m[a] == b,
        m[b] == a,
    ensures
        chain_depth(m, a) == MAX_CHAIN_DEPTH,
{
    lemma_cycle_links_reach_cap(m, a, b, (MAX_CHAIN_DEPTH - 1) as nat);
}

/// Law: after registering `dependent` onto `target`, the target of
/// `dependent` is `target`; `dependent` is listed among the dependents of
/// `target` and of no other window (a re-registration moves it).
pub proof fn law_register_links_both_directions(m: Map<u64, u64>, dependent: u64, target: u64)
    ensures
        m.insert(dependent, target)[dependent] == target,
        dependents_in(m.insert(dependent, target), target) == dependents_in(m, target).insert(
            dependent,
        ),
        forall|other: u64|
            other != target ==> #[trigger] dependents_in(m.insert(dependent, target), other)
                == dependents_in(m, other).remove(dependent),
{
    assert(dependents_in(m.insert(dependent, target), target) =~= dependents_in(m, target).insert(
        dependent,
    ));
    assert forall|other: u64| other != target implies #[trigger] dependents_in(
        m.insert(dependent, target),
        other,
    ) == dependents_in(m, other).remove(dependent) by {
        assert(dependents_in(m.insert(dependent, target), other) =~= dependents_in(m, other).remove(
            dependent,
        ));
    }
}

/// Law: unregistering a dependent that was just registered (and was not
/// registered before) gives back the index as it was; unregistering an id
/// that is not registered changes nothing.
pub proof fn law_unregister_undoes_register(m: Map<u64, u64>, dependent: u64, target: u64)
    requires
        !m.contains_key(dependent),
    ensures
        m.insert(dependent, target).remove(dependent) == m,
        m.remove(dependent) == m,
{
    assert(m.insert(dependent, target).remove(dependent) =~= m);
    assert(m.remove(dependent) =~= m);
}

/// Law: once the dependents of `target` are orphaned, nothing is anchored to
/// `target` any more, and every registration onto another window is kept.
pub proof fn law_orphan_clears_only_target(m: Map<u64, u64>, target: u64)
    ensures
        dependents_in(m.remove_keys(dependents_in(m, target)), target).is_empty(),
        forall|d: u64|
            m.contains_key(d) && m[d] != target ==> #[trigger] m.remove_keys(
                dependents_in(m, target),
            ).contains_key(d) && m.remove_keys(dependents_in(m, target))[d] == m[d],
{
    assert(dependents_in(m.remove_keys(dependents_in(m, target)), target) =~= Set::<u64>::empty());
}

/// Collects the elements of a set of ids into a vector, each once.
pub(crate) fn set_to_vec(set: &HashSet<u64>) -> (out: Vec<u64>)
    ensures
        out@.to_set() == set@,
        out@.no_duplicates(),
{
    let mut out: Vec<u64> = Vec::new();
    let ghost s = vstd::std_specs::hash::spec_hash_keys_iter(set).remaining();
    for d in it: set.iter()
        invariant
            it.seq() == s,
            out@ == s.unref().take(it.index()),
    {
        out.push(*d);
    }
    proof {
        assert(s.unref().take(s.len() as int) == s.unref());
    }
    out
}

/// Collects the keys of a map into a vector, each once.
fn keys_to_vec(map: &HashMap<u64, u64>) -> (out: Vec<u64>)
    ensures
        out@.to_set() == map@.dom(),
        out@.no_duplicates(),
{
    let mut out: Vec<u64> = Vec::new();
    let ghost s = vstd::std_specs::hash::spec_keys_iter(map).remaining();
    for d in it: map.keys()
        invariant
            it.seq() == s,
            out@ == s.unref().take(it.index()),
    {
        out.push(*d);
    }
    proof {
        assert(s.unref().take(s.len() as int) == s.unref());
    }
    out
}

/// The reverse map lists exactly the dependents of each target of the
/// forward map, and holds no empty entry.
pub closed spec fn maps_wf(forward: HashMap<u64, u64>, reverse: HashMap<u64, HashSet<u64>>) -> bool {
    &&& forall|t: u64, d: u64|
        #![trigger reverse@[t]@.contains(d)]
        reverse@.contains_key(t) && reverse@[t]@.contains(d) ==> forward@.contains_key(d) && forward@[d] == t
    &&& forall|d: u64| #[trigger]
        forward@.contains_key(d) ==> reverse@.contains_key(forward@[d]) && reverse@[forward@[d]]@.contains(d)
    &&& forall|t: u64| #[trigger] reverse@.contains_key(t) ==> !reverse@[t]@.is_empty()
}

impl Default for AnchorIndex {
    /// An index with no registration.
    fn default() -> (idx: Self)
        ensures
            idx@ == Map::<u64, u64>::empty(),
    {
        AnchorIndex { forward: HashMap::new(), reverse: HashMap::new() }
    }
}

impl AnchorIndex {
    /// The internal consistency of the two directions of the index (see
    /// `maps_wf`).
    #[verifier::type_invariant]
    closed spec fn wf(self) -> bool {
        maps_wf(self.forward, self.reverse)
    }

    /// Creates an empty index.
    pub fn new() -> (idx: Self)
        ensures
            idx@ == Map::<u64, u64>::empty(),
    {
        Self::default()
    }

    /// Measures the depth of the chain that anchoring something to `target`
    /// would create, walking at most `MAX_CHAIN_DEPTH` links.
    fn measure_chain_depth(&self, target: u64) -> (depth: usize)
        ensures
            depth == chain_depth(self@, target),
            1 <= depth <= MAX_CHAIN_DEPTH,
    {
        let ghost m = self@;
        let mut depth: usize = 1;
        let mut cursor: Option<u64> = match self.forward.get(&target) {
            Some(next) => Some(*next),
            None => None,
        };
        loop
            invariant_except_break
                1 <= depth < MAX_CHAIN_DEPTH,
                m == self@,
                chain_depth(m, target) == depth + match cursor {
                    None => 0nat,
                    Some(n) => 1 + chain_links(m, n, (MAX_CHAIN_DEPTH - 1 - depth) as nat),
                },
            ensures
                depth == chain_depth(m, target),
                1 <= depth <= MAX_CHAIN_DEPTH,
            decreases MAX_CHAIN_DEPTH - depth,
        {
            match cursor {
                None => {
                    break;
                },
                Some(next) => {
                    depth = depth + 1;
                    if depth >= MAX_CHAIN_DEPTH {
                        break;
                    }
                    cursor = match self.forward.get(&next) {
                        Some(n) => Some(*n),
                        None => None,
                    };
                },
            }
        }
        depth
    }

    /// Drops the registration of `dependent` from both directions.
    fn detach(forward: &mut HashMap<u64, u64>, reverse: &mut HashMap<u64, HashSet<u64>>, dependent: &u64)
        requires
            maps_wf(*old(forward), *old(reverse)),
        ensures
            maps_wf(*final(forward), *final(reverse)),
            final(forward)@ == old(forward)@.remove(*dependent),
    {
        let ghost f0 = forward@;
        let ghost r0 = reverse@;
        match forward.remove(dependent) {
            Some(old_target) => {
                match reverse.remove(&old_target) {
                    Some(mut set) => {
                        set.remove(dependent);
                        if !set.is_empty() {
                            reverse.insert(old_target, set);
                        }
                        proof {
                            assert forall|t: u64, d: u64|
                                #![trigger reverse@[t]@.contains(d)]
                                reverse@.contains_key(t) && reverse@[t]@.contains(d)
                                implies forward@.contains_key(d) && forward@[d] == t by {
                                assert(r0.contains_key(t) && r0[t]@.contains(d));
                            }
                            assert forall|d: u64| #[trigger] forward@.contains_key(d)
                                implies reverse@.contains_key(forward@[d])
                                && reverse@[forward@[d]]@.contains(d) by {
                                assert(f0.contains_key(d));
                            }
                        }
                    },
                    None => {
                        assert(false);
                    },
                }
            },
            None => {
                assert(forward@ == f0.remove(*dependent));
            },
        }
    }

    /// Register `dependent` as anchored to `target`. A previous registration
    /// of `dependent` is replaced. The outcome tells whether the target is
    /// itself anchored (a recursive chain) and how deep the chain from the
    /// new target is, measured before the update and capped at
    /// `MAX_CHAIN_DEPTH`.
    pub fn register(&mut self, dependent: u64, target: u64) -> (outcome: RegisterOutcome)
        ensures
            final(self)@ == old(self)@.insert(dependent, target),
            outcome == outcome_for_depth(chain_depth(old(self)@, target)),
    {
        let depth = self.measure_chain_depth(target);
        proof {
            use_type_invariant(&*self);
        }
        let mut taken = AnchorIndex::new();
        std::mem::swap(self, &mut taken);
        proof {
            use_type_invariant(&taken);
        }
        let AnchorIndex { mut forward, mut reverse } = taken;
        Self::detach(&mut forward, &mut reverse, &dependent);
        let ghost f1 = forward@;
        let ghost r1 = reverse@;
        forward.insert(dependent, target);
        let mut set = match reverse.remove(&target) {
            Some(s) => s,
            None => HashSet::new(),
        };
        let ghost s0 = set@;
        set.insert(dependent);
        reverse.insert(target, set);
        proof {
            assert(!f1.contains_key(dependent));
            assert(r1.contains_key(target) ==> s0 == r1[target]@);
            assert(!r1.contains_key(target) ==> s0 == Set::<u64>::empty());
            assert forall|t: u64, d: u64|
                #![trigger reverse@[t]@.contains(d)]
                reverse@.contains_key(t) && reverse@[t]@.contains(d)
                implies forward@.contains_key(d) && forward@[d] == t by {
                if t != target {
                    assert(r1.contains_key(t) && r1[t]@.contains(d));
                } else if d != dependent {
                    assert(r1.contains_key(t) && r1[t]@.contains(d));
                }
            }
            assert forall|d: u64| #[trigger] forward@.contains_key(d)
                implies reverse@.contains_key(forward@[d])
                && reverse@[forward@[d]]@.contains(d) by {
                if d != dependent {
                    assert(f1.contains_key(d));
                }
            }
        }
        *self = AnchorIndex { forward, reverse };
        if depth > 1 {
            RegisterOutcome::RecursiveAnchor { chain_depth: depth }
        } else {
            RegisterOutcome::Registered
        }
    }

    /// Remove `dependent`'s registration entirely. No-op if it wasn't
    /// registered.
    pub fn unregister(&mut self, dependent: &u64)
        ensures
            final(self)@ == old(self)@.remove(*dependent),
    {
        proof {
            use_type_invariant(&*self);
        }
        let mut taken = AnchorIndex::new();
        std::mem::swap(self, &mut taken);
        proof {
            use_type_invariant(&taken);
        }
        let AnchorIndex { mut forward, mut reverse } = taken;
        Self::detach(&mut forward, &mut reverse, dependent);
        *self = AnchorIndex { forward, reverse };
    }

    /// `target` is going away: returns the dependents that were anchored to
    /// it, each once, and clears their registrations. Other registrations
    /// are untouched.
    pub fn orphan_dependents_of(&mut self, target: &u64) -> (orphans: Vec<u64>)
        ensures
            orphans@.to_set() == dependents_in(old(self)@, *target),
            orphans@.no_duplicates(),
            final(self)@ == old(self)@.remove_keys(dependents_in(old(self)@, *target)),
    {
        proof {
            use_type_invariant(&*self);
        }
        let mut taken = AnchorIndex::new();
        std::mem::swap(self, &mut taken);
        proof {
            use_type_invariant(&taken);
        }
        let AnchorIndex { mut forward, mut reverse } = taken;
        let ghost f0 = forward@;
        let ghost r0 = reverse@;
        let ghost deps = dependents_in(f0, *target);
        match reverse.remove(target) {
            None => {
                proof {
                    assert(deps =~= Set::<u64>::empty()) by {
                        assert forall|d: u64| !deps.contains(d) by {
                            if f0.contains_key(d) && f0[d] == *target {
                                assert(r0.contains_key(f0[d]));
                            }
                        }
                    }
                    assert(f0.remove_keys(deps) =~= f0);
                    assert(reverse@ == r0);
                }
                *self = AnchorIndex { forward, reverse };
                Vec::new()
            },
            Some(set) => {
                let out = set_to_vec(&set);
                proof {
                    assert(set@ =~= deps) by {
                        assert forall|d: u64| #[trigger] set@.contains(d) <==> deps.contains(d) by {
                            if deps.contains(d) {
                                assert(f0.contains_key(d));
                            }
                            if set@.contains(d) {
                                assert(r0[*target]@.contains(d));
                            }
                        }
                    }
                }
                let mut i: usize = 0;
                while i < out.len()
                    invariant
                        i <= out@.len(),
                        out@.to_set() == deps,
                        out@.no_duplicates(),
                        reverse@ == r0.remove(*target),
                        forward@ == f0.remove_keys(out@.take(i as int).to_set()),
                    decreases out@.len() - i,
                {
                    let d = out[i];
                    forward.remove(&d);
                    proof {
                        assert(out@.take(i + 1) == out@.take(i as int).push(d));
                        out@.take(i as int).lemma_push_to_set_commute(d);
                        assert(forward@ =~= f0.remove_keys(out@.take(i + 1).to_set()));
                    }
                    i = i + 1;
                }
                proof {
                    assert(out@.take(out@.len() as int) == out@);
                    assert(forward@ == f0.remove_keys(deps));
                    assert forall|t: u64, d: u64|
                        #![trigger reverse@[t]@.contains(d)]
                        reverse@.contains_key(t) && reverse@[t]@.contains(d)
                        implies forward@.contains_key(d) && forward@[d] == t by {
                        assert(r0.contains_key(t) && r0[t]@.contains(d));
                    }
                    assert forall|d: u64| #[trigger] forward@.contains_key(d)
                        implies reverse@.contains_key(forward@[d])
                        && reverse@[forward@[d]]@.contains(d) by {
                        assert(f0.contains_key(d));
                    }
                }
                *self = AnchorIndex { forward, reverse };
                out
            },
        }
    }

    /// What is `dependent` anchored to? `None` if free-floating.
    pub fn target_of(&self, dependent: &u64) -> (target: Option<&u64>)
        ensures
            match target {
                Some(t) => self@.contains_key(*dependent) && *t == self@[*dependent],
                None => !self@.contains_key(*dependent),
            },
    {
        self.forward.get(dependent)
    }

    /// Who is anchored to `target`? Each dependent is listed once.
    pub fn dependents_of(&self, target: &u64) -> (deps: Vec<u64>)
        ensures
            deps@.to_set() == dependents_in(self@, *target),
            deps@.no_duplicates(),
    {
        proof {
            use_type_invariant(self);
        }
        match self.reverse.get(target) {
            Some(set) => {
                let out = set_to_vec(set);
                proof {
                    assert(out@.to_set() =~= dependents_in(self@, *target)) by {
                        assert forall|d: u64| #[trigger] set@.contains(d) <==> dependents_in(
                            self@,
                            *target,
                        ).contains(d) by {
                            if dependents_in(self@, *target).contains(d) {
                                assert(self.forward@.contains_key(d));
                            }
                        }
                    }
                }
                out
            },
            None => {
                let out: Vec<u64> = Vec::new();
                proof {
                    assert(out@.to_set() =~= dependents_in(self@, *target)) by {
                        assert forall|d: u64| !dependents_in(self@, *target).contains(d) by {
                            if self.forward@.contains_key(d) && self.forward@[d] == *target {
                                assert(self.reverse@.contains_key(self.forward@[d]));
                            }
                        }
                    }
                }
                out
            },
        }
    }

    /// True if at least one dependent is anchored to `target`.
    pub fn has_dependents(&self, target: &u64) -> (r: bool)
        ensures
            r == !dependents_in(self@, *target).is_empty(),
    {
        proof {
            use_type_invariant(self);
        }
        let r = self.reverse.contains_key(target);
        proof {
            if r {
                let d = self.reverse@[*target]@.choose();
                assert(self.reverse@[*target]@.contains(d));
                assert(dependents_in(self@, *target).contains(d));
            } else {
                assert forall|d: u64| !dependents_in(self@, *target).contains(d) by {
                    if self.forward@.contains_key(d) && self.forward@[d] == *target {
                        assert(self.reverse@.contains_key(self.forward@[d]));
                    }
                }
                assert(dependents_in(self@, *target) =~= Set::<u64>::empty());
            }
        }
        r
    }

    /// True if `dependent` has any registered target.
    pub fn is_registered(&self, dependent: &u64) -> (r: bool)
        ensures
            r == self@.contains_key(*dependent),
    {
        self.forward.contains_key(dependent)
    }

    /// Every registered dependent (every id with a target), each once.
    pub fn dependents_iter(&self) -> (deps: Vec<u64>)
        ensures
            deps@.to_set() == self@.dom(),
            deps@.no_duplicates(),
    {
        keys_to_vec(&self.forward)
    }
}

} // verus!
