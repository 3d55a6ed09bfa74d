//! Bookkeeping of the live screencasts and the decisions taken on casting
//! events. The streams themselves (PipeWire, rendering, D-Bus) are driven
//! by the caller, which performs the actions these functions return.

use crate::anchor::set_to_vec;
use crate::screen_cast::ScreenCast;
use crate::strings::str_eq;
use crate::screencasting::{is_zoom_app_id, targeted_outputs, targeted_windows, ActiveCasts, CastTarget};
use std::collections::HashMap;
use vstd::prelude::*;

verus! {

broadcast use vstd::std_specs::hash::group_hash_axioms;

/// The bookkeeping part of a live cast.
#[derive(Debug)]
pub struct Cast {
    pub session_id: u64,
    pub stream_id: u64,
    pub target: CastTarget,
    /// Whether the target is switched by the portal's dynamic-cast window.
    pub dynamic_target: bool,
}

impl Cast {
    /// A copy of this cast record.
    pub fn duplicate(&self) -> (c: Cast)
        ensures
            c == *self,
    {
        Cast {
            session_id: self.session_id,
            stream_id: self.stream_id,
            target: self.target.duplicate(),
            dynamic_target: self.dynamic_target,
        }
    }
}

/// How the cursor is delivered in a cast stream.
#[derive(Debug, Clone, Copy, PartialEq, Eq, Structural)]
pub enum CursorMode {
    /// The cursor is not shown.
    Hidden,
    /// The cursor is drawn into the frames.
    Embedded,
    /// The cursor is sent as stream metadata.
    Metadata,
}

/// A dynamic-target cast waiting for its first target.
#[derive(Debug, Clone, Copy, PartialEq, Eq, Structural)]
pub struct PendingCast {
    pub session_id: u64,
    pub stream_id: u64,
    /// The cursor mode the cast was requested with.
    pub cursor_mode: CursorMode,
}

/// The screencasting state.
#[derive(Debug)]
pub struct Screencasting {
    pub casts: Vec<Cast>,
    /// Dynamic-target casts waiting for their first target to start.
    pub pending_dynamic_casts: Vec<PendingCast>,
    /// Which outputs and window ids are currently being cast.
    pub active_casts: ActiveCasts,
    /// Last known physical size of each cast window, by window id.
    pub window_cast_sizes: HashMap<u64, (i32, i32)>,
    /// The output each mapped window was last seen on, by window id.
    pub mapped_cast_output: HashMap<u64, String>,
    /// Window id of the portal picker's special "dynamic cast" window.
    pub dynamic_cast_id_for_portal: u64,
    /// Whether PipeWire is running.
    pub pipewire_running: bool,
    /// Cached result of the implicit-modifier render probe, once it ran.
    pub implicit_modifier_renderable: Option<bool>,
}

/// The targets of a list of casts.
pub open spec fn cast_targets(casts: Seq<Cast>) -> Seq<CastTarget> {
    casts.map_values(|c: Cast| c.target)
}

/// The snapshot matches the casts.
pub open spec fn snapshot_of(active: ActiveCasts, casts: Seq<Cast>) -> bool {
    &&& active.output_names() == targeted_outputs(cast_targets(casts))
    &&& active.windows@ == targeted_windows(cast_targets(casts))
}

/// Dropping the casts of session `sid` from `s`, walking the indices below
/// `i` from the top down: a cast of the session is replaced by the last
/// cast, which is then dropped. Gives the casts left and the streams of the
/// dropped casts, in the order they were dropped.
pub open spec fn swap_stop(s: Seq<Cast>, sid: u64, i: nat) -> (Seq<Cast>, Seq<u64>)
    decreases i,
{
    if i == 0 || i > s.len() {
        (s, Seq::empty())
    } else {
        let j = (i - 1) as nat;
        if s[j as int].session_id == sid {
            let r = swap_stop(s.update(j as int, s.last()).drop_last(), sid, j);
            (r.0, seq![s[j as int].stream_id] + r.1)
        } else {
            swap_stop(s, sid, j)
        }
    }
}

/// The casts left once session `sid` is stopped.
pub open spec fn stopped_casts(s: Seq<Cast>, sid: u64) -> Seq<Cast> {
    swap_stop(s, sid, s.len()).0
}

/// The streams disconnected when session `sid` is stopped, in order.
pub open spec fn stopped_streams(s: Seq<Cast>, sid: u64) -> Seq<u64> {
    swap_stop(s, sid, s.len()).1
}

/// The casts left once the sessions `ids` are stopped one after the other.
pub open spec fn stop_all(s: Seq<Cast>, ids: Seq<u64>) -> Seq<Cast>
    decreases ids.len(),
{
    if ids.len() == 0 {
        s
    } else {
        stopped_casts(stop_all(s, ids.drop_last()), ids.last())
    }
}

/// Stopping walks the indices from the top; when every index from `i` up
/// holds a cast of another session, what it leaves holds each cast of
/// another session as often as `s` does and none of the session, and the
/// streams it disconnects are those of the session's casts below `i`, from
/// the last to the first.
proof fn lemma_swap_stop(s: Seq<Cast>, sid: u64, i: nat)
    requires
        i <= s.len(),
        forall|k: int| i <= k < s.len() ==> (#[trigger] s[k]).session_id != sid,
    ensures
        forall|c: Cast| #[trigger] swap_stop(s, sid, i).0.to_multiset().count(c) == if c.session_id == sid {
            0
        } else {
            s.to_multiset().count(c)
        },
        swap_stop(s, sid, i).1 == session_streams(s.take(i as int), sid).reverse(),
    decreases i,
{
    broadcast use vstd::seq_lib::group_to_multiset_ensures;
    reveal_with_fuel(Seq::<Cast>::filter, 1);
    if i == 0 {
        assert forall|c: Cast| #[trigger] s.to_multiset().count(c) == if c.session_id == sid {
            0
        } else {
            s.to_multiset().count(c)
        } by {
            if c.session_id == sid && s.to_multiset().count(c) > 0 {
                assert(s.contains(c));
                let k = choose|k: int| 0 <= k < s.len() && s[k] == c;
                assert(s[k].session_id != sid);
            }
        }
        assert(s.take(0) =~= Seq::<Cast>::empty());
        assert(session_streams(s.take(0), sid) =~= Seq::<u64>::empty());
    } else {
        let j = (i - 1) as nat;
        let ji = j as int;
        let e = s[ji];
        let ec = |c: Cast| c.session_id == sid;
        let sc = |c: Cast| c.stream_id;
        assert(s.take(i as int).drop_last() == s.take(ji));
        assert(s.take(i as int).last() == e);
        if e.session_id == sid {
            let s2 = s.update(ji, s.last()).drop_last();
            assert forall|k: int| j <= k < s2.len() implies (#[trigger] s2[k]).session_id != sid by {
                if k == ji {
                    assert(s2[k] == s[s.len() - 1]);
                } else {
                    assert(s2[k] == s[k]);
                }
            }
            lemma_swap_stop(s2, sid, j);
            let u = s.update(ji, s.last());
            assert(u.to_multiset() == s.to_multiset().insert(s.last()).remove(e));
            assert(s2.push(s.last()) =~= u);
            assert(u.to_multiset() == s2.to_multiset().insert(s.last()));
            assert(s.contains(e));
            assert(s.to_multiset().count(e) > 0);
            assert forall|c: Cast| #[trigger] s2.to_multiset().count(c) == s.to_multiset().count(c) - (if c == e {
                1int
            } else {
                0int
            }) by {
                assert(u.to_multiset().count(c) == s2.to_multiset().count(c) + (if c == s.last() { 1int } else { 0int }));
                assert(s.to_multiset().insert(s.last()).count(c) == s.to_multiset().count(c) + (if c == s.last() { 1int } else { 0int }));
            }
            assert(swap_stop(s, sid, i).0 == swap_stop(s2, sid, j).0);
            assert(s2.take(ji) =~= s.take(ji));
            let f = s.take(ji).filter(ec);
            assert(s.take(i as int).filter(ec) == f.push(e));
            assert(f.push(e).map_values(sc) =~= f.map_values(sc).push(e.stream_id));
            assert(f.map_values(sc).push(e.stream_id).reverse() =~= seq![e.stream_id] + f.map_values(sc).reverse());
        } else {
            lemma_swap_stop(s, sid, j);
            assert(s.take(i as int).filter(ec) == s.take(ji).filter(ec));
        }
    }
}

/// With no cast of session `sid` in `s`, stopping it changes nothing.
proof fn lemma_swap_stop_absent(s: Seq<Cast>, sid: u64, i: nat)
    requires
        forall|k: int| 0 <= k < s.len() ==> (#[trigger] s[k]).session_id != sid,
    ensures
        swap_stop(s, sid, i) == (s, Seq::<u64>::empty()),
    decreases i,
{
    if i > 0 && i <= s.len() {
        lemma_swap_stop_absent(s, sid, (i - 1) as nat);
    }
}

/// What stopping a session leaves and disconnects, counted.
proof fn lemma_stop_counts(s: Seq<Cast>, sid: u64)
    ensures
        forall|c: Cast| #[trigger] stopped_casts(s, sid).to_multiset().count(c) == if c.session_id == sid {
            0
        } else {
            s.to_multiset().count(c)
        },
        stopped_streams(s, sid) == session_streams(s, sid).reverse(),
{
    lemma_swap_stop(s, sid, s.len());
    assert(s.take(s.len() as int) == s);
}

/// Law: the casts left after stopping some sessions, one after the other,
/// are each cast of the other sessions, as often as before.
pub proof fn law_stop_all_counts(s: Seq<Cast>, ids: Seq<u64>)
    ensures
        forall|c: Cast| #[trigger] stop_all(s, ids).to_multiset().count(c) == if ids.contains(c.session_id) {
            0
        } else {
            s.to_multiset().count(c)
        },
    decreases ids.len(),
{
    if ids.len() > 0 {
        law_stop_all_counts(s, ids.drop_last());
        lemma_stop_counts(stop_all(s, ids.drop_last()), ids.last());
        assert forall|c: Cast| #[trigger] stop_all(s, ids).to_multiset().count(c) == if ids.contains(c.session_id) {
            0
        } else {
            s.to_multiset().count(c)
        } by {
            assert(ids.contains(c.session_id) <==> (ids.drop_last().contains(c.session_id) || ids.last() == c.session_id)) by {
                if ids.contains(c.session_id) {
                    let k = choose|k: int| 0 <= k < ids.len() && ids[k] == c.session_id;
                    if k < ids.len() - 1 {
                        assert(ids.drop_last()[k] == c.session_id);
                    }
                }
                if ids.drop_last().contains(c.session_id) {
                    let k = choose|k: int| 0 <= k < ids.drop_last().len() && ids.drop_last()[k] == c.session_id;
                    assert(ids[k] == c.session_id);
                }
            }
        }
    } else {
        assert forall|c: Cast| !ids.contains(c.session_id) by {}
    }
}

/// Stopping the sessions `ids` leaves nothing when every cast belongs to one of them.
proof fn lemma_stop_all_empty(s: Seq<Cast>, ids: Seq<u64>)
    requires
        forall|k: int| 0 <= k < s.len() ==> ids.contains(#[trigger] s[k].session_id),
    ensures
        stop_all(s, ids).len() == 0,
{
    broadcast use vstd::seq_lib::group_to_multiset_ensures;
    law_stop_all_counts(s, ids);
    let r = stop_all(s, ids);
    if r.len() > 0 {
        assert(r.contains(r[0]));
        assert(r.to_multiset().count(r[0]) > 0);
        if !ids.contains(r[0].session_id) {
            assert(s.to_multiset().count(r[0]) > 0);
            assert(s.contains(r[0]));
        }
    }
}

/// The pending casts of another session than `session_id`.
pub open spec fn other_pending(pending: Seq<PendingCast>, session_id: u64) -> Seq<PendingCast> {
    pending.filter(|p: PendingCast| p.session_id != session_id)
}

/// The streams of the casts of session `session_id`, in order.
pub open spec fn session_streams(casts: Seq<Cast>, session_id: u64) -> Seq<u64> {
    casts.filter(|c: Cast| c.session_id == session_id).map_values(|c: Cast| c.stream_id)
}

/// Whether `x` is among `xs`.
fn u64_slice_contains(xs: &[u64], x: u64) -> (r: bool)
    ensures
        r == xs@.contains(x),
{
    let mut i: usize = 0;
    while i < xs.len()
        invariant
            i <= xs@.len(),
            forall|j: int| 0 <= j < i ==> xs@[j] != x,
        decreases xs@.len() - i,
    {
        if xs[i] == x {
            assert(xs@[i as int] == x);
            return true;
        }
        i = i + 1;
    }
    false
}

/// What stopping a session did: the streams that the caller disconnects.
#[derive(Debug)]
pub struct StoppedSession {
    pub session_id: u64,
    pub disconnected_streams: Vec<u64>,
}

impl Screencasting {
    /// The state before any cast: nothing cast or pending, no sizes or
    /// outputs recorded, PipeWire not started and the render probe not run.
    /// `dynamic_cast_id_for_portal` is the fresh window id that the portal
    /// picker offers for a dynamic cast.
    pub fn new(dynamic_cast_id_for_portal: u64) -> (s: Screencasting)
        ensures
            s.casts@.len() == 0,
            s.pending_dynamic_casts@.len() == 0,
            s.active_casts.outputs@.len() == 0,
            s.active_casts.windows@.is_empty(),
            snapshot_of(s.active_casts, s.casts@),
            s.window_cast_sizes@.is_empty(),
            s.mapped_cast_output@.is_empty(),
            s.dynamic_cast_id_for_portal == dynamic_cast_id_for_portal,
            !s.pipewire_running,
            s.implicit_modifier_renderable is None,
    {
        let s = Screencasting {
            casts: Vec::new(),
            pending_dynamic_casts: Vec::new(),
            active_casts: ActiveCasts::default(),
            window_cast_sizes: HashMap::new(),
            mapped_cast_output: HashMap::new(),
            dynamic_cast_id_for_portal,
            pipewire_running: false,
            implicit_modifier_renderable: None,
        };
        assert(s.active_casts.output_names() =~= targeted_outputs(cast_targets(s.casts@)));
        assert(s.active_casts.windows@ =~= targeted_windows(cast_targets(s.casts@)));
        s
    }

    /// Refresh the snapshot of active casts from the casts.
    pub fn recompute_active_casts(&mut self)
        ensures
            snapshot_of(final(self).active_casts, final(self).casts@),
            final(self).casts@ == old(self).casts@,
            final(self).pending_dynamic_casts@ == old(self).pending_dynamic_casts@,
            final(self).window_cast_sizes@ == old(self).window_cast_sizes@,
            final(self).mapped_cast_output@ == old(self).mapped_cast_output@,
            final(self).dynamic_cast_id_for_portal == old(self).dynamic_cast_id_for_portal,
            final(self).pipewire_running == old(self).pipewire_running,
            final(self).implicit_modifier_renderable == old(self).implicit_modifier_renderable,
    {
        let mut targets: Vec<CastTarget> = Vec::new();
        let mut i: usize = 0;
        while i < self.casts.len()
            invariant
                i <= self.casts@.len(),
                targets@ == cast_targets(self.casts@.take(i as int)),
            decreases self.casts@.len() - i,
        {
            targets.push(self.casts[i].target.duplicate());
            proof {
                assert(cast_targets(self.casts@.take(i + 1)) =~= cast_targets(self.casts@.take(i as int)).push(
                    self.casts@[i as int].target,
                ));
            }
            i = i + 1;
        }
        assert(self.casts@.take(self.casts@.len() as int) == self.casts@);
        self.active_casts.recompute_from_targets(targets.as_slice());
    }

    /// Stop the session `session_id`: its pending casts are dropped
    /// (keeping the order of the others), and its casts are dropped walking
    /// the casts from the last to the first, each replaced by the last cast
    /// (`stopped_casts`); the snapshot is refreshed. Returns the streams of
    /// the dropped casts, in the order they were dropped.
    pub fn stop_cast(&mut self, session_id: u64) -> (stopped: StoppedSession)
        ensures
            final(self).casts@ == stopped_casts(old(self).casts@, session_id),
            final(self).pending_dynamic_casts@ == other_pending(old(self).pending_dynamic_casts@, session_id),
            snapshot_of(final(self).active_casts, final(self).casts@),
            stopped.session_id == session_id,
            stopped.disconnected_streams@ == stopped_streams(old(self).casts@, session_id),
            final(self).window_cast_sizes@ == old(self).window_cast_sizes@,
            final(self).mapped_cast_output@ == old(self).mapped_cast_output@,
            final(self).dynamic_cast_id_for_portal == old(self).dynamic_cast_id_for_portal,
            final(self).pipewire_running == old(self).pipewire_running,
            final(self).implicit_modifier_renderable == old(self).implicit_modifier_renderable,
    {
        let ghost old_casts = self.casts@;
        let ghost old_pending = self.pending_dynamic_casts@;
        let mut kept_pending: Vec<PendingCast> = Vec::new();
        let mut i: usize = 0;
        while i < self.pending_dynamic_casts.len()
            invariant
                i <= old_pending.len(),
                self.pending_dynamic_casts@ == old_pending,
                self.casts@ == old_casts,
                kept_pending@ == other_pending(old_pending.take(i as int), session_id),
            decreases old_pending.len() - i,
        {
            let p = self.pending_dynamic_casts[i];
            proof {
                reveal_with_fuel(Seq::<PendingCast>::filter, 1);
                assert(old_pending.take(i + 1).drop_last() == old_pending.take(i as int));
            }
            if p.session_id != session_id {
                kept_pending.push(p);
            }
            i = i + 1;
        }
        assert(old_pending.take(old_pending.len() as int) == old_pending);
        self.pending_dynamic_casts = kept_pending;
        let ghost total = swap_stop(old_casts, session_id, old_casts.len());
        let mut streams: Vec<u64> = Vec::new();
        let mut i: usize = self.casts.len();
        while i > 0
            invariant
                i <= self.casts@.len(),
                swap_stop(self.casts@, session_id, i as nat).0 == total.0,
                streams@ + swap_stop(self.casts@, session_id, i as nat).1 == total.1,
                total == swap_stop(old_casts, session_id, old_casts.len()),
                self.pending_dynamic_casts@ == other_pending(old_pending, session_id),
                self.window_cast_sizes@ == old(self).window_cast_sizes@,
                self.mapped_cast_output@ == old(self).mapped_cast_output@,
                self.dynamic_cast_id_for_portal == old(self).dynamic_cast_id_for_portal,
                self.pipewire_running == old(self).pipewire_running,
                self.implicit_modifier_renderable == old(self).implicit_modifier_renderable,
            decreases i,
        {
            i = i - 1;
            if self.casts[i].session_id == session_id {
                let ghost before = self.casts@;
                let ghost rest = swap_stop(before, session_id, (i + 1) as nat).1;
                let c = self.casts.swap_remove(i);
                proof {
                    assert(rest == seq![c.stream_id] + swap_stop(self.casts@, session_id, i as nat).1);
                    assert(streams@.push(c.stream_id) + swap_stop(self.casts@, session_id, i as nat).1 =~= streams@ + rest);
                }
                streams.push(c.stream_id);
            }
        }
        proof {
            assert(swap_stop(self.casts@, session_id, 0).0 == self.casts@);
            assert(streams@ + Seq::<u64>::empty() =~= streams@);
        }
        self.recompute_active_casts();
        StoppedSession { session_id, disconnected_streams: streams }
    }
}

/// Filtering twice is filtering by both predicates.
pub proof fn lemma_filter_filter<A>(s: Seq<A>, p: spec_fn(A) -> bool, q: spec_fn(A) -> bool)
    ensures
        s.filter(p).filter(q) == s.filter(|x: A| p(x) && q(x)),
    decreases s.len(),
{
    reveal(Seq::filter);
    if s.len() > 0 {
        lemma_filter_filter(s.drop_last(), p, q);
        let fp = s.drop_last().filter(p);
        if p(s.last()) {
            assert(fp.push(s.last()).drop_last() =~= fp);
        }
    }
}

/// Filtering by a predicate that holds of no element leaves nothing.
pub proof fn lemma_filter_none<A>(s: Seq<A>, p: spec_fn(A) -> bool)
    requires
        forall|i: int| 0 <= i < s.len() ==> !p(#[trigger] s[i]),
    ensures
        s.filter(p) == Seq::<A>::empty(),
    decreases s.len(),
{
    reveal(Seq::filter);
    if s.len() > 0 {
        lemma_filter_none(s.drop_last(), p);
        assert(!p(s[s.len() - 1]));
    }
}

/// Filtering by a predicate that holds of every element keeps everything.
pub proof fn lemma_filter_all<A>(s: Seq<A>, p: spec_fn(A) -> bool)
    requires
        forall|i: int| 0 <= i < s.len() ==> p(#[trigger] s[i]),
    ensures
        s.filter(p) == s,
    decreases s.len(),
{
    reveal(Seq::filter);
    if s.len() > 0 {
        lemma_filter_all(s.drop_last(), p);
        assert(p(s[s.len() - 1]));
        assert(s.drop_last().push(s.last()) =~= s);
    }
}

/// Messages from the PipeWire side.
#[derive(Debug, Clone, Copy, PartialEq, Eq, Structural)]
pub enum PwToNiri {
    StopCast { session_id: u64 },
    Redraw { stream_id: u64 },
    FatalError,
}

/// What the caller does after a PipeWire message.
#[derive(Debug)]
pub enum PwAction {
    /// Disconnect these streams and tell the D-Bus sessions they stopped;
    /// `shutdown_pipewire` says whether PipeWire itself is to be removed.
    Stop { sessions: Vec<StoppedSession>, shutdown_pipewire: bool },
    /// Redraw the cast of this stream.
    Redraw { stream_id: u64 },
}

/// A window as the casting logic sees it.
#[derive(Debug)]
pub struct WindowState {
    pub id: u64,
    pub app_id: Option<String>,
    /// The output the window is on, if any.
    pub output: Option<String>,
    /// Physical size of the window with its popups, on its output.
    pub cast_size: (i32, i32),
    pub is_window_cast_target: bool,
    pub block_out_for_screencast_auto: bool,
}

impl WindowState {
    /// A copy of this window state.
    pub fn duplicate(&self) -> (w: WindowState)
        ensures
            w == *self,
    {
        WindowState {
            id: self.id,
            app_id: match &self.app_id {
                Some(a) => Some(a.clone()),
                None => None,
            },
            output: match &self.output {
                Some(o) => Some(o.clone()),
                None => None,
            },
            cast_size: self.cast_size,
            is_window_cast_target: self.is_window_cast_target,
            block_out_for_screencast_auto: self.block_out_for_screencast_auto,
        }
    }
}

/// The compositor state that casting decisions read and update.
#[derive(Debug)]
pub struct Niri {
    pub casting: Screencasting,
    pub windows: Vec<WindowState>,
    /// Names of the connected outputs.
    pub outputs: Vec<String>,
    pub screen_cast_config: ScreenCast,
    pub is_locked: bool,
}

/// The top-level compositor state.
#[derive(Debug)]
pub struct State {
    pub niri: Niri,
}

/// The session ids of the pending casts and of the casts.
pub open spec fn all_sessions(pending: Seq<PendingCast>, casts: Seq<Cast>) -> Set<u64> {
    Set::new(
        |id: u64|
            (exists|i: int| 0 <= i < pending.len() && #[trigger] pending[i].session_id == id) || (exists|i: int|
                0 <= i < casts.len() && #[trigger] casts[i].session_id == id),
    )
}

fn push_unique(ids: &mut Vec<u64>, id: u64)
    requires
        old(ids)@.no_duplicates(),
    ensures
        final(ids)@.no_duplicates(),
        final(ids)@.to_set() == old(ids)@.to_set().insert(id),
{
    let mut k: usize = 0;
    while k < ids.len()
        invariant
            k <= ids@.len(),
            ids@ == old(ids)@,
            ids@.no_duplicates(),
            forall|j: int| 0 <= j < k ==> ids@[j] != id,
        decreases ids@.len() - k,
    {
        if ids[k] == id {
            proof {
                assert(ids@.to_set().contains(id));
                assert(ids@.to_set().insert(id) =~= ids@.to_set());
            }
            return;
        }
        k = k + 1;
    }
    let ghost before = ids@;
    ids.push(id);
    proof {
        before.lemma_push_to_set_commute(id);
    }
}

/// The distinct session ids of the pending casts and the casts.
fn session_ids(pending: &Vec<PendingCast>, casts: &Vec<Cast>) -> (ids: Vec<u64>)
    ensures
        ids@.no_duplicates(),
        ids@.to_set() == all_sessions(pending@, casts@),
{
    let mut ids: Vec<u64> = Vec::new();
    let mut i: usize = 0;
    while i < pending.len()
        invariant
            i <= pending@.len(),
            ids@.no_duplicates(),
            ids@.to_set() == all_sessions(pending@.take(i as int), Seq::<Cast>::empty()),
        decreases pending@.len() - i,
    {
        push_unique(&mut ids, pending[i].session_id);
        proof {
            let a = all_sessions(pending@.take(i + 1), Seq::<Cast>::empty());
            let b = all_sessions(pending@.take(i as int), Seq::<Cast>::empty());
            assert forall|x: u64| a.contains(x) <==> b.insert(pending@[i as int].session_id).contains(x) by {
                if a.contains(x) && x != pending@[i as int].session_id {
                    let j = choose|j: int| 0 <= j < i + 1 && #[trigger] pending@.take(i + 1)[j].session_id == x;
                    assert(pending@.take(i as int)[j].session_id == x);
                }
                if b.contains(x) {
                    let j = choose|j: int| 0 <= j < i && #[trigger] pending@.take(i as int)[j].session_id == x;
                    assert(pending@.take(i + 1)[j].session_id == x);
                }
                if x == pending@[i as int].session_id {
                    assert(pending@.take(i + 1)[i as int].session_id == x);
                }
            }
            assert(a =~= b.insert(pending@[i as int].session_id));
        }
        i = i + 1;
    }
    proof {
        assert(pending@.take(i as int) == pending@);
        assert(all_sessions(pending@, casts@.take(0)) =~= all_sessions(pending@, Seq::<Cast>::empty()));
    }
    let mut k: usize = 0;
    while k < casts.len()
        invariant
            k <= casts@.len(),
            i == pending@.len(),
            ids@.no_duplicates(),
            ids@.to_set() == all_sessions(pending@, casts@.take(k as int)),
        decreases casts@.len() - k,
    {
        push_unique(&mut ids, casts[k].session_id);
        proof {
            let a = all_sessions(pending@, casts@.take(k + 1));
            let b = all_sessions(pending@, casts@.take(k as int));
            assert forall|x: u64| a.contains(x) <==> b.insert(casts@[k as int].session_id).contains(x) by {
                if a.contains(x) && x != casts@[k as int].session_id && !(exists|j: int| 0 <= j < pending@.len() && #[trigger] pending@[j].session_id == x) {
                    let j = choose|j: int| 0 <= j < k + 1 && #[trigger] casts@.take(k + 1)[j].session_id == x;
                    assert(casts@.take(k as int)[j].session_id == x);
                }
                if b.contains(x) && !(exists|j: int| 0 <= j < pending@.len() && #[trigger] pending@[j].session_id == x) {
                    let j = choose|j: int| 0 <= j < k && #[trigger] casts@.take(k as int)[j].session_id == x;
                    assert(casts@.take(k + 1)[j].session_id == x);
                }
                if x == casts@[k as int].session_id {
                    assert(casts@.take(k + 1)[k as int].session_id == x);
                }
            }
            assert(a =~= b.insert(casts@[k as int].session_id));
        }
        k = k + 1;
    }
    proof {
        assert(casts@.take(casts@.len() as int) == casts@);
    }
    ids
}

impl Screencasting {
    /// Stops every session in `ids`, in order, as `stop_cast` does; a
    /// session listed again is stopped again, with nothing left to
    /// disconnect.
    pub fn stop_sessions(&mut self, ids: &Vec<u64>) -> (stopped: Vec<StoppedSession>)
        ensures
            final(self).casts@ == stop_all(old(self).casts@, ids@),
            final(self).pending_dynamic_casts@ == old(self).pending_dynamic_casts@.filter(
                |p: PendingCast| !ids@.contains(p.session_id),
            ),
            snapshot_of(final(self).active_casts, final(self).casts@) || ids@.len() == 0,
            stopped@.len() == ids@.len(),
            forall|k: int| 0 <= k < ids@.len() ==> (#[trigger] stopped@[k]).session_id == ids@[k],
            forall|k: int| 0 <= k < ids@.len() ==> (#[trigger] stopped@[k]).disconnected_streams@ == stopped_streams(
                stop_all(old(self).casts@, ids@.take(k)),
                ids@[k],
            ),
            final(self).window_cast_sizes@ == old(self).window_cast_sizes@,
            final(self).mapped_cast_output@ == old(self).mapped_cast_output@,
            final(self).dynamic_cast_id_for_portal == old(self).dynamic_cast_id_for_portal,
            final(self).pipewire_running == old(self).pipewire_running,
            final(self).implicit_modifier_renderable == old(self).implicit_modifier_renderable,
    {
        let ghost c0 = self.casts@;
        let ghost p0 = self.pending_dynamic_casts@;
        let mut stopped: Vec<StoppedSession> = Vec::new();
        let mut k: usize = 0;
        proof {
            lemma_filter_all(p0, |p: PendingCast| !ids@.take(0).contains(p.session_id));
            assert(ids@.take(0) =~= Seq::<u64>::empty());
        }
        while k < ids.len()
            invariant
                k <= ids@.len(),
                c0 == old(self).casts@,
                self.casts@ == stop_all(c0, ids@.take(k as int)),
                self.pending_dynamic_casts@ == p0.filter(|p: PendingCast| !ids@.take(k as int).contains(p.session_id)),
                snapshot_of(self.active_casts, self.casts@) || k == 0,
                stopped@.len() == k,
                forall|j: int| 0 <= j < k ==> (#[trigger] stopped@[j]).session_id == ids@[j],
                forall|j: int| 0 <= j < k ==> (#[trigger] stopped@[j]).disconnected_streams@ == stopped_streams(
                    stop_all(c0, ids@.take(j)),
                    ids@[j],
                ),
                self.window_cast_sizes@ == old(self).window_cast_sizes@,
                self.mapped_cast_output@ == old(self).mapped_cast_output@,
                self.dynamic_cast_id_for_portal == old(self).dynamic_cast_id_for_portal,
                self.pipewire_running == old(self).pipewire_running,
                self.implicit_modifier_renderable == old(self).implicit_modifier_renderable,
            decreases ids@.len() - k,
        {
            let id = ids[k];
            let ghost pb = self.pending_dynamic_casts@;
            let st = self.stop_cast(id);
            stopped.push(st);
            proof {
                let prev = ids@.take(k as int);
                let next = ids@.take(k + 1);
                assert(next == prev.push(id));
                assert(next.drop_last() == prev);
                lemma_filter_filter(p0, |p: PendingCast| !prev.contains(p.session_id), |p: PendingCast| p.session_id != id);
                assert forall|x: u64| (!prev.contains(x) && x != id) == !next.contains(x) by {
                    if next.contains(x) && x != id {
                        let j = choose|j: int| 0 <= j < next.len() && next[j] == x;
                        assert(prev[j] == x);
                    }
                    if prev.contains(x) {
                        let j = choose|j: int| 0 <= j < prev.len() && prev[j] == x;
                        assert(next[j] == x);
                    }
                    if x == id {
                        assert(next[k as int] == x);
                    }
                }
                let pp = |p: PendingCast| !prev.contains(p.session_id);
                let qp = |p: PendingCast| p.session_id != id;
                let np = |p: PendingCast| !next.contains(p.session_id);
                assert(pb == p0.filter(pp));
                assert(self.pending_dynamic_casts@ == pb.filter(qp));
                assert((|x: PendingCast| pp(x) && qp(x)) =~= np);
                assert(self.pending_dynamic_casts@ == p0.filter(np));
                assert(stopped@[k as int] == st);
            }
            k = k + 1;
        }
        assert(ids@.take(ids@.len() as int) == ids@);
        stopped
    }
}

impl State {
    /// Handles a message from PipeWire: a stop request stops that session;
    /// a redraw request is handed back; a fatal error, when PipeWire is
    /// running, stops every session with a pending or live cast and shuts
    /// PipeWire down.
    pub fn on_pw_msg(&mut self, msg: PwToNiri) -> (action: PwAction)
        ensures
            match msg {
                PwToNiri::StopCast { session_id } => {
                    &&& final(self).niri.casting.casts@ == stopped_casts(old(self).niri.casting.casts@, session_id)
                    &&& final(self).niri.casting.pending_dynamic_casts@ == other_pending(
                        old(self).niri.casting.pending_dynamic_casts@,
                        session_id,
                    )
                    &&& action matches PwAction::Stop { sessions, shutdown_pipewire } && !shutdown_pipewire
                        && sessions@.len() == 1 && sessions@[0].session_id == session_id
                        && sessions@[0].disconnected_streams@ == stopped_streams(old(self).niri.casting.casts@, session_id)
                },
                PwToNiri::Redraw { stream_id } => {
                    &&& action == (PwAction::Redraw { stream_id })
                    &&& *final(self) == *old(self)
                },
                PwToNiri::FatalError => if old(self).niri.casting.pipewire_running {
                    &&& final(self).niri.casting.casts@.len() == 0
                    &&& final(self).niri.casting.pending_dynamic_casts@.len() == 0
                    &&& !final(self).niri.casting.pipewire_running
                    &&& action matches PwAction::Stop { sessions, shutdown_pipewire } && shutdown_pipewire && ({
                        let ids = sessions@.map_values(|s: StoppedSession| s.session_id);
                        &&& ids.no_duplicates()
                        &&& ids.to_set() == all_sessions(
                            old(self).niri.casting.pending_dynamic_casts@,
                            old(self).niri.casting.casts@,
                        )
                        &&& forall|k: int| 0 <= k < sessions@.len() ==> (#[trigger] sessions@[k]).disconnected_streams@
                            == stopped_streams(stop_all(old(self).niri.casting.casts@, ids.take(k)), ids[k])
                    })
                } else {
                    &&& *final(self) == *old(self)
                    &&& action matches PwAction::Stop { sessions, shutdown_pipewire } && !shutdown_pipewire
                        && sessions@.len() == 0
                },
            },
    {
        match msg {
            PwToNiri::StopCast { session_id } => {
                let st = self.niri.casting.stop_cast(session_id);
                let mut sessions: Vec<StoppedSession> = Vec::new();
                sessions.push(st);
                PwAction::Stop { sessions, shutdown_pipewire: false }
            },
            PwToNiri::Redraw { stream_id } => PwAction::Redraw { stream_id },
            PwToNiri::FatalError => {
                if !self.niri.casting.pipewire_running {
                    return PwAction::Stop { sessions: Vec::new(), shutdown_pipewire: false };
                }
                let ghost c0 = self.niri.casting.casts@;
                let ghost p0 = self.niri.casting.pending_dynamic_casts@;
                let ids = session_ids(&self.niri.casting.pending_dynamic_casts, &self.niri.casting.casts);
                let sessions = self.niri.casting.stop_sessions(&ids);
                self.niri.casting.pipewire_running = false;
                proof {
                    assert forall|k: int| 0 <= k < c0.len() implies ids@.contains(#[trigger] c0[k].session_id) by {
                        assert(all_sessions(p0, c0).contains(c0[k].session_id));
                        assert(ids@.to_set().contains(c0[k].session_id));
                    }
                    lemma_stop_all_empty(c0, ids@);
                    assert forall|i: int| 0 <= i < p0.len() implies !(|p: PendingCast| !ids@.contains(p.session_id))(
                        #[trigger] p0[i],
                    ) by {
                        assert(all_sessions(p0, c0).contains(p0[i].session_id));
                        assert(ids@.to_set().contains(p0[i].session_id));
                    }
                    lemma_filter_none(p0, |p: PendingCast| !ids@.contains(p.session_id));
                    assert(sessions@.map_values(|s: StoppedSession| s.session_id) =~= ids@);
                }
                PwAction::Stop { sessions, shutdown_pipewire: true }
            },
        }
    }
}

/// Some cast targets the window with id `id`.
pub open spec fn is_cast_target(casts: Seq<Cast>, id: u64) -> bool {
    exists|k: int| 0 <= k < casts.len() && (#[trigger] casts[k]).target == (CastTarget::Window { id })
}

/// The app id is Zoom's.
pub open spec fn is_zoom(app_id: Option<String>) -> bool {
    app_id matches Some(a) && (a@ == "zoom"@ || a@ == "Zoom"@)
}

/// Nothing is being cast.
pub open spec fn nothing_cast(active: ActiveCasts) -> bool {
    active.outputs@.len() == 0 && active.windows@.is_empty()
}

/// Whether a window is to be blocked out from casts by the Zoom auto-hide
/// policy: the policy is enabled, something is being cast, the window is
/// not itself cast, and it is a Zoom window.
pub open spec fn auto_hidden(config: ScreenCast, active: ActiveCasts, w: WindowState) -> bool {
    &&& config.hide_zoom_non_shared_windows
    &&& !nothing_cast(active)
    &&& !active.windows@.contains(w.id)
    &&& is_zoom(w.app_id)
}

impl Niri {
    /// Window ids are distinct.
    pub open spec fn wf(&self) -> bool {
        forall|i: int, j: int|
            0 <= i < self.windows@.len() && 0 <= j < self.windows@.len() && i != j ==> (#[trigger] self.windows@[i]).id
                != (#[trigger] self.windows@[j]).id
    }

    /// Whether some cast targets the window with id `id`.
    fn casts_window(&self, id: u64) -> (r: bool)
        ensures
            r == is_cast_target(self.casting.casts@, id),
    {
        let mut k: usize = 0;
        while k < self.casting.casts.len()
            invariant
                k <= self.casting.casts@.len(),
                forall|j: int| 0 <= j < k ==> (#[trigger] self.casting.casts@[j]).target != (CastTarget::Window { id }),
            decreases self.casting.casts@.len() - k,
        {
            if let CastTarget::Window { id: w } = &self.casting.casts[k].target {
                if *w == id {
                    assert(self.casting.casts@[k as int].target == (CastTarget::Window { id }));
                    return true;
                }
            }
            k = k + 1;
        }
        false
    }

    /// Marks every window that some cast targets (whether the cast is
    /// active or not) as a window-cast target, and unmarks the others.
    pub fn refresh_mapped_cast_window_rules(&mut self)
        ensures
            final(self).windows@.len() == old(self).windows@.len(),
            forall|i: int| 0 <= i < old(self).windows@.len() ==> #[trigger] final(self).windows@[i] == (WindowState {
                is_window_cast_target: is_cast_target(old(self).casting.casts@, old(self).windows@[i].id),
                ..old(self).windows@[i]
            }),
            final(self).casting == old(self).casting,
            final(self).outputs == old(self).outputs,
            final(self).screen_cast_config == old(self).screen_cast_config,
            final(self).is_locked == old(self).is_locked,
    {
        let ghost w0 = self.windows@;
        let mut i: usize = 0;
        while i < self.windows.len()
            invariant
                i <= w0.len(),
                self.windows@.len() == w0.len(),
                self.casting == old(self).casting,
                self.outputs == old(self).outputs,
                self.screen_cast_config == old(self).screen_cast_config,
                self.is_locked == old(self).is_locked,
                w0 == old(self).windows@,
                forall|j: int| 0 <= j < i ==> #[trigger] self.windows@[j] == (WindowState {
                    is_window_cast_target: is_cast_target(self.casting.casts@, w0[j].id),
                    ..w0[j]
                }),
                forall|j: int| i <= j < w0.len() ==> #[trigger] self.windows@[j] == w0[j],
            decreases w0.len() - i,
        {
            let value = self.casts_window(self.windows[i].id);
            let mut w = self.windows[i].duplicate();
            w.is_window_cast_target = value;
            self.windows.set(i, w);
            i = i + 1;
        }
    }

    /// Applies the Zoom auto-hide policy to every window (see
    /// `auto_hidden`). Returns whether any window's flag changed, in which
    /// case the caller redraws the casts.
    pub fn refresh_screencast_auto_hide(&mut self) -> (changed: bool)
        ensures
            final(self).windows@.len() == old(self).windows@.len(),
            forall|i: int| 0 <= i < old(self).windows@.len() ==> #[trigger] final(self).windows@[i] == (WindowState {
                block_out_for_screencast_auto: auto_hidden(
                    old(self).screen_cast_config,
                    old(self).casting.active_casts,
                    old(self).windows@[i],
                ),
                ..old(self).windows@[i]
            }),
            changed == exists|i: int|
                0 <= i < old(self).windows@.len() && (#[trigger] old(self).windows@[i]).block_out_for_screencast_auto
                    != auto_hidden(old(self).screen_cast_config, old(self).casting.active_casts, old(self).windows@[i]),
            forall|i: int| 0 <= i < old(self).windows@.len() ==> (#[trigger] final(self).windows@[i]).block_out_for_screencast_auto
                == (old(self).screen_cast_config.hide_zoom_non_shared_windows && (old(self).casting.active_casts.outputs@.len()
                > 0 || !old(self).casting.active_casts.windows@.is_empty()) && !old(self).casting.active_casts.windows@.contains(
                old(self).windows@[i].id,
            ) && is_zoom(old(self).windows@[i].app_id)),
            final(self).casting == old(self).casting,
            final(self).outputs == old(self).outputs,
            final(self).screen_cast_config == old(self).screen_cast_config,
            final(self).is_locked == old(self).is_locked,
    {
        let enabled = self.screen_cast_config.hide_zoom_non_shared_windows;
        let cast_active = !self.casting.active_casts.is_empty();
        let ghost w0 = self.windows@;
        let mut changed = false;
        let mut i: usize = 0;
        while i < self.windows.len()
            invariant
                i <= w0.len(),
                self.windows@.len() == w0.len(),
                self.casting == old(self).casting,
                self.outputs == old(self).outputs,
                self.screen_cast_config == old(self).screen_cast_config,
                self.is_locked == old(self).is_locked,
                w0 == old(self).windows@,
                enabled == self.screen_cast_config.hide_zoom_non_shared_windows,
                cast_active == !nothing_cast(self.casting.active_casts),
                forall|j: int| 0 <= j < i ==> #[trigger] self.windows@[j] == (WindowState {
                    block_out_for_screencast_auto: auto_hidden(self.screen_cast_config, self.casting.active_casts, w0[j]),
                    ..w0[j]
                }),
                forall|j: int| i <= j < w0.len() ==> #[trigger] self.windows@[j] == w0[j],
                changed == exists|j: int|
                    0 <= j < i && (#[trigger] w0[j]).block_out_for_screencast_auto != auto_hidden(
                        self.screen_cast_config,
                        self.casting.active_casts,
                        w0[j],
                    ),
            decreases w0.len() - i,
        {
            let hide = if !enabled || !cast_active {
                false
            } else if self.casting.active_casts.contains_window(self.windows[i].id) {
                false
            } else {
                match &self.windows[i].app_id {
                    Some(a) => is_zoom_app_id(a.as_str()),
                    None => false,
                }
            };
            let mut w = self.windows[i].duplicate();
            if w.block_out_for_screencast_auto != hide {
                changed = true;
            }
            w.block_out_for_screencast_auto = hide;
            self.windows.set(i, w);
            i = i + 1;
        }
        changed
    }
}

/// The size a cast of window `id` would have: its size, when the window is
/// mapped and its cast output is known.
pub open spec fn cast_size_of(n: Niri, id: u64) -> Option<(i32, i32)> {
    if n.casting.mapped_cast_output@.contains_key(id) && exists|i: int|
        0 <= i < n.windows@.len() && (#[trigger] n.windows@[i]).id == id {
        let i = choose|i: int| 0 <= i < n.windows@.len() && (#[trigger] n.windows@[i]).id == id;
        Some(n.windows@[i].cast_size)
    } else {
        None
    }
}

/// A window's output entry is kept or set: it is on an output now, or it
/// had one.
pub open spec fn keeps_output_entry(w: WindowState, old: Map<u64, String>) -> bool {
    w.output is Some || old.contains_key(w.id)
}

/// The output entry of a window after a refresh: its current output, else
/// the one it had.
pub open spec fn output_entry(w: WindowState, old: Map<u64, String>) -> String {
    match w.output {
        Some(o) => o,
        None => old[w.id],
    }
}

/// Windows, in order, whose output differs from the one recorded, with
/// their new output.
pub open spec fn output_changes(ws: Seq<WindowState>, old: Map<u64, String>) -> Seq<(u64, Seq<char>)>
    decreases ws.len(),
{
    if ws.len() == 0 {
        Seq::empty()
    } else {
        let rest = output_changes(ws.drop_last(), old);
        let w = ws.last();
        match w.output {
            Some(o) => if old.contains_key(w.id) && old[w.id]@ != o@ {
                rest.push((w.id, o@))
            } else {
                rest
            },
            None => rest,
        }
    }
}

impl Niri {
    /// Index of the window with id `id`.
    fn find_window(&self, id: u64) -> (r: Option<usize>)
        ensures
            match r {
                Some(i) => i < self.windows@.len() && self.windows@[i as int].id == id,
                None => forall|i: int| 0 <= i < self.windows@.len() ==> (#[trigger] self.windows@[i]).id != id,
            },
    {
        let mut k: usize = 0;
        while k < self.windows.len()
            invariant
                k <= self.windows@.len(),
                forall|i: int| 0 <= i < k ==> (#[trigger] self.windows@[i]).id != id,
            decreases self.windows@.len() - k,
        {
            if self.windows[k].id == id {
                return Some(k);
            }
            k = k + 1;
        }
        None
    }

    /// The size a cast of window `id` would have; see `cast_size_of`.
    pub fn cast_params_for_window(&self, id: u64) -> (r: Option<(i32, i32)>)
        requires
            self.wf(),
        ensures
            r == cast_size_of(*self, id),
    {
        match self.find_window(id) {
            Some(i) => {
                if self.casting.mapped_cast_output.contains_key(&id) {
                    proof {
                        let j = choose|j: int| 0 <= j < self.windows@.len() && (#[trigger] self.windows@[j]).id == id;
                        assert(self.windows@[i as int].id == id);
                        if j != i {
                            assert(self.windows@[j].id != self.windows@[i as int].id);
                        }
                    }
                    Some(self.windows[i].cast_size)
                } else {
                    None
                }
            },
            None => None,
        }
    }

    /// Records the size of every cast window whose cast parameters are
    /// known; entries of other windows are dropped.
    pub fn refresh_window_cast_sizes(&mut self)
        requires
            old(self).wf(),
        ensures
            forall|id: u64| #[trigger] final(self).casting.window_cast_sizes@.contains_key(id) <==> (
                old(self).casting.active_casts.windows@.contains(id) && cast_size_of(*old(self), id) is Some),
            forall|id: u64| #[trigger] final(self).casting.window_cast_sizes@.contains_key(id)
                ==> Some(final(self).casting.window_cast_sizes@[id]) == cast_size_of(*old(self), id),
            final(self).windows == old(self).windows,
            final(self).casting.casts == old(self).casting.casts,
            final(self).casting.pending_dynamic_casts == old(self).casting.pending_dynamic_casts,
            final(self).casting.active_casts == old(self).casting.active_casts,
            final(self).casting.mapped_cast_output == old(self).casting.mapped_cast_output,
            final(self).outputs == old(self).outputs,
            final(self).screen_cast_config == old(self).screen_cast_config,
            final(self).is_locked == old(self).is_locked,
    {
        let ids = set_to_vec(&self.casting.active_casts.windows);
        let mut sizes: HashMap<u64, (i32, i32)> = HashMap::new();
        let mut k: usize = 0;
        while k < ids.len()
            invariant
                k <= ids@.len(),
                self.wf(),
                ids@.to_set() == self.casting.active_casts.windows@,
                forall|id: u64| #[trigger] sizes@.contains_key(id) <==> (ids@.take(k as int).to_set().contains(id)
                    && cast_size_of(*self, id) is Some),
                forall|id: u64| #[trigger] sizes@.contains_key(id) ==> Some(sizes@[id]) == cast_size_of(*self, id),
            decreases ids@.len() - k,
        {
            let id = ids[k];
            proof {
                assert(ids@.take(k + 1) == ids@.take(k as int).push(id));
                ids@.take(k as int).lemma_push_to_set_commute(id);
            }
            match self.cast_params_for_window(id) {
                Some(size) => {
                    sizes.insert(id, size);
                },
                None => {},
            }
            k = k + 1;
        }
        proof {
            assert(ids@.take(ids@.len() as int) == ids@);
        }
        self.casting.window_cast_sizes = sizes;
    }

    /// Records the output each window is on: a window on an output gets
    /// that output; a window on no output keeps the entry it had; entries
    /// of windows that are gone are dropped. Returns the windows whose
    /// output changed, with the new output, in window order; the caller
    /// adjusts the frame rate of the casts of those windows.
    pub fn refresh_mapped_cast_outputs(&mut self) -> (changed: Vec<(u64, String)>)
        requires
            old(self).wf(),
        ensures
            forall|id: u64| #[trigger] final(self).casting.mapped_cast_output@.contains_key(id) <==> exists|j: int|
                0 <= j < old(self).windows@.len() && (#[trigger] old(self).windows@[j]).id == id && keeps_output_entry(
                    old(self).windows@[j],
                    old(self).casting.mapped_cast_output@,
                ),
            forall|j: int| 0 <= j < old(self).windows@.len() && keeps_output_entry(
                #[trigger] old(self).windows@[j],
                old(self).casting.mapped_cast_output@,
            ) ==> final(self).casting.mapped_cast_output@[old(self).windows@[j].id] == output_entry(
                old(self).windows@[j],
                old(self).casting.mapped_cast_output@,
            ),
            changed@.map_values(|c: (u64, String)| (c.0, c.1@)) == output_changes(
                old(self).windows@,
                old(self).casting.mapped_cast_output@,
            ),
            final(self).windows == old(self).windows,
            final(self).casting.casts == old(self).casting.casts,
            final(self).casting.pending_dynamic_casts == old(self).casting.pending_dynamic_casts,
            final(self).casting.active_casts == old(self).casting.active_casts,
            final(self).casting.window_cast_sizes == old(self).casting.window_cast_sizes,
            final(self).outputs == old(self).outputs,
            final(self).screen_cast_config == old(self).screen_cast_config,
            final(self).is_locked == old(self).is_locked,
    {
        let ghost old_map = self.casting.mapped_cast_output@;
        let ghost ws = self.windows@;
        let mut m: HashMap<u64, String> = HashMap::new();
        let mut changed: Vec<(u64, String)> = Vec::new();
        let mut i: usize = 0;
        while i < self.windows.len()
            invariant
                i <= ws.len(),
                ws == self.windows@,
                old_map == self.casting.mapped_cast_output@,
                self.wf(),
                forall|id: u64| #[trigger] m@.contains_key(id) <==> exists|j: int|
                    0 <= j < i && (#[trigger] ws[j]).id == id && keeps_output_entry(ws[j], old_map),
                forall|j: int| 0 <= j < i && keeps_output_entry(#[trigger] ws[j], old_map) ==> m@[ws[j].id] == output_entry(
                    ws[j],
                    old_map,
                ),
                changed@.map_values(|c: (u64, String)| (c.0, c.1@)) == output_changes(ws.take(i as int), old_map),
            decreases ws.len() - i,
        {
            let w = &self.windows[i];
            let id = w.id;
            proof {
                assert(ws.take(i + 1).drop_last() == ws.take(i as int));
                assert(ws.take(i + 1).last() == ws[i as int]);
                assert forall|j: int| 0 <= j < i implies ws[j].id != id by {
                    assert(ws[j].id != ws[i as int].id);
                }
            }
            let ghost before = changed@;
            match &w.output {
                Some(o) => {
                    match self.casting.mapped_cast_output.get(&id) {
                        Some(prev) => {
                            if !crate::strings::str_eq(prev.as_str(), o.as_str()) {
                                changed.push((id, o.clone()));
                                proof {
                                    assert(changed@.map_values(|c: (u64, String)| (c.0, c.1@)) =~= before.map_values(
                                        |c: (u64, String)| (c.0, c.1@),
                                    ).push((id, o@)));
                                }
                            }
                        },
                        None => {},
                    }
                    m.insert(id, o.clone());
                },
                None => {
                    match self.casting.mapped_cast_output.get(&id) {
                        Some(prev) => {
                            m.insert(id, prev.clone());
                        },
                        None => {},
                    }
                },
            }
            i = i + 1;
        }
        assert(ws.take(ws.len() as int) == ws);
        self.casting.mapped_cast_output = m;
        changed
    }
}

/// The session ids of the casts of `target` that do not follow a dynamic
/// target, in order.
pub open spec fn fixed_casts_of(casts: Seq<Cast>, target: CastTarget) -> Seq<u64> {
    casts.filter(|c: Cast| !c.dynamic_target && c.target.key() == target.key()).map_values(|c: Cast| c.session_id)
}

/// Some dynamic cast currently shows `target`.
pub open spec fn dynamic_cast_of(casts: Seq<Cast>, target: CastTarget) -> bool {
    exists|k: int| 0 <= k < casts.len() && (#[trigger] casts[k]).dynamic_target && casts[k].target.key() == target.key()
}

/// What stopping the casts of a target did.
#[derive(Debug)]
pub struct StopForTarget {
    pub stopped: Vec<StoppedSession>,
    /// Dynamic casts of the target are not stopped: the caller switches
    /// them to show nothing.
    pub switch_dynamic_to_nothing: bool,
}

/// Where a requested stream is to be cast.
#[derive(Debug, Clone)]
pub enum StreamTargetId {
    Output { name: String },
    Window { id: u64 },
}

/// Requests from the screen-cast D-Bus interface.
#[derive(Debug)]
pub enum ScreenCastToNiri {
    StartCast { session_id: u64, stream_id: u64, target: StreamTargetId, cursor_mode: CursorMode },
    StopCast { session_id: u64 },
}

/// What the caller does after a screen-cast request.
#[derive(Debug)]
pub enum ScreenCastAction {
    /// The session was stopped, on request or because its target is missing.
    Stopped(StoppedSession),
    /// The cast waits until the portal picks its target.
    Deferred,
    /// Start a PipeWire cast of `target`; on success the caller records it
    /// with `Screencasting::add_cast`, on failure it stops the session.
    Start { session_id: u64, stream_id: u64, target: CastTarget, alpha: bool, cursor_mode: CursorMode },
}

/// What a cast does on a frame of an output.
#[derive(Debug, Clone, Copy, PartialEq, Eq, Structural)]
pub enum FrameAction {
    /// The cast takes no part in this frame.
    Skip,
    /// Send a cleared frame on the stream.
    Clear { stream_id: u64 },
    /// Size the stream and render the frame into it.
    Render { stream_id: u64 },
}

/// What resizing a stream to the frame's size gave.
#[derive(Debug, Clone, Copy, PartialEq, Eq, Structural)]
pub enum SizeChange {
    /// The stream has the size.
    Ready,
    /// The new size is being negotiated.
    Pending,
    /// The stream could not be resized.
    Failed,
}

/// What an output frame does with a cast: a cast whose stream is active
/// and that casts this output renders; every other cast takes no part.
pub open spec fn output_frame_action(c: Cast, active: bool, output: Seq<char>) -> FrameAction {
    match c.target {
        CastTarget::Output { name } => if active && name@ == output {
            FrameAction::Render { stream_id: c.stream_id }
        } else {
            FrameAction::Skip
        },
        _ => FrameAction::Skip,
    }
}

/// What rendering the windows of an output does with a cast: a cast whose
/// stream is active and that casts a window gets a cleared frame while the
/// session is locked; otherwise it renders when its window is on this
/// output. Every other cast takes no part.
pub open spec fn window_frame_action(c: Cast, active: bool, locked: bool, on_output: Seq<u64>) -> FrameAction {
    match c.target {
        CastTarget::Window { id } => if !active {
            FrameAction::Skip
        } else if locked {
            FrameAction::Clear { stream_id: c.stream_id }
        } else if on_output.contains(id) {
            FrameAction::Render { stream_id: c.stream_id }
        } else {
            FrameAction::Skip
        },
        _ => FrameAction::Skip,
    }
}

/// Whether a cast that is due to render does render: not while its new size
/// is negotiated, nor when it is too early for its next frame.
pub fn frame_render_due(size: SizeChange, too_early: bool) -> (r: bool)
    ensures
        r == (!(size is Pending) && !too_early),
{
    match size {
        SizeChange::Pending => false,
        _ => !too_early,
    }
}

/// Whether the session of a cast that was due to render is stopped after
/// the frame: its stream could not be resized, or it rendered and the
/// rendering failed.
pub fn frame_stop_due(size: SizeChange, rendered: bool, render_ok: bool) -> (r: bool)
    ensures
        r == (size is Failed || (rendered && !render_ok)),
{
    match size {
        SizeChange::Failed => true,
        _ => rendered && !render_ok,
    }
}

/// What redrawing a stream takes.
#[derive(Debug)]
pub enum RedrawPlan {
    /// No cast has this stream.
    Missing,
    /// Send a cleared frame: the cast shows nothing, or the session is
    /// locked and a window cast must not show the window.
    ClearBuffer,
    /// Queue a redraw of the output; its cast is rendered with it.
    QueueOutputRedraw { name: String },
    /// Render the window into the stream.
    RenderWindow { id: u64 },
}

/// What starting the pending dynamic casts takes.
#[derive(Debug)]
pub enum PendingStart {
    /// Nothing is pending, or the target is not available yet.
    Nothing,
    /// PipeWire could not be prepared: these sessions were stopped.
    Stopped(Vec<StoppedSession>),
    /// Start these casts on the new target; each that starts is recorded
    /// with `Screencasting::add_cast`, each that fails is stopped.
    Start(Vec<PendingCast>),
}

/// What switching the dynamic target did.
#[derive(Debug)]
pub struct DynamicRetarget {
    /// Streams to redraw, in cast order.
    pub redraw_streams: Vec<u64>,
    /// Whether the pending dynamic casts are to be started now.
    pub start_pending: bool,
}

/// The name is among the names.
pub open spec fn has_name(names: Seq<String>, name: Seq<char>) -> bool {
    exists|i: int| 0 <= i < names.len() && (#[trigger] names[i])@ == name
}

/// A dynamic cast whose frame rate could be set follows the new target.
pub open spec fn retargeted(c: Cast, failed_streams: Seq<u64>) -> bool {
    c.dynamic_target && !failed_streams.contains(c.stream_id)
}

impl Screencasting {
    /// Records a cast that started, and refreshes the snapshot.
    pub fn add_cast(&mut self, cast: Cast)
        ensures
            final(self).casts@ == old(self).casts@.push(cast),
            snapshot_of(final(self).active_casts, final(self).casts@),
            final(self).pending_dynamic_casts@ == old(self).pending_dynamic_casts@,
            final(self).window_cast_sizes@ == old(self).window_cast_sizes@,
            final(self).mapped_cast_output@ == old(self).mapped_cast_output@,
            final(self).pipewire_running == old(self).pipewire_running,
    {
        self.casts.push(cast);
        self.recompute_active_casts();
    }
}

/// A frame-rate update owed to a cast stream whose window moved to another
/// output: the stream, its session, and the window's new output.
#[derive(Debug)]
pub struct RefreshUpdate {
    pub stream_id: u64,
    pub session_id: u64,
    pub output: String,
}

/// The updates owed to the casts of window `id` that moved to `output`, in
/// cast order.
pub open spec fn window_refresh_updates(casts: Seq<Cast>, id: u64, output: Seq<char>) -> Seq<(u64, u64, Seq<char>)> {
    casts.filter(|c: Cast| c.target == (CastTarget::Window { id })).map_values(
        |c: Cast| (c.stream_id, c.session_id, output),
    )
}

/// The updates owed after the windows in `changed` moved to new outputs: for
/// each moved window in order, each cast of that window in cast order.
pub open spec fn refresh_updates(casts: Seq<Cast>, changed: Seq<(u64, String)>) -> Seq<(u64, u64, Seq<char>)>
    decreases changed.len(),
{
    if changed.len() == 0 {
        Seq::empty()
    } else {
        refresh_updates(casts, changed.drop_last()) + window_refresh_updates(
            casts,
            changed.last().0,
            changed.last().1@,
        )
    }
}

/// An update, viewed.
pub open spec fn update_view(u: RefreshUpdate) -> (u64, u64, Seq<char>) {
    (u.stream_id, u.session_id, u.output@)
}

impl Screencasting {
    /// The frame-rate updates owed after the windows in `changed` (as
    /// returned by `Niri::refresh_mapped_cast_outputs`) moved to new
    /// outputs. The caller sets each stream's frame rate to its new
    /// output's and stops, with `stop_sessions`, the session of every
    /// stream where that fails.
    pub fn refresh_updates_for(&self, changed: &[(u64, String)]) -> (r: Vec<RefreshUpdate>)
        ensures
            r@.map_values(|u: RefreshUpdate| update_view(u)) == refresh_updates(self.casts@, changed@),
    {
        let ghost cs = self.casts@;
        let mut out: Vec<RefreshUpdate> = Vec::new();
        let mut k: usize = 0;
        while k < changed.len()
            invariant
                k <= changed@.len(),
                cs == self.casts@,
                out@.map_values(|u: RefreshUpdate| update_view(u)) == refresh_updates(cs, changed@.take(k as int)),
            decreases changed@.len() - k,
        {
            let id = changed[k].0;
            let output = &changed[k].1;
            let ghost before = out@.map_values(|u: RefreshUpdate| update_view(u));
            proof {
                assert(changed@.take(k + 1).drop_last() == changed@.take(k as int));
                assert(changed@.take(k + 1).last() == changed@[k as int]);
            }
            let mut j: usize = 0;
            while j < self.casts.len()
                invariant
                    j <= cs.len(),
                    cs == self.casts@,
                    id == changed@[k as int].0,
                    *output == changed@[k as int].1,
                    out@.map_values(|u: RefreshUpdate| update_view(u)) == before + window_refresh_updates(
                        cs.take(j as int),
                        id,
                        output@,
                    ),
                decreases cs.len() - j,
            {
                let c = &self.casts[j];
                let ghost f = cs.take(j as int).filter(|c: Cast| c.target == (CastTarget::Window { id }));
                proof {
                    reveal_with_fuel(Seq::<Cast>::filter, 1);
                    assert(cs.take(j + 1).drop_last() == cs.take(j as int));
                    assert(cs.take(j + 1).last() == cs[j as int]);
                    assert(f.push(cs[j as int]).map_values(|c: Cast| (c.stream_id, c.session_id, output@)) =~= f.map_values(
                        |c: Cast| (c.stream_id, c.session_id, output@),
                    ).push((cs[j as int].stream_id, cs[j as int].session_id, output@)));
                }
                let hit = match &c.target {
                    CastTarget::Window { id: w } => *w == id,
                    _ => false,
                };
                if hit {
                    let ghost prev = out@;
                    out.push(RefreshUpdate { stream_id: c.stream_id, session_id: c.session_id, output: output.clone() });
                    proof {
                        assert(out@.map_values(|u: RefreshUpdate| update_view(u)) =~= prev.map_values(
                            |u: RefreshUpdate| update_view(u),
                        ).push(update_view(out@.last())));
                    }
                }
                j = j + 1;
            }
            proof {
                assert(cs.take(cs.len() as int) == cs);
            }
            k = k + 1;
        }
        assert(changed@.take(changed@.len() as int) == changed@);
        out
    }
}

impl Niri {
    /// Stops every cast of `target` that does not follow a dynamic target
    /// (with the rest of its session); dynamic casts of `target` are left to
    /// the caller to switch to nothing.
    pub fn stop_casts_for_target(&mut self, target: &CastTarget) -> (r: StopForTarget)
        ensures
            ({
                let ids = fixed_casts_of(old(self).casting.casts@, *target);
                &&& final(self).casting.casts@ == stop_all(old(self).casting.casts@, ids)
                &&& final(self).casting.pending_dynamic_casts@ == old(self).casting.pending_dynamic_casts@.filter(
                    |p: PendingCast| !ids.contains(p.session_id),
                )
                &&& r.stopped@.map_values(|s: StoppedSession| s.session_id) == ids
                &&& forall|k: int| 0 <= k < ids.len() ==> (#[trigger] r.stopped@[k]).disconnected_streams@
                    == stopped_streams(stop_all(old(self).casting.casts@, ids.take(k)), ids[k])
            }),
            r.switch_dynamic_to_nothing == dynamic_cast_of(old(self).casting.casts@, *target),
            final(self).windows == old(self).windows,
            final(self).outputs == old(self).outputs,
    {
        let ghost c0 = self.casting.casts@;
        let mut ids: Vec<u64> = Vec::new();
        let mut saw_dynamic = false;
        let mut k: usize = 0;
        while k < self.casting.casts.len()
            invariant
                k <= c0.len(),
                c0 == self.casting.casts@,
                ids@ == fixed_casts_of(c0.take(k as int), *target),
                saw_dynamic == dynamic_cast_of(c0.take(k as int), *target),
            decreases c0.len() - k,
        {
            let c = &self.casting.casts[k];
            proof {
                reveal_with_fuel(Seq::<Cast>::filter, 1);
                let prev = c0.take(k as int);
                let next = c0.take(k + 1);
                assert(next.drop_last() == prev);
                assert(next.last() == c0[k as int]);
                let f = prev.filter(|c: Cast| !c.dynamic_target && c.target.key() == target.key());
                assert(f.push(c0[k as int]).map_values(|c: Cast| c.session_id) =~= f.map_values(|c: Cast| c.session_id).push(
                    c0[k as int].session_id,
                ));
                if dynamic_cast_of(next, *target) && !(c0[k as int].dynamic_target && c0[k as int].target.key() == target.key()) {
                    let j = choose|j: int| 0 <= j < next.len() && (#[trigger] next[j]).dynamic_target && next[j].target.key() == target.key();
                    assert(prev[j] == next[j]);
                }
                if dynamic_cast_of(prev, *target) {
                    let j = choose|j: int| 0 <= j < prev.len() && (#[trigger] prev[j]).dynamic_target && prev[j].target.key() == target.key();
                    assert(prev[j] == next[j]);
                }
                if c0[k as int].dynamic_target && c0[k as int].target.key() == target.key() {
                    assert(next[k as int] == c0[k as int]);
                }
            }
            let same = c.target.same_as(target);
            if same {
                if c.dynamic_target {
                    saw_dynamic = true;
                } else {
                    ids.push(c.session_id);
                }
            }
            k = k + 1;
        }
        assert(c0.take(c0.len() as int) == c0);
        let stopped = self.casting.stop_sessions(&ids);
        proof {
            assert(stopped@.map_values(|s: StoppedSession| s.session_id) =~= ids@);
        }
        StopForTarget { stopped, switch_dynamic_to_nothing: saw_dynamic }
    }
}

fn names_contain(names: &Vec<String>, name: &str) -> (r: bool)
    ensures
        r == has_name(names@, name@),
{
    let mut i: usize = 0;
    while i < names.len()
        invariant
            i <= names@.len(),
            forall|j: int| 0 <= j < i ==> (#[trigger] names@[j])@ != name@,
        decreases names@.len() - i,
    {
        if crate::strings::str_eq(names[i].as_str(), name) {
            assert(names@[i as int]@ == name@);
            return true;
        }
        i = i + 1;
    }
    false
}

impl State {
    /// Handles a screen-cast request. A stop request stops the session. A
    /// start request for a connected output, or for a mapped window whose
    /// output is known, is handed back to be started (with alpha for
    /// windows); for the portal's dynamic-cast window it is kept pending
    /// until a target is picked; for anything else the session is stopped.
    pub fn on_screen_cast_msg(&mut self, msg: ScreenCastToNiri) -> (action: ScreenCastAction)
        requires
            old(self).niri.wf(),
        ensures
            match msg {
                ScreenCastToNiri::StopCast { session_id } => {
                    &&& final(self).niri.casting.casts@ == stopped_casts(old(self).niri.casting.casts@, session_id)
                    &&& action matches ScreenCastAction::Stopped(s) && s.session_id == session_id
                },
                ScreenCastToNiri::StartCast { session_id, stream_id, target, cursor_mode } => match target {
                    StreamTargetId::Output { name } => if has_name(old(self).niri.outputs@, name@) {
                        &&& *final(self) == *old(self)
                        &&& action matches ScreenCastAction::Start { session_id: s, stream_id: t, target: ct, alpha, cursor_mode: cm }
                            && cm == cursor_mode
                            && s == session_id && t == stream_id && !alpha
                            && ct.key() == (CastTarget::Output { name }).key()
                    } else {
                        &&& final(self).niri.casting.casts@ == stopped_casts(old(self).niri.casting.casts@, session_id)
                        &&& action matches ScreenCastAction::Stopped(s) && s.session_id == session_id
                    },
                    StreamTargetId::Window { id } => if id == old(self).niri.casting.dynamic_cast_id_for_portal {
                        &&& final(self).niri.casting.pending_dynamic_casts@ == old(self).niri.casting.pending_dynamic_casts@.push(
                            PendingCast { session_id, stream_id, cursor_mode },
                        )
                        &&& final(self).niri.casting.casts@ == old(self).niri.casting.casts@
                        &&& action is Deferred
                    } else if cast_size_of(old(self).niri, id) is Some {
                        &&& *final(self) == *old(self)
                        &&& action matches ScreenCastAction::Start { session_id: s, stream_id: t, target: ct, alpha, cursor_mode: cm }
                            && cm == cursor_mode
                            && s == session_id && t == stream_id && alpha && ct == (CastTarget::Window { id })
                    } else {
                        &&& final(self).niri.casting.casts@ == stopped_casts(old(self).niri.casting.casts@, session_id)
                        &&& action matches ScreenCastAction::Stopped(s) && s.session_id == session_id
                    },
                },
            },
    {
        match msg {
            ScreenCastToNiri::StopCast { session_id } => ScreenCastAction::Stopped(self.niri.casting.stop_cast(session_id)),
            ScreenCastToNiri::StartCast { session_id, stream_id, target, cursor_mode } => match target {
                StreamTargetId::Output { name } => {
                    if names_contain(&self.niri.outputs, name.as_str()) {
                        ScreenCastAction::Start {
                            session_id,
                            stream_id,
                            target: CastTarget::Output { name },
                            alpha: false,
                            cursor_mode,
                        }
                    } else {
                        ScreenCastAction::Stopped(self.niri.casting.stop_cast(session_id))
                    }
                },
                StreamTargetId::Window { id } => {
                    if id == self.niri.casting.dynamic_cast_id_for_portal {
                        self.niri.casting.pending_dynamic_casts.push(PendingCast { session_id, stream_id, cursor_mode });
                        ScreenCastAction::Deferred
                    } else if self.niri.cast_params_for_window(id).is_some() {
                        ScreenCastAction::Start { session_id, stream_id, target: CastTarget::Window { id }, alpha: true, cursor_mode }
                    } else {
                        ScreenCastAction::Stopped(self.niri.casting.stop_cast(session_id))
                    }
                },
            },
        }
    }

    /// What a frame of output `output` does with each cast, in cast order;
    /// `active` tells, cast by cast, whether its stream is active. The
    /// caller renders the casts to render, then stops, with
    /// `stop_sessions`, the sessions `frame_stop_due` names.
    pub fn plan_output_frame(&self, output: &str, active: &[bool]) -> (r: Vec<FrameAction>)
        requires
            active@.len() == self.niri.casting.casts@.len(),
        ensures
            r@.len() == self.niri.casting.casts@.len(),
            forall|k: int| 0 <= k < r@.len() ==> #[trigger] r@[k] == output_frame_action(
                self.niri.casting.casts@[k],
                active@[k],
                output@,
            ),
    {
        let casts = &self.niri.casting.casts;
        let mut r: Vec<FrameAction> = Vec::new();
        let mut k: usize = 0;
        while k < casts.len()
            invariant
                k <= casts@.len(),
                casts@ == self.niri.casting.casts@,
                active@.len() == casts@.len(),
                r@.len() == k,
                forall|j: int| 0 <= j < k ==> #[trigger] r@[j] == output_frame_action(casts@[j], active@[j], output@),
            decreases casts@.len() - k,
        {
            let c = &casts[k];
            let action = match &c.target {
                CastTarget::Output { name } => if active[k] && str_eq(name.as_str(), output) {
                    FrameAction::Render { stream_id: c.stream_id }
                } else {
                    FrameAction::Skip
                },
                _ => FrameAction::Skip,
            };
            r.push(action);
            k = k + 1;
        }
        r
    }

    /// What rendering the windows of an output does with each cast, in cast
    /// order; `on_output` are the windows on that output and `active` tells,
    /// cast by cast, whether its stream is active. While the session is
    /// locked, window casts only get cleared frames, so no window content
    /// reaches them.
    pub fn plan_window_frames(&self, on_output: &[u64], active: &[bool]) -> (r: Vec<FrameAction>)
        requires
            active@.len() == self.niri.casting.casts@.len(),
        ensures
            r@.len() == self.niri.casting.casts@.len(),
            forall|k: int| 0 <= k < r@.len() ==> #[trigger] r@[k] == window_frame_action(
                self.niri.casting.casts@[k],
                active@[k],
                self.niri.is_locked,
                on_output@,
            ),
            self.niri.is_locked ==> forall|k: int| 0 <= k < r@.len() ==> !(#[trigger] r@[k] is Render),
    {
        let casts = &self.niri.casting.casts;
        let locked = self.niri.is_locked;
        let mut r: Vec<FrameAction> = Vec::new();
        let mut k: usize = 0;
        while k < casts.len()
            invariant
                k <= casts@.len(),
                casts@ == self.niri.casting.casts@,
                locked == self.niri.is_locked,
                active@.len() == casts@.len(),
                r@.len() == k,
                forall|j: int| 0 <= j < k ==> #[trigger] r@[j] == window_frame_action(casts@[j], active@[j], locked, on_output@),
            decreases casts@.len() - k,
        {
            let c = &casts[k];
            let action = match &c.target {
                CastTarget::Window { id } => if !active[k] {
                    FrameAction::Skip
                } else if locked {
                    FrameAction::Clear { stream_id: c.stream_id }
                } else if u64_slice_contains(on_output, *id) {
                    FrameAction::Render { stream_id: c.stream_id }
                } else {
                    FrameAction::Skip
                },
                _ => FrameAction::Skip,
            };
            r.push(action);
            k = k + 1;
        }
        r
    }

    /// Decides how to redraw the cast of stream `stream_id` (the first cast
    /// with that stream).
    pub fn redraw_cast(&self, stream_id: u64) -> (plan: RedrawPlan)
        ensures
            self.niri.is_locked ==> !(plan is RenderWindow),
            match plan {
                RedrawPlan::Missing => forall|k: int|
                    0 <= k < self.niri.casting.casts@.len() ==> (#[trigger] self.niri.casting.casts@[k]).stream_id != stream_id,
                _ => exists|k: int|
                    0 <= k < self.niri.casting.casts@.len() && (#[trigger] self.niri.casting.casts@[k]).stream_id == stream_id
                        && (forall|j: int| 0 <= j < k ==> (#[trigger] self.niri.casting.casts@[j]).stream_id != stream_id)
                        && match self.niri.casting.casts@[k].target {
                        CastTarget::Nothing => plan is ClearBuffer,
                        CastTarget::Output { name } => plan matches RedrawPlan::QueueOutputRedraw { name: n } && n@ == name@,
                        CastTarget::Window { id } => if self.niri.is_locked {
                            plan is ClearBuffer
                        } else {
                            plan == (RedrawPlan::RenderWindow { id })
                        },
                    },
            },
    {
        let casts = &self.niri.casting.casts;
        let mut k: usize = 0;
        while k < casts.len()
            invariant
                k <= casts@.len(),
                casts@ == self.niri.casting.casts@,
                forall|j: int| 0 <= j < k ==> (#[trigger] casts@[j]).stream_id != stream_id,
            decreases casts@.len() - k,
        {
            if casts[k].stream_id == stream_id {
                let plan = match &casts[k].target {
                    CastTarget::Nothing => RedrawPlan::ClearBuffer,
                    CastTarget::Output { name } => RedrawPlan::QueueOutputRedraw { name: name.clone() },
                    CastTarget::Window { id } => if self.niri.is_locked {
                        RedrawPlan::ClearBuffer
                    } else {
                        RedrawPlan::RenderWindow { id: *id }
                    },
                };
                assert(casts@[k as int].stream_id == stream_id);
                assert(casts@ == self.niri.casting.casts@);
                let ghost kk = k as int;
                assert(0 <= kk < self.niri.casting.casts@.len() && self.niri.casting.casts@[kk].stream_id == stream_id
                    && (forall|j: int| 0 <= j < kk ==> (#[trigger] self.niri.casting.casts@[j]).stream_id != stream_id));
                return plan;
            }
            k = k + 1;
        }
        RedrawPlan::Missing
    }

    /// Switches every dynamic cast whose frame rate could be set (its stream
    /// is not in `failed_streams`) to `target`, refreshes the snapshot, and
    /// says which streams to redraw and whether the pending dynamic casts
    /// start now (a real target was picked and some are pending).
    pub fn set_dynamic_cast_target(&mut self, target: CastTarget, failed_streams: &[u64]) -> (r: DynamicRetarget)
        ensures
            final(self).niri.casting.casts@.len() == old(self).niri.casting.casts@.len(),
            forall|k: int| 0 <= k < old(self).niri.casting.casts@.len() ==> #[trigger] final(self).niri.casting.casts@[k]
                == if retargeted(old(self).niri.casting.casts@[k], failed_streams@) {
                Cast { target, ..old(self).niri.casting.casts@[k] }
            } else {
                old(self).niri.casting.casts@[k]
            },
            snapshot_of(final(self).niri.casting.active_casts, final(self).niri.casting.casts@),
            r.redraw_streams@ == old(self).niri.casting.casts@.filter(|c: Cast| retargeted(c, failed_streams@)).map_values(
                |c: Cast| c.stream_id,
            ),
            r.start_pending == (!(target is Nothing) && old(self).niri.casting.pending_dynamic_casts@.len() > 0),
            final(self).niri.casting.pending_dynamic_casts@ == old(self).niri.casting.pending_dynamic_casts@,
            final(self).niri.windows == old(self).niri.windows,
    {
        let ghost c0 = self.niri.casting.casts@;
        let ghost fs = failed_streams@;
        let mut redraw: Vec<u64> = Vec::new();
        let mut k: usize = 0;
        while k < self.niri.casting.casts.len()
            invariant
                k <= c0.len(),
                self.niri.casting.casts@.len() == c0.len(),
                fs == failed_streams@,
                forall|j: int| 0 <= j < k ==> #[trigger] self.niri.casting.casts@[j] == if retargeted(c0[j], fs) {
                    Cast { target, ..c0[j] }
                } else {
                    c0[j]
                },
                forall|j: int| k <= j < c0.len() ==> #[trigger] self.niri.casting.casts@[j] == c0[j],
                redraw@ == c0.take(k as int).filter(|c: Cast| retargeted(c, fs)).map_values(|c: Cast| c.stream_id),
                self.niri.casting.pending_dynamic_casts@ == old(self).niri.casting.pending_dynamic_casts@,
                self.niri.windows == old(self).niri.windows,
                c0 == old(self).niri.casting.casts@,
            decreases c0.len() - k,
        {
            let dynamic = self.niri.casting.casts[k].dynamic_target;
            let stream = self.niri.casting.casts[k].stream_id;
            let mut failed = false;
            let mut f: usize = 0;
            while f < failed_streams.len()
                invariant
                    f <= fs.len(),
                    fs == failed_streams@,
                    failed == fs.take(f as int).contains(stream),
                decreases fs.len() - f,
            {
                proof {
                    assert(fs.take(f + 1) == fs.take(f as int).push(fs[f as int]));
                    fs.take(f as int).lemma_push_to_set_commute(fs[f as int]);
                    assert(fs.take(f as int).to_set().contains(stream) == fs.take(f as int).contains(stream));
                    assert(fs.take(f + 1).to_set().contains(stream) == fs.take(f + 1).contains(stream));
                }
                if failed_streams[f] == stream {
                    failed = true;
                }
                f = f + 1;
            }
            assert(fs.take(fs.len() as int) == fs);
            proof {
                reveal_with_fuel(Seq::<Cast>::filter, 1);
                assert(c0.take(k + 1).drop_last() == c0.take(k as int));
                assert(c0.take(k + 1).last() == c0[k as int]);
                let fl = c0.take(k as int).filter(|c: Cast| retargeted(c, fs));
                assert(fl.push(c0[k as int]).map_values(|c: Cast| c.stream_id) =~= fl.map_values(|c: Cast| c.stream_id).push(
                    c0[k as int].stream_id,
                ));
            }
            if dynamic && !failed {
                let old_cast = self.niri.casting.casts[k].duplicate();
                let updated = Cast { target: target.duplicate(), ..old_cast };
                self.niri.casting.casts.set(k, updated);
                redraw.push(stream);
            }
            k = k + 1;
        }
        assert(c0.take(c0.len() as int) == c0);
        self.niri.casting.recompute_active_casts();
        let start_pending = match target {
            CastTarget::Nothing => false,
            _ => self.niri.casting.pending_dynamic_casts.len() > 0,
        };
        DynamicRetarget { redraw_streams: redraw, start_pending }
    }

    /// Whether the pending dynamic casts can start on `target` now: some
    /// are pending and the target is there (its output is connected, or
    /// its window is mapped on a known output). The caller prepares
    /// PipeWire only then.
    pub fn pending_dynamic_start_ready(&self, target: &CastTarget) -> (r: bool)
        requires
            self.niri.wf(),
        ensures
            r == (self.niri.casting.pending_dynamic_casts@.len() > 0 && target_available(self.niri, *target)),
    {
        if self.niri.casting.pending_dynamic_casts.len() == 0 {
            return false;
        }
        match target {
            CastTarget::Nothing => false,
            CastTarget::Output { name } => names_contain(&self.niri.outputs, name.as_str()),
            CastTarget::Window { id } => self.niri.cast_params_for_window(*id).is_some(),
        }
    }

    /// Starts the pending dynamic casts on the target just picked (never
    /// `Nothing`). Nothing happens while nothing is pending or the target
    /// is not there. When PipeWire could not be prepared, every pending
    /// session is stopped (each once); otherwise the pending casts are
    /// handed back to be started and are no longer pending: the caller
    /// starts each and reports the outcomes to
    /// `record_started_dynamic_casts`.
    pub fn start_pending_dynamic_casts(&mut self, target: &CastTarget, pipewire_prepared: bool) -> (r: PendingStart)
        requires
            old(self).niri.wf(),
            !(*target is Nothing),
        ensures
            ({
                let p0 = old(self).niri.casting.pending_dynamic_casts@;
                if p0.len() == 0 || !target_available(old(self).niri, *target) {
                    &&& r is Nothing
                    &&& *final(self) == *old(self)
                } else if !pipewire_prepared {
                    &&& final(self).niri.casting.pending_dynamic_casts@.len() == 0
                    &&& snapshot_of(final(self).niri.casting.active_casts, final(self).niri.casting.casts@)
                    &&& r matches PendingStart::Stopped(stopped) && ({
                        let ids = stopped@.map_values(|s: StoppedSession| s.session_id);
                        &&& ids.no_duplicates()
                        &&& ids.to_set() == all_sessions(p0, Seq::<Cast>::empty())
                        &&& final(self).niri.casting.casts@ == stop_all(old(self).niri.casting.casts@, ids)
                        &&& forall|k: int| 0 <= k < stopped@.len() ==> (#[trigger] stopped@[k]).disconnected_streams@
                            == stopped_streams(stop_all(old(self).niri.casting.casts@, ids.take(k)), ids[k])
                    })
                } else {
                    &&& final(self).niri.casting.pending_dynamic_casts@.len() == 0
                    &&& final(self).niri.casting.casts == old(self).niri.casting.casts
                    &&& final(self).niri.casting.active_casts == old(self).niri.casting.active_casts
                    &&& r matches PendingStart::Start(list) && list@ == p0
                }
            }),
            final(self).niri.windows == old(self).niri.windows,
            final(self).niri.outputs == old(self).niri.outputs,
    {
        if !self.pending_dynamic_start_ready(target) {
            return PendingStart::Nothing;
        }
        let mut pending: Vec<PendingCast> = Vec::new();
        std::mem::swap(&mut pending, &mut self.niri.casting.pending_dynamic_casts);
        if !pipewire_prepared {
            let no_casts: Vec<Cast> = Vec::new();
            let ids = session_ids(&pending, &no_casts);
            let stopped = self.niri.casting.stop_sessions(&ids);
            proof {
                assert(stopped@.map_values(|s: StoppedSession| s.session_id) =~= ids@);
                reveal_with_fuel(Seq::<PendingCast>::filter, 1);
                let sessions = all_sessions(pending@, Seq::<Cast>::empty());
                assert(sessions.len() > 0 ==> ids@.len() > 0) by {
                    if ids@.len() == 0 {
                        assert(ids@.to_set() =~= Set::<u64>::empty());
                    }
                }
                assert(ids@.len() > 0) by {
                    assert(sessions.contains(pending@[0].session_id));
                    assert(ids@.to_set().contains(pending@[0].session_id));
                }
            }
            return PendingStart::Stopped(stopped);
        }
        PendingStart::Start(pending)
    }

    /// Records the outcome of starting the handed-back pending casts on
    /// `target`: each that started (its outcome is `true`) becomes a cast
    /// of `target` that follows the dynamic target, in order; then every
    /// session with a cast that failed to start is stopped, each once, as
    /// a whole (its other casts included). Returns the stopped sessions.
    pub fn record_started_dynamic_casts(
        &mut self,
        target: &CastTarget,
        started: &[PendingCast],
        outcomes: &[bool],
    ) -> (stopped: Vec<StoppedSession>)
        requires
            started@.len() == outcomes@.len(),
        ensures
            ({
                let all = old(self).niri.casting.casts@ + started_dynamic_casts(started@, outcomes@, *target);
                let failed = failed_sessions(started@, outcomes@);
                let ids = stopped@.map_values(|s: StoppedSession| s.session_id);
                &&& final(self).niri.casting.casts@ == stop_all(all, ids)
                &&& final(self).niri.casting.pending_dynamic_casts@ == old(self).niri.casting.pending_dynamic_casts@.filter(
                    |p: PendingCast| !failed.contains(p.session_id),
                )
                &&& snapshot_of(final(self).niri.casting.active_casts, final(self).niri.casting.casts@)
                &&& ids.no_duplicates()
                &&& ids.to_set() == failed
                &&& forall|k: int| 0 <= k < stopped@.len() ==> (#[trigger] stopped@[k]).disconnected_streams@
                    == stopped_streams(stop_all(all, ids.take(k)), ids[k])
            }),
            final(self).niri.windows == old(self).niri.windows,
            final(self).niri.outputs == old(self).niri.outputs,
            final(self).niri.is_locked == old(self).niri.is_locked,
    {
        let ghost c0 = self.niri.casting.casts@;
        let ghost st = started@;
        let ghost oc = outcomes@;
        let mut ids: Vec<u64> = Vec::new();
        let mut i: usize = 0;
        while i < started.len()
            invariant
                i <= st.len(),
                st == started@,
                oc == outcomes@,
                st.len() == oc.len(),
                self.niri.casting.casts@ == c0 + started_dynamic_casts(st.take(i as int), oc.take(i as int), *target),
                ids@.no_duplicates(),
                ids@.to_set() == failed_sessions(st.take(i as int), oc.take(i as int)),
                self.niri.casting.pending_dynamic_casts == old(self).niri.casting.pending_dynamic_casts,
                self.niri.windows == old(self).niri.windows,
                self.niri.outputs == old(self).niri.outputs,
                self.niri.is_locked == old(self).niri.is_locked,
                c0 == old(self).niri.casting.casts@,
            decreases st.len() - i,
        {
            let p = started[i];
            let ghost sp = st.take(i as int);
            let ghost so = oc.take(i as int);
            proof {
                assert(st.take(i + 1).drop_last() == sp);
                assert(oc.take(i + 1).drop_last() == so);
                assert(st.take(i + 1).last() == p);
                assert(oc.take(i + 1).last() == outcomes@[i as int]);
            }
            if outcomes[i] {
                self.niri.casting.casts.push(
                    Cast { session_id: p.session_id, stream_id: p.stream_id, target: target.duplicate(), dynamic_target: true },
                );
                proof {
                    assert(failed_sessions(st.take(i + 1), oc.take(i + 1)) =~= failed_sessions(sp, so)) by {
                        assert forall|x: u64| failed_sessions(st.take(i + 1), oc.take(i + 1)).contains(x) implies failed_sessions(sp, so).contains(x) by {
                            let j = choose|j: int| 0 <= j < i + 1 && !oc.take(i + 1)[j] && #[trigger] st.take(i + 1)[j].session_id == x;
                            assert(j < i);
                            assert(!so[j] && sp[j].session_id == x);
                        }
                        assert forall|x: u64| failed_sessions(sp, so).contains(x) implies failed_sessions(st.take(i + 1), oc.take(i + 1)).contains(x) by {
                            let j = choose|j: int| 0 <= j < i && !so[j] && #[trigger] sp[j].session_id == x;
                            assert(!oc.take(i + 1)[j] && st.take(i + 1)[j].session_id == x);
                        }
                    }
                }
            } else {
                push_unique(&mut ids, p.session_id);
                proof {
                    assert(failed_sessions(st.take(i + 1), oc.take(i + 1)) =~= failed_sessions(sp, so).insert(p.session_id)) by {
                        assert forall|x: u64| failed_sessions(st.take(i + 1), oc.take(i + 1)).contains(x) implies failed_sessions(sp, so).insert(p.session_id).contains(x) by {
                            let j = choose|j: int| 0 <= j < i + 1 && !oc.take(i + 1)[j] && #[trigger] st.take(i + 1)[j].session_id == x;
                            if j < i {
                                assert(!so[j] && sp[j].session_id == x);
                            }
                        }
                        assert forall|x: u64| failed_sessions(sp, so).insert(p.session_id).contains(x) implies failed_sessions(st.take(i + 1), oc.take(i + 1)).contains(x) by {
                            if x == p.session_id {
                                assert(!oc.take(i + 1)[i as int] && st.take(i + 1)[i as int].session_id == x);
                            } else {
                                let j = choose|j: int| 0 <= j < i && !so[j] && #[trigger] sp[j].session_id == x;
                                assert(!oc.take(i + 1)[j] && st.take(i + 1)[j].session_id == x);
                            }
                        }
                    }
                }
            }
            i = i + 1;
        }
        proof {
            assert(st.take(st.len() as int) == st);
            assert(oc.take(oc.len() as int) == oc);
        }
        let ghost all = self.niri.casting.casts@;
        let ghost failed = failed_sessions(st, oc);
        self.niri.casting.recompute_active_casts();
        if ids.len() == 0 {
            proof {
                assert forall|x: u64| !failed.contains(x) by {
                    assert(!ids@.to_set().contains(x));
                }
                lemma_filter_all(
                    self.niri.casting.pending_dynamic_casts@,
                    |p: PendingCast| !failed.contains(p.session_id),
                );
                assert(ids@.to_set() =~= Set::<u64>::empty());
            }
            let none: Vec<StoppedSession> = Vec::new();
            proof {
                assert(none@.map_values(|s: StoppedSession| s.session_id) =~= Seq::<u64>::empty());
            }
            return none;
        }
        let stopped = self.niri.casting.stop_sessions(&ids);
        proof {
            assert forall|x: u64| ids@.contains(x) <==> failed.contains(x) by {
                assert(ids@.to_set().contains(x) <==> ids@.contains(x));
            }
            assert((|p: PendingCast| !ids@.contains(p.session_id)) =~= (|p: PendingCast| !failed.contains(p.session_id)));
            assert(stopped@.map_values(|s: StoppedSession| s.session_id) =~= ids@);
        }
        stopped
    }
}

/// The target is there to be cast: its output is connected, or its window
/// is mapped on a known output. `Nothing` is never there.
pub open spec fn target_available(n: Niri, target: CastTarget) -> bool {
    match target {
        CastTarget::Nothing => false,
        CastTarget::Output { name } => has_name(n.outputs@, name@),
        CastTarget::Window { id } => cast_size_of(n, id) is Some,
    }
}

/// The casts that the pending casts whose start succeeded become, in order:
/// casts of `target` that follow the dynamic target.
pub open spec fn started_dynamic_casts(pending: Seq<PendingCast>, outcomes: Seq<bool>, target: CastTarget) -> Seq<Cast>
    decreases pending.len(),
{
    if pending.len() == 0 {
        Seq::empty()
    } else {
        let prev = started_dynamic_casts(pending.drop_last(), outcomes.drop_last(), target);
        let p = pending.last();
        if outcomes.last() {
            prev.push(Cast { session_id: p.session_id, stream_id: p.stream_id, target, dynamic_target: true })
        } else {
            prev
        }
    }
}

/// The sessions of the pending casts whose start failed.
pub open spec fn failed_sessions(pending: Seq<PendingCast>, outcomes: Seq<bool>) -> Set<u64> {
    Set::new(|id: u64| exists|j: int| 0 <= j < pending.len() && !outcomes[j] && #[trigger] pending[j].session_id == id)
}

/// A pixel format as offered to PipeWire: its fourcc code and its DRM
/// modifier.
#[derive(Debug, Clone, Copy, PartialEq, Eq, Structural)]
pub struct Format {
    pub code: u32,
    pub modifier: u64,
}

/// The DRM "invalid" modifier, which stands for the implicit modifier.
pub const MODIFIER_INVALID: u64 = 0x00ff_ffff_ffff_ffff;

/// Some format uses the implicit modifier.
pub open spec fn has_implicit_modifier(formats: Seq<Format>) -> bool {
    exists|i: int| 0 <= i < formats.len() && (#[trigger] formats[i]).modifier == MODIFIER_INVALID
}

/// The implicit-modifier probe has to run: its result is not cached yet and
/// some offered format uses the implicit modifier.
pub open spec fn probe_needed(cached: Option<bool>, formats: Seq<Format>) -> bool {
    cached is None && has_implicit_modifier(formats)
}

/// What is known of the implicit modifier for this preparation: the cached
/// result if there is one, else the result of the probe just run when it
/// was needed, else nothing.
pub open spec fn probe_result(cached: Option<bool>, formats: Seq<Format>, fresh_probe: Option<bool>) -> Option<bool> {
    if cached is Some {
        cached
    } else if has_implicit_modifier(formats) {
        fresh_probe
    } else {
        None
    }
}

/// The formats offered to PipeWire: the renderer's formats (only the
/// implicit-modifier ones when the debug setting forces them), without the
/// implicit-modifier ones when the implicit modifier is known not to render
/// and nothing forces it.
pub open spec fn offered_formats(formats: Seq<Format>, probe: Option<bool>, force: bool) -> Seq<Format> {
    let base = if force {
        formats.filter(|f: Format| f.modifier == MODIFIER_INVALID)
    } else {
        formats
    };
    if force || probe != Some(false) {
        base
    } else {
        base.filter(|f: Format| f.modifier != MODIFIER_INVALID)
    }
}

/// Whether the implicit-modifier probe has to run: it runs at most once,
/// and only when some offered format uses the implicit modifier.
pub fn implicit_modifier_probe_needed(cached: Option<bool>, formats: &[Format]) -> (r: bool)
    ensures
        r == probe_needed(cached, formats@),
{
    if cached.is_some() {
        return false;
    }
    let mut i: usize = 0;
    while i < formats.len()
        invariant
            i <= formats@.len(),
            cached is None,
            forall|j: int| 0 <= j < i ==> (#[trigger] formats@[j]).modifier != MODIFIER_INVALID,
        decreases formats@.len() - i,
    {
        if formats[i].modifier == MODIFIER_INVALID {
            assert((formats@[i as int]).modifier == MODIFIER_INVALID);
            return true;
        }
        i = i + 1;
    }
    false
}

/// The formats whose modifier satisfies `keep_invalid` (true: only the
/// implicit-modifier ones; false: all others), in order.
fn filter_by_modifier(formats: &[Format], keep_invalid: bool) -> (r: Vec<Format>)
    ensures
        r@ == formats@.filter(|f: Format| (f.modifier == MODIFIER_INVALID) == keep_invalid),
{
    let mut out: Vec<Format> = Vec::new();
    let mut i: usize = 0;
    while i < formats.len()
        invariant
            i <= formats@.len(),
            out@ == formats@.take(i as int).filter(|f: Format| (f.modifier == MODIFIER_INVALID) == keep_invalid),
        decreases formats@.len() - i,
    {
        proof {
            reveal_with_fuel(Seq::<Format>::filter, 1);
            assert(formats@.take(i + 1).drop_last() == formats@.take(i as int));
            assert(formats@.take(i + 1).last() == formats@[i as int]);
        }
        let f = formats[i];
        if (f.modifier == MODIFIER_INVALID) == keep_invalid {
            out.push(f);
        }
        i = i + 1;
    }
    assert(formats@.take(formats@.len() as int) == formats@);
    out
}

/// The debug setting that forces the implicit modifier keeps only the
/// implicit-modifier formats.
pub fn keep_only_implicit_modifier(formats: &[Format]) -> (r: Vec<Format>)
    ensures
        r@ == formats@.filter(|f: Format| f.modifier == MODIFIER_INVALID),
{
    let r = filter_by_modifier(formats, true);
    assert((|f: Format| (f.modifier == MODIFIER_INVALID) == true) =~= (|f: Format| f.modifier == MODIFIER_INVALID));
    r
}

/// The formats to offer: unchanged when the debug setting forces the
/// implicit modifier or when the implicit modifier is not known to be
/// unrenderable; otherwise without the implicit-modifier formats.
pub fn strip_unsupported_implicit_modifier(
    formats: Vec<Format>,
    implicit_modifier_renderable: Option<bool>,
    force_pipewire_invalid_modifier: bool,
) -> (r: Vec<Format>)
    ensures
        r@ == if force_pipewire_invalid_modifier || implicit_modifier_renderable != Some(false) {
            formats@
        } else {
            formats@.filter(|f: Format| f.modifier != MODIFIER_INVALID)
        },
{
    if force_pipewire_invalid_modifier || implicit_modifier_renderable != Some(false) {
        return formats;
    }
    let r = filter_by_modifier(formats.as_slice(), false);
    assert((|f: Format| (f.modifier == MODIFIER_INVALID) == false) =~= (|f: Format| f.modifier != MODIFIER_INVALID));
    r
}

impl State {
    /// Settles the formats of a cast once PipeWire runs. `render_formats`
    /// are the renderer's formats; `fresh_probe` is the result of the
    /// implicit-modifier probe when the caller ran it (it runs it only when
    /// `implicit_modifier_probe_needed` says so). A result found is cached,
    /// and a cached result is never replaced.
    pub fn prepare_pw_cast(
        &mut self,
        render_formats: &[Format],
        fresh_probe: Option<bool>,
        force_invalid_modifier: bool,
    ) -> (formats: Vec<Format>)
        ensures
            ({
                let cached = old(self).niri.casting.implicit_modifier_renderable;
                let probe = probe_result(cached, render_formats@, fresh_probe);
                &&& final(self).niri.casting.implicit_modifier_renderable == if probe is Some {
                    probe
                } else {
                    cached
                }
                &&& formats@ == offered_formats(render_formats@, probe, force_invalid_modifier)
            }),
            final(self).niri.casting.pipewire_running,
            final(self).niri.casting.casts == old(self).niri.casting.casts,
            final(self).niri.casting.pending_dynamic_casts == old(self).niri.casting.pending_dynamic_casts,
            final(self).niri.casting.active_casts == old(self).niri.casting.active_casts,
            final(self).niri.windows == old(self).niri.windows,
            final(self).niri.outputs == old(self).niri.outputs,
    {
        self.niri.casting.pipewire_running = true;
        let cached = self.niri.casting.implicit_modifier_renderable;
        let probe = match cached {
            Some(b) => Some(b),
            None => {
                let needed = implicit_modifier_probe_needed(None, render_formats);
                if needed {
                    fresh_probe
                } else {
                    None
                }
            },
        };
        if probe.is_some() {
            self.niri.casting.implicit_modifier_renderable = probe;
        }
        let base = if force_invalid_modifier {
            keep_only_implicit_modifier(render_formats)
        } else {
            let mut all: Vec<Format> = Vec::new();
            let mut i: usize = 0;
            while i < render_formats.len()
                invariant
                    i <= render_formats@.len(),
                    all@ == render_formats@.take(i as int),
                decreases render_formats@.len() - i,
            {
                all.push(render_formats[i]);
                assert(render_formats@.take(i + 1) == render_formats@.take(i as int).push(render_formats@[i as int]));
                i = i + 1;
            }
            assert(render_formats@.take(render_formats@.len() as int) == render_formats@);
            all
        };
        strip_unsupported_implicit_modifier(base, probe, force_invalid_modifier)
    }
}

/// Law: the implicit-modifier probe runs at most once: once its result is
/// cached it is never needed again, and a preparation keeps the cached
/// result whatever else it is given.
pub proof fn law_probe_runs_at_most_once(b: bool, formats: Seq<Format>, fresh_probe: Option<bool>)
    ensures
        !probe_needed(Some(b), formats),
        probe_result(Some(b), formats, fresh_probe) == Some(b),
{
}

/// Law: stopping a session drops exactly its casts and pending casts: what
/// is left holds each cast of another session as often as before and none
/// of the session, and keeps every pending cast of the other sessions; the
/// streams disconnected are the session's, from its last cast to its first.
pub proof fn law_stop_removes_exactly_the_session(casts: Seq<Cast>, pending: Seq<PendingCast>, session_id: u64)
    ensures
        forall|c: Cast| #[trigger] stopped_casts(casts, session_id).to_multiset().count(c) == if c.session_id
            == session_id {
            0
        } else {
            casts.to_multiset().count(c)
        },
        stopped_streams(casts, session_id) == session_streams(casts, session_id).reverse(),
        forall|i: int| 0 <= i < other_pending(pending, session_id).len() ==> (#[trigger] other_pending(pending, session_id)[i]).session_id != session_id,
        forall|i: int| 0 <= i < pending.len() && pending[i].session_id != session_id ==> other_pending(pending, session_id).contains(#[trigger] pending[i]),
{
    broadcast use vstd::seq_lib::group_filter_ensures;
    lemma_stop_counts(casts, session_id);
    assert forall|i: int| 0 <= i < pending.len() && pending[i].session_id != session_id implies other_pending(pending, session_id).contains(#[trigger] pending[i]) by {
        pending.lemma_filter_contains(|p: PendingCast| p.session_id != session_id, i);
    }
}

/// Law: stopping a session twice is the same as stopping it once; the second
/// time disconnects nothing.
pub proof fn law_stop_idempotent(casts: Seq<Cast>, session_id: u64)
    ensures
        stopped_casts(stopped_casts(casts, session_id), session_id) == stopped_casts(casts, session_id),
        stopped_streams(stopped_casts(casts, session_id), session_id) == Seq::<u64>::empty(),
{
    broadcast use vstd::seq_lib::group_to_multiset_ensures;
    lemma_stop_counts(casts, session_id);
    let r = stopped_casts(casts, session_id);
    assert forall|k: int| 0 <= k < r.len() implies (#[trigger] r[k]).session_id != session_id by {
        assert(r.contains(r[k]));
        assert(r.to_multiset().count(r[k]) > 0);
    }
    lemma_swap_stop_absent(r, session_id, r.len());
}

/// Law: with the policy on, a Zoom window that is not itself cast is hidden
/// whenever anything is cast: one cast output is enough, as is one cast
/// window; it is hidden only then.
pub proof fn law_auto_hide_while_anything_is_cast(config: ScreenCast, active: ActiveCasts, w: WindowState)
    ensures
        auto_hidden(config, active, w) == (config.hide_zoom_non_shared_windows && (active.outputs@.len() > 0
            || !active.windows@.is_empty()) && !active.windows@.contains(w.id) && is_zoom(w.app_id)),
        config.hide_zoom_non_shared_windows && active.outputs@.len() > 0 && !active.windows@.contains(w.id) && is_zoom(
            w.app_id,
        ) ==> auto_hidden(config, active, w),
{
}

/// Law: the Zoom auto-hide policy never hides a window from its own cast,
/// and hides nothing while nothing is cast or while the policy is off.
pub proof fn law_auto_hide_spares_cast_windows(config: ScreenCast, active: ActiveCasts, w: WindowState)
    ensures
        active.windows@.contains(w.id) ==> !auto_hidden(config, active, w),
        nothing_cast(active) ==> !auto_hidden(config, active, w),
        !config.hide_zoom_non_shared_windows ==> !auto_hidden(config, active, w),
        !is_zoom(w.app_id) ==> !auto_hidden(config, active, w),
{
}

} // verus!
