//! The window list offered to screen-cast pickers over the
//! `org.gnome.Shell.Introspect` interface, and its change signature.

use std::collections::HashMap;
use std::hash::{DefaultHasher, Hasher};
use vstd::prelude::*;
use vstd::std_specs::hash::DefaultHasherAdditionalSpecFns;

verus! {

broadcast use vstd::seq_lib::group_to_multiset_ensures;

/// Requests from the interface to the compositor.
pub enum IntrospectToNiri {
    GetWindows,
}

/// Replies from the compositor to the interface.
pub enum NiriToIntrospect {
    Windows(HashMap<u64, WindowProperties>),
}

/// Properties of one window as exposed over the interface.
#[derive(Debug)]
pub struct WindowProperties {
    /// Window title.
    pub title: String,
    /// Window app ID.
    pub app_id: String,
}

/// The writes that hashing a `u64` makes into a hasher.
pub uninterp spec fn u64_hash_writes(v: u64) -> Seq<Seq<u8>>;

/// The writes that hashing a string makes into a hasher.
pub uninterp spec fn str_hash_writes(s: Seq<char>) -> Seq<Seq<u8>>;

/// Feeds `v` into `hasher` through `<u64 as Hash>::hash`.
///
/// Claimed: the call appends to the hasher's write history a sequence of
/// writes that depends on `v` alone. Which bytes those are is left unsaid
/// (std writes the eight bytes of `v` in the target's native byte order, so
/// they are fixed for the target the crate is built for).
#[verifier::external_body]
fn hash_u64(v: u64, hasher: &mut DefaultHasher)
    ensures
        final(hasher)@ == old(hasher)@ + u64_hash_writes(v),
{
    std::hash::Hash::hash(&v, hasher)
}

/// Feeds `s` into `hasher` through `<str as Hash>::hash`.
///
/// Claimed: the call appends to the hasher's write history a sequence of
/// writes that depends on the characters of `s` alone. Which bytes those
/// are is left unsaid (std writes the UTF-8 bytes of `s` and a terminator).
#[verifier::external_body]
fn hash_str(s: &str, hasher: &mut DefaultHasher)
    ensures
        final(hasher)@ == old(hasher)@ + str_hash_writes(s@),
{
    std::hash::Hash::hash(s, hasher)
}

/// Hash of one window's `(id, title, app id)`: a fresh `DefaultHasher` fed
/// the three in that order.
pub open spec fn window_hash(id: u64, title: Seq<char>, app_id: Seq<char>) -> u64 {
    DefaultHasher::spec_finish(
        Seq::<Seq<u8>>::empty() + u64_hash_writes(id) + str_hash_writes(title) + str_hash_writes(app_id),
    )
}

/// XOR of the hashes of all windows in the list.
pub open spec fn signature_of(ws: Seq<(u64, Seq<char>, Seq<char>)>) -> u64
    decreases ws.len(),
{
    if ws.len() == 0 {
        0
    } else {
        signature_of(ws.drop_last()) ^ window_hash(ws.last().0, ws.last().1, ws.last().2)
    }
}

/// The windows of a list of `(id, title, app id)` entries, viewed.
pub open spec fn windows_view(ws: Seq<(u64, &str, &str)>) -> Seq<(u64, Seq<char>, Seq<char>)> {
    ws.map_values(|w: (u64, &str, &str)| (w.0, w.1@, w.2@))
}

fn window_hash_of(id: u64, title: &str, app_id: &str) -> (h: u64)
    ensures
        h == window_hash(id, title@, app_id@),
{
    let mut hasher = DefaultHasher::new();
    hash_u64(id, &mut hasher);
    hash_str(title, &mut hasher);
    hash_str(app_id, &mut hasher);
    hasher.finish()
}

/// Order-independent signature of the window list: the XOR of a hash of
/// each window's `(id, title, app id)`.
pub fn windows_signature(windows: &[(u64, &str, &str)]) -> (sig: u64)
    ensures
        sig == signature_of(windows_view(windows@)),
{
    let mut acc: u64 = 0;
    let mut i: usize = 0;
    while i < windows.len()
        invariant
            i <= windows@.len(),
            acc == signature_of(windows_view(windows@.take(i as int))),
        decreases windows@.len() - i,
    {
        let (id, title, app_id) = windows[i];
        let h = window_hash_of(id, title, app_id);
        proof {
            let next = windows_view(windows@.take(i + 1));
            assert(next.drop_last() =~= windows_view(windows@.take(i as int)));
            assert(next.last() == (id, title@, app_id@));
        }
        acc = acc ^ h;
        i = i + 1;
    }
    assert(windows@.take(windows@.len() as int) == windows@);
    acc
}

proof fn lemma_xor_swap(a: u64, b: u64, c: u64)
    ensures
        (a ^ b) ^ c == (a ^ c) ^ b,
{
    assert((a ^ b) ^ c == (a ^ c) ^ b) by (bit_vector);
}

/// Taking any one window out of the list and XOR-ing its hash back in
/// gives the signature of the whole list.
proof fn lemma_signature_remove(ws: Seq<(u64, Seq<char>, Seq<char>)>, j: int)
    requires
        0 <= j < ws.len(),
    ensures
        signature_of(ws) == signature_of(ws.remove(j)) ^ window_hash(ws[j].0, ws[j].1, ws[j].2),
    decreases ws.len(),
{
    if j == ws.len() - 1 {
        assert(ws.remove(j) =~= ws.drop_last());
    } else {
        let d = ws.drop_last();
        lemma_signature_remove(d, j);
        assert(ws.remove(j).drop_last() =~= d.remove(j));
        assert(ws.remove(j).last() == ws.last());
        let l = ws.last();
        lemma_xor_swap(
            signature_of(d.remove(j)),
            window_hash(ws[j].0, ws[j].1, ws[j].2),
            window_hash(l.0, l.1, l.2),
        );
    }
}

/// Law: the signature does not depend on the order of the windows: two
/// lists holding the same windows (as a multiset) have the same signature.
pub proof fn law_signature_order_independent(
    ws1: Seq<(u64, Seq<char>, Seq<char>)>,
    ws2: Seq<(u64, Seq<char>, Seq<char>)>,
)
    requires
        ws1.to_multiset() == ws2.to_multiset(),
    ensures
        signature_of(ws1) == signature_of(ws2),
    decreases ws1.len(),
{
    if ws1.len() == 0 {
        assert(ws1.to_multiset().len() == ws1.len());
        assert(ws2.to_multiset().len() == ws2.len());
    } else {
        let x = ws1.last();
        assert(ws1.to_multiset().count(x) > 0) by {
            assert(ws1.contains(x)) by {
                assert(ws1[ws1.len() - 1] == x);
            }
        }
        assert(ws2.contains(x));
        let j = choose|j: int| 0 <= j < ws2.len() && ws2[j] == x;
        assert(ws1.drop_last() =~= ws1.remove(ws1.len() - 1));
        assert(ws1.drop_last().to_multiset() =~= ws2.remove(j).to_multiset());
        law_signature_order_independent(ws1.drop_last(), ws2.remove(j));
        lemma_signature_remove(ws2, j);
    }
}

/// Law: the hash of a window is finished from the writes of its id, then
/// its title, then its app id: windows that differ only in their ids are
/// hashed from different write histories as soon as the ids write
/// differently.
pub proof fn law_window_hash_covers_id(id: u64, title: Seq<char>, app_id: Seq<char>)
    ensures
        window_hash(id, title, app_id) == DefaultHasher::spec_finish(
            u64_hash_writes(id) + str_hash_writes(title) + str_hash_writes(app_id),
        ),
{
    assert(Seq::<Seq<u8>>::empty() + u64_hash_writes(id) =~= u64_hash_writes(id));
}

/// Law: the id's writes come first in a window's write history, so two
/// windows whose ids write differently have different histories.
pub proof fn law_window_histories_differ_by_id(id1: u64, id2: u64, title: Seq<char>, app_id: Seq<char>)
    requires
        u64_hash_writes(id1).len() == u64_hash_writes(id2).len(),
        u64_hash_writes(id1) != u64_hash_writes(id2),
    ensures
        u64_hash_writes(id1) + str_hash_writes(title) + str_hash_writes(app_id) != u64_hash_writes(id2)
            + str_hash_writes(title) + str_hash_writes(app_id),
{
    let a = u64_hash_writes(id1) + str_hash_writes(title) + str_hash_writes(app_id);
    let b = u64_hash_writes(id2) + str_hash_writes(title) + str_hash_writes(app_id);
    let n = u64_hash_writes(id1).len();
    assert(a.take(n as int) =~= u64_hash_writes(id1));
    assert(b.take(n as int) =~= u64_hash_writes(id2));
}

/// Law: adding one window to the list changes the signature by exactly that
/// window's hash, a hash that the window's id enters.
pub proof fn law_signature_of_added_window(ws: Seq<(u64, Seq<char>, Seq<char>)>, id: u64, title: Seq<char>, app_id: Seq<char>)
    ensures
        signature_of(ws.push((id, title, app_id))) == signature_of(ws) ^ DefaultHasher::spec_finish(
            u64_hash_writes(id) + str_hash_writes(title) + str_hash_writes(app_id),
        ),
{
    law_window_hash_covers_id(id, title, app_id);
    assert(ws.push((id, title, app_id)).drop_last() =~= ws);
}

/// Law: the signature of an empty window list is always the same (zero).
pub proof fn law_empty_signature()
    ensures
        signature_of(Seq::<(u64, Seq<char>, Seq<char>)>::empty()) == 0,
{
}

} // verus!
