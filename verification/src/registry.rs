//! The watches that are armed: which handle stands for which path.
//!
//! A watch fires once. Its handle is taken out of the registry when its event
//! is looked up, and the path comes back under a fresh handle when the watch
//! has been set up again. No path is ever armed under two handles.

use std::collections::HashMap;
use vstd::prelude::*;
use vstd::std_specs::hash::spec_hash_map_iter;
use vstd::std_specs::iter::IteratorSpec;

verus! {

broadcast use vstd::std_specs::hash::group_hash_axioms;

/// The handles under which `path` is armed in `armed`.
pub open spec fn handles_of(armed: Map<i32, Seq<char>>, path: Seq<char>) -> Set<i32> {
    Set::new(|handle: i32| armed.contains_key(handle) && armed[handle] == path)
}

/// Whether no path is armed under two handles at once.
pub open spec fn one_handle_per_path(armed: Map<i32, Seq<char>>) -> bool {
    forall|a: i32, b: i32|
        armed.contains_key(a) && armed.contains_key(b) && armed[a] == armed[b] ==> a == b
}

/// The watches after `path` has been armed under `handle`: the path has this
/// handle and no other, and the handle stands for this path and no other.
pub open spec fn with_watch(armed: Map<i32, Seq<char>>, handle: i32, path: Seq<char>) -> Map<
    i32,
    Seq<char>,
> {
    armed.remove_keys(handles_of(armed, path)).insert(handle, path)
}

/// The map from each handle to the text of its path.
spec fn paths(entries: Map<i32, String>) -> Map<i32, Seq<char>> {
    Map::new(|handle: i32| entries.contains_key(handle), |handle: i32| entries[handle]@)
}

/// Looks for the handle under which `path` is armed.
fn handle_of(entries: &HashMap<i32, String>, path: &String) -> (r: Option<i32>)
    ensures
        match r {
            Some(handle) => handles_of(paths(entries@), path@).contains(handle),
            None => handles_of(paths(entries@), path@) == Set::<i32>::empty(),
        },
{
    let mut found: Option<i32> = None;
    for pair in it: entries.iter()
        invariant
            it.seq() == spec_hash_map_iter(entries).remaining(),
            match found {
                Some(handle) => entries@.contains_key(handle) && entries@[handle]@ == path@,
                None => forall|i: int| 0 <= i < it.index() ==> (*it.seq()[i].1)@ != path@,
            },
    {
        let (handle, armed) = pair;
        if *armed == *path {
            found = Some(*handle);
        }
    }
    proof {
        if found is None {
            let all = spec_hash_map_iter(entries).remaining();
            assert forall|handle: i32| entries@.contains_key(handle) implies entries@[handle]@
                != path@ by {
                assert(all.contains((&handle, &entries@[handle])));
                let i = choose|i: int| 0 <= i < all.len() && all[i] == (&handle, &entries@[handle]);
                assert((*all[i].1)@ != path@);
            }
            assert(handles_of(paths(entries@), path@) =~= Set::<i32>::empty());
        }
    }
    found
}

/// Maps the handle of every armed watch to the path that it watches.
pub struct WatchRegistry {
    entries: HashMap<i32, String>,
}

impl View for WatchRegistry {
    type V = Map<i32, Seq<char>>;

    closed spec fn view(&self) -> Map<i32, Seq<char>> {
        paths(self.entries@)
    }
}

impl WatchRegistry {
    #[verifier::type_invariant]
    spec fn inv(self) -> bool {
        one_handle_per_path(paths(self.entries@))
    }

    /// A registry in which nothing is armed.
    pub fn new() -> (r: WatchRegistry)
        ensures
            r@ == Map::<i32, Seq<char>>::empty(),
    {
        let entries: HashMap<i32, String> = HashMap::new();
        assert(paths(entries@) =~= Map::<i32, Seq<char>>::empty());
        WatchRegistry { entries }
    }

    /// Records that `path` is now watched under `handle`. Whatever stood
    /// under that handle before is replaced, and any other handle under
    /// which the path was armed is dropped.
    pub fn arm(&mut self, handle: i32, path: String)
        ensures
            final(self)@ == with_watch(old(self)@, handle, path@),
            one_handle_per_path(final(self)@),
    {
        proof {
            use_type_invariant(&*self);
        }
        let ghost before = paths(self.entries@);
        let other: Option<i32> = handle_of(&self.entries, &path);
        let mut entries: HashMap<i32, String> = HashMap::new();
        assert(paths(entries@) =~= Map::<i32, Seq<char>>::empty());
        core::mem::swap(&mut self.entries, &mut entries);
        if let Some(stale) = other {
            entries.remove(&stale);
            assert(handles_of(before, path@) =~= set![stale]);
        }
        entries.insert(handle, path);
        proof {
            assert(paths(entries@) =~= with_watch(before, handle, path@));
            law_arm_keeps_one_handle(before, handle, path@);
        }
        self.entries = entries;
    }

    /// Takes the watch `handle` out of the registry and returns the path
    /// that it watched. A handle that is not armed leaves the registry as it
    /// is: its event is to be ignored.
    pub fn disarm(&mut self, handle: i32) -> (r: Option<String>)
        ensures
            match r {
                Some(path) => old(self)@.contains_key(handle) && path@ == old(self)@[handle],
                None => !old(self)@.contains_key(handle),
            },
            final(self)@ == old(self)@.remove(handle),
            one_handle_per_path(final(self)@),
    {
        proof {
            use_type_invariant(&*self);
        }
        let mut entries: HashMap<i32, String> = HashMap::new();
        assert(paths(entries@) =~= Map::<i32, Seq<char>>::empty());
        core::mem::swap(&mut self.entries, &mut entries);
        let r = entries.remove(&handle);
        assert(paths(entries@) =~= old(self)@.remove(handle));
        self.entries = entries;
        r
    }

    /// Whether a watch is armed under `handle`.
    pub fn contains(&self, handle: i32) -> (r: bool)
        ensures
            r == self@.contains_key(handle),
    {
        self.entries.contains_key(&handle)
    }

    /// The number of armed watches.
    pub fn len(&self) -> (r: usize)
        ensures
            self@.dom().finite(),
            r == self@.dom().len(),
            one_handle_per_path(self@),
    {
        proof {
            use_type_invariant(self);
            assert(self@.dom() =~= self.entries@.dom());
        }
        self.entries.len()
    }
}

/// Taking a handle out a second time finds nothing and changes nothing.
pub proof fn law_disarm_twice(armed: Map<i32, Seq<char>>, handle: i32)
    ensures
        !armed.remove(handle).contains_key(handle),
        armed.remove(handle).remove(handle) == armed.remove(handle),
{
    assert(armed.remove(handle).remove(handle) =~= armed.remove(handle));
}

/// Arming keeps every path at one handle at most, whatever was armed before
/// and whatever the handle: the path that is armed has the new handle and
/// no other.
pub proof fn law_arm_keeps_one_handle(armed: Map<i32, Seq<char>>, handle: i32, path: Seq<char>)
    requires
        one_handle_per_path(armed),
    ensures
        one_handle_per_path(with_watch(armed, handle, path)),
        handles_of(with_watch(armed, handle, path), path) == set![handle],
{
    let after = with_watch(armed, handle, path);
    assert(handles_of(after, path) =~= set![handle]);
}

/// A path whose only watch has fired is armed under no handle; armed again
/// under a handle that is not in use, it is armed under that handle and no
/// other, and every other watch is as it was.
pub proof fn law_rearm_once(armed: Map<i32, Seq<char>>, fired: i32, fresh: i32)
    requires
        one_handle_per_path(armed),
        armed.contains_key(fired),
        !armed.remove(fired).contains_key(fresh),
    ensures
        handles_of(armed, armed[fired]) == set![fired],
        handles_of(armed.remove(fired), armed[fired]) == Set::<i32>::empty(),
        with_watch(armed.remove(fired), fresh, armed[fired]) == armed.remove(fired).insert(
            fresh,
            armed[fired],
        ),
        handles_of(with_watch(armed.remove(fired), fresh, armed[fired]), armed[fired])
            == set![fresh],
{
    let path = armed[fired];
    let left = armed.remove(fired);
    assert(handles_of(armed, path) =~= set![fired]);
    assert(handles_of(left, path) =~= Set::<i32>::empty());
    assert(with_watch(left, fresh, path) =~= left.insert(fresh, path));
    assert(handles_of(with_watch(left, fresh, path), path) =~= set![fresh]);
}

} // verus!
