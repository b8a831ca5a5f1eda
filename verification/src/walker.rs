//! Expansion of the paths to watch: each path that is given, followed by the
//! directories beneath it, depth first.
//!
//! The [`Walker`] never reads a directory. It names the next path to visit,
//! the caller lists the sub-directories of that path, and the walker decides
//! which of them are worth a visit.

use crate::text::{ends_with, has_suffix, opt_text, texts};
use vstd::prelude::*;

verus! {

/// Whether a directory of this path is left out: it is the working data of a
/// version control system, a store of dependencies, or build output.
pub open spec fn ignored(path: Seq<char>) -> bool {
    ||| has_suffix(path, "/.git"@)
    ||| has_suffix(path, "/.hg"@)
    ||| has_suffix(path, "/node_modules"@)
    ||| has_suffix(path, "/target"@)
}

/// Tells whether the directory `path` is left out of the expansion.
pub fn is_ignored(path: &str) -> (r: bool)
    ensures
        r == ignored(path@),
{
    ends_with(path, "/.git") || ends_with(path, "/.hg") || ends_with(path, "/node_modules")
        || ends_with(path, "/target")
}

/// The paths of `dirs` that are not left out, in their order.
pub open spec fn kept(dirs: Seq<Seq<char>>) -> Seq<Seq<char>>
    decreases dirs.len(),
{
    if dirs.len() == 0 {
        Seq::empty()
    } else if ignored(dirs[0]) {
        kept(dirs.drop_first())
    } else {
        seq![dirs[0]] + kept(dirs.drop_first())
    }
}

/// The texts of a stack of strings, from its top to its bottom.
spec fn top_down(stack: Seq<String>) -> Seq<Seq<char>> {
    Seq::new(stack.len(), |i: int| stack[stack.len() - 1 - i]@)
}

/// The state of an expansion in mathematical form.
pub struct WalkerView {
    /// The paths found so far, in the order of the walk.
    pub found: Seq<Seq<char>>,
    /// The paths that are still to be visited, the next one first.
    pub pending: Seq<Seq<char>>,
    /// Whether the caller owes the listing of the path visited last.
    pub visiting: bool,
}

impl WalkerView {
    /// The state after `files` were given: they are visited after all that
    /// is still to be visited.
    pub open spec fn on_process(self, files: Seq<Seq<char>>) -> WalkerView {
        WalkerView { pending: self.pending + files, ..self }
    }

    /// The state after the next visit, and the path that is visited: it is
    /// found, and its listing is owed. Without a path left to visit nothing
    /// is owed any more.
    pub open spec fn on_walk(self) -> (WalkerView, Option<Seq<char>>) {
        if self.pending.len() == 0 {
            (WalkerView { visiting: false, ..self }, None)
        } else {
            (
                WalkerView {
                    found: self.found.push(self.pending[0]),
                    pending: self.pending.drop_first(),
                    visiting: true,
                },
                Some(self.pending[0]),
            )
        }
    }

    /// The state after the caller has listed the sub-directories of the path
    /// visited last: those that are not left out are visited next, in the
    /// order of the listing, before anything else. A listing that is not
    /// owed changes nothing.
    pub open spec fn on_enter(self, subdirs: Seq<Seq<char>>) -> WalkerView {
        if self.visiting {
            WalkerView { pending: kept(subdirs) + self.pending, visiting: false, ..self }
        } else {
            self
        }
    }
}

/// Expands paths into the directories beneath them.
pub struct Walker {
    enriched: Vec<String>,
    stack: Vec<String>,
    visiting: bool,
}

impl View for Walker {
    type V = WalkerView;

    closed spec fn view(&self) -> WalkerView {
        WalkerView {
            found: texts(self.enriched@),
            pending: top_down(self.stack@),
            visiting: self.visiting,
        }
    }
}

impl Walker {
    /// A walk that has found nothing and has nothing to visit.
    pub fn new() -> (r: Walker)
        ensures
            r@ == (WalkerView { found: Seq::empty(), pending: Seq::empty(), visiting: false }),
    {
        let r = Walker { enriched: Vec::new(), stack: Vec::new(), visiting: false };
        assert(r@.found =~= Seq::empty());
        assert(r@.pending =~= Seq::empty());
        r
    }

    /// Gives the walk the paths `files` to visit, in their order, after all
    /// that is still to be visited. Each of them will be found, whatever its
    /// name.
    pub fn process(&mut self, files: &[String])
        ensures
            final(self)@ == old(self)@.on_process(texts(files@)),
    {
        let mut stack: Vec<String> = Vec::new();
        let n: usize = files.len();
        let mut i: usize = n;
        while i > 0
            invariant
                n == files@.len(),
                i <= n,
                top_down(stack@) == texts(files@).skip(i as int),
            decreases i,
        {
            i = i - 1;
            let ghost before = stack@;
            stack.push(files[i].clone());
            assert(top_down(stack@) =~= seq![files@[i as int]@] + top_down(before));
            assert(texts(files@).skip(i as int) =~= seq![files@[i as int]@] + texts(files@).skip(
                i + 1,
            ));
        }
        assert(texts(files@).skip(0) =~= texts(files@));
        let m: usize = self.stack.len();
        let mut j: usize = 0;
        while j < m
            invariant
                m == self.stack@.len(),
                j <= m,
                self.stack@ == old(self).stack@,
                self.enriched@ == old(self).enriched@,
                self.visiting == old(self).visiting,
                top_down(stack@) == top_down(self.stack@.take(j as int)) + texts(files@),
            decreases m - j,
        {
            let ghost before = stack@;
            stack.push(self.stack[j].clone());
            assert(top_down(stack@) =~= seq![self.stack@[j as int]@] + top_down(before));
            assert(top_down(self.stack@.take(j + 1)) =~= seq![self.stack@[j as int]@] + top_down(
                self.stack@.take(j as int),
            ));
            j = j + 1;
        }
        assert(self.stack@.take(m as int) =~= self.stack@);
        self.stack = stack;
    }

    /// Visits the next path, if there is one: it is found, and the caller is
    /// to list its sub-directories with `enter` if it is a directory.
    pub fn walk(&mut self) -> (r: Option<String>)
        ensures
            (final(self)@, opt_text(r)) == old(self)@.on_walk(),
    {
        match self.stack.pop() {
            None => {
                self.visiting = false;
                assert(self@.pending =~= old(self)@.pending);
                None
            },
            Some(path) => {
                self.enriched.push(path.clone());
                self.visiting = true;
                assert(self@.found =~= old(self)@.found.push(path@));
                assert(self@.pending =~= old(self)@.pending.drop_first());
                Some(path)
            },
        }
    }

    /// Takes the sub-directories of the path visited last, in the order in
    /// which the directory lists them.
    pub fn enter(&mut self, subdirs: &[String])
        ensures
            final(self)@ == old(self)@.on_enter(texts(subdirs@)),
    {
        if !self.visiting {
            return ;
        }
        let n: usize = subdirs.len();
        let mut i: usize = n;
        assert(texts(subdirs@).skip(n as int) =~= Seq::<Seq<char>>::empty());
        assert(Seq::<Seq<char>>::empty() + top_down(self.stack@) =~= top_down(self.stack@));
        while i > 0
            invariant
                n == subdirs@.len(),
                i <= n,
                self.enriched@ == old(self).enriched@,
                self.visiting == old(self).visiting,
                top_down(self.stack@) == kept(texts(subdirs@).skip(i as int)) + top_down(
                    old(self).stack@,
                ),
            decreases i,
        {
            i = i - 1;
            let ghost rest = texts(subdirs@).skip(i as int);
            assert(rest.drop_first() =~= texts(subdirs@).skip(i + 1));
            assert(rest[0] == subdirs@[i as int]@);
            if !is_ignored(subdirs[i].as_str()) {
                let ghost before = self.stack@;
                self.stack.push(subdirs[i].clone());
                assert(top_down(self.stack@) =~= seq![subdirs@[i as int]@] + top_down(before));
                assert(seq![rest[0]] + (kept(rest.drop_first()) + top_down(old(self).stack@))
                    =~= seq![rest[0]] + kept(rest.drop_first()) + top_down(old(self).stack@));
            }
        }
        assert(texts(subdirs@).skip(0) =~= texts(subdirs@));
        self.visiting = false;
    }

    /// The paths found so far, in the order of the walk.
    pub fn enriched(&self) -> (r: &Vec<String>)
        ensures
            texts(r@) == self@.found,
    {
        &self.enriched
    }

    /// Ends the walk and hands out the paths that it found.
    pub fn into_enriched(self) -> (r: Vec<String>)
        ensures
            texts(r@) == self@.found,
    {
        self.enriched
    }
}

/// A tree of directories, as the walk gets to see it: the path of each
/// directory, with the paths of its sub-directories in the order in which
/// the directory lists them. A path that is no key is no directory.
pub struct Tree {
    pub listing: Map<Seq<char>, Seq<Seq<char>>>,
}

impl Tree {
    /// Whether `path` is a directory.
    pub open spec fn is_dir(self, path: Seq<char>) -> bool {
        self.listing.contains_key(path)
    }

    /// The sub-directories of `path` that are not left out.
    pub open spec fn children(self, path: Seq<char>) -> Seq<Seq<char>> {
        kept(self.listing[path])
    }

    /// Whether no directory lies more than `depth` levels beneath `paths`.
    pub open spec fn within(self, paths: Seq<Seq<char>>, depth: nat) -> bool
        decreases depth, paths.len(),
    {
        if paths.len() == 0 {
            true
        } else {
            &&& self.is_dir(paths[0]) ==> depth > 0 && self.within(
                self.children(paths[0]),
                (depth - 1) as nat,
            )
            &&& self.within(paths.drop_first(), depth)
        }
    }

    /// Each of `paths` in turn, each followed by the directories beneath it:
    /// depth first, in the order of the listings, without the directories
    /// that are left out and without what lies beneath those. Directories
    /// more than `depth` levels down are cut off.
    pub open spec fn expansion(self, paths: Seq<Seq<char>>, depth: nat) -> Seq<Seq<char>>
        decreases depth, paths.len(),
    {
        if paths.len() == 0 {
            Seq::empty()
        } else {
            let beneath = if self.is_dir(paths[0]) && depth > 0 {
                self.expansion(self.children(paths[0]), (depth - 1) as nat)
            } else {
                Seq::empty()
            };
            seq![paths[0]] + beneath + self.expansion(paths.drop_first(), depth)
        }
    }
}

impl WalkerView {
    /// One round of a walk through `tree`: the next path is visited, and
    /// listed if it is a directory.
    pub open spec fn round(self, tree: Tree) -> WalkerView {
        let (visited, path) = self.on_walk();
        match path {
            Some(dir) => if tree.is_dir(dir) {
                visited.on_enter(tree.listing[dir])
            } else {
                visited
            },
            None => visited,
        }
    }

    /// The state after `n` rounds of a walk through `tree`.
    pub open spec fn rounds(self, tree: Tree, n: nat) -> WalkerView
        decreases n,
    {
        if n == 0 {
            self
        } else {
            self.round(tree).rounds(tree, (n - 1) as nat)
        }
    }
}

/// Rounds add up.
proof fn lemma_rounds_add(s: WalkerView, tree: Tree, a: nat, b: nat)
    ensures
        s.rounds(tree, a + b) == s.rounds(tree, a).rounds(tree, b),
    decreases a,
{
    if a > 0 {
        lemma_rounds_add(s.round(tree), tree, (a - 1) as nat, b);
    }
}

/// A walk that has `paths` to visit first finds their expansion in as many
/// rounds as the expansion is long, and is then left with what it had to
/// visit after them.
proof fn lemma_rounds_expand(
    s: WalkerView,
    tree: Tree,
    paths: Seq<Seq<char>>,
    rest: Seq<Seq<char>>,
    depth: nat,
)
    requires
        s.pending == paths + rest,
        tree.within(paths, depth),
    ensures
        ({
            let out = tree.expansion(paths, depth);
            let end = s.rounds(tree, out.len());
            end.found == s.found + out && end.pending == rest
        }),
    decreases depth, paths.len(),
{
    let out = tree.expansion(paths, depth);
    if paths.len() == 0 {
        assert(s.found + out =~= s.found);
        assert(paths + rest =~= rest);
    } else {
        let first = paths[0];
        let others = paths.drop_first();
        let s1 = s.round(tree);
        assert(s.pending[0] == first);
        assert(s.pending.drop_first() =~= others + rest);
        let beneath = if tree.is_dir(first) && depth > 0 {
            tree.expansion(tree.children(first), (depth - 1) as nat)
        } else {
            Seq::empty()
        };
        let later = tree.expansion(others, depth);
        assert(out == seq![first] + beneath + later);
        assert(s1.found == s.found.push(first));
        if tree.is_dir(first) {
            assert(s1.pending == tree.children(first) + (others + rest));
            lemma_rounds_expand(s1, tree, tree.children(first), others + rest, (depth - 1) as nat);
        }
        let s2 = s1.rounds(tree, beneath.len());
        assert(s2.found == s1.found + beneath);
        assert(s2.pending == others + rest);
        lemma_rounds_expand(s2, tree, others, rest, depth);
        let s3 = s2.rounds(tree, later.len());
        lemma_rounds_add(s1, tree, beneath.len(), later.len());
        assert(out.len() == 1 + beneath.len() + later.len());
        assert(s.rounds(tree, out.len()) == s1.rounds(tree, (out.len() - 1) as nat));
        assert(s.rounds(tree, out.len()) == s3);
        assert(s3.found =~= s.found + out);
    }
}

/// The walk computes the expansion. Given `paths`, and run through a tree in
/// which no directory lies more than `depth` levels beneath them, the walk
/// has found the expansion of `paths`, and nothing else, after as many
/// rounds as the expansion has entries; nothing is then left to visit.
pub proof fn law_walk_finds_expansion(tree: Tree, paths: Seq<Seq<char>>, depth: nat)
    requires
        tree.within(paths, depth),
    ensures
        ({
            let start = WalkerView { found: Seq::empty(), pending: Seq::empty(), visiting: false };
            let out = tree.expansion(paths, depth);
            let end = start.on_process(paths).rounds(tree, out.len());
            end.found == out && end.pending == Seq::<Seq<char>>::empty()
        }),
{
    let start = WalkerView { found: Seq::empty(), pending: Seq::empty(), visiting: false };
    let loaded = start.on_process(paths);
    assert(loaded.pending =~= paths + Seq::<Seq<char>>::empty());
    lemma_rounds_expand(loaded, tree, paths, Seq::empty(), depth);
    assert(Seq::<Seq<char>>::empty() + tree.expansion(paths, depth) =~= tree.expansion(
        paths,
        depth,
    ));
}

/// What is kept of a listing is what the listing holds and is not left out.
proof fn lemma_kept_members(dirs: Seq<Seq<char>>, path: Seq<char>)
    ensures
        kept(dirs).contains(path) <==> dirs.contains(path) && !ignored(path),
    decreases dirs.len(),
{
    if dirs.len() > 0 {
        let rest = dirs.drop_first();
        lemma_kept_members(rest, path);
        if dirs.contains(path) {
            let i = choose|i: int| 0 <= i < dirs.len() && dirs[i] == path;
            if i > 0 {
                assert(rest[i - 1] == path);
            }
        }
        if rest.contains(path) {
            let i = choose|i: int| 0 <= i < rest.len() && rest[i] == path;
            assert(dirs[i + 1] == path);
        }
        if ignored(dirs[0]) {
        } else {
            let k = seq![dirs[0]] + kept(rest);
            if k.contains(path) {
                let i = choose|i: int| 0 <= i < k.len() && k[i] == path;
                if i > 0 {
                    assert(kept(rest)[i - 1] == path);
                }
            }
            if kept(rest).contains(path) {
                let i = choose|i: int| 0 <= i < kept(rest).len() && kept(rest)[i] == path;
                assert(k[i + 1] == path);
            }
            if dirs[0] == path {
                assert(k[0] == path);
            }
        }
    }
}

/// Where an entry of an expansion comes from: it is one of the paths that
/// were given, or it is not left out and an earlier entry, the index of
/// which is returned, is a directory that lists it.
proof fn lemma_entry_origin(tree: Tree, paths: Seq<Seq<char>>, depth: nat, i: int) -> (j: int)
    requires
        0 <= i < tree.expansion(paths, depth).len(),
    ensures
        ({
            let out = tree.expansion(paths, depth);
            paths.contains(out[i]) || (!ignored(out[i]) && 0 <= j < i && tree.is_dir(out[j])
                && tree.listing[out[j]].contains(out[i]))
        }),
    decreases depth, paths.len(),
{
    let out = tree.expansion(paths, depth);
    let first = paths[0];
    let others = paths.drop_first();
    let beneath = if tree.is_dir(first) && depth > 0 {
        tree.expansion(tree.children(first), (depth - 1) as nat)
    } else {
        Seq::empty()
    };
    let later = tree.expansion(others, depth);
    assert(out == seq![first] + beneath + later);
    if i == 0 {
        assert(paths[0] == out[i]);
        0
    } else if i < 1 + beneath.len() {
        let j = lemma_entry_origin(tree, tree.children(first), (depth - 1) as nat, i - 1);
        assert(out[i] == beneath[i - 1]);
        if tree.children(first).contains(out[i]) {
            lemma_kept_members(tree.listing[first], out[i]);
            assert(out[0] == first);
            0
        } else {
            assert(out[j + 1] == beneath[j]);
            j + 1
        }
    } else {
        let k = i - 1 - beneath.len();
        let j = lemma_entry_origin(tree, others, depth, k);
        assert(out[i] == later[k]);
        if others.contains(out[i]) {
            let m = choose|m: int| 0 <= m < others.len() && others[m] == out[i];
            assert(paths[m + 1] == out[i]);
            0
        } else {
            assert(out[j + 1 + beneath.len()] == later[j]);
            j + 1 + beneath.len()
        }
    }
}

/// Every path that is given is an entry of its expansion; the index of the
/// entry is returned.
proof fn lemma_given_is_found(tree: Tree, paths: Seq<Seq<char>>, depth: nat, m: int) -> (k: int)
    requires
        0 <= m < paths.len(),
    ensures
        0 <= k < tree.expansion(paths, depth).len(),
        tree.expansion(paths, depth)[k] == paths[m],
    decreases paths.len(),
{
    let first = paths[0];
    let others = paths.drop_first();
    let beneath = if tree.is_dir(first) && depth > 0 {
        tree.expansion(tree.children(first), (depth - 1) as nat)
    } else {
        Seq::empty()
    };
    let later = tree.expansion(others, depth);
    assert(tree.expansion(paths, depth) == seq![first] + beneath + later);
    if m == 0 {
        0
    } else {
        let k = lemma_given_is_found(tree, others, depth, m - 1);
        1 + beneath.len() + k
    }
}

/// Where an entry of an expansion is a directory, each path that it lists
/// and that is not left out is a later entry; its index is returned.
proof fn lemma_child_is_found(
    tree: Tree,
    paths: Seq<Seq<char>>,
    depth: nat,
    i: int,
    child: Seq<char>,
) -> (k: int)
    requires
        tree.within(paths, depth),
        0 <= i < tree.expansion(paths, depth).len(),
        tree.is_dir(tree.expansion(paths, depth)[i]),
        tree.listing[tree.expansion(paths, depth)[i]].contains(child),
        !ignored(child),
    ensures
        i < k < tree.expansion(paths, depth).len(),
        tree.expansion(paths, depth)[k] == child,
    decreases depth, paths.len(),
{
    let out = tree.expansion(paths, depth);
    let first = paths[0];
    let others = paths.drop_first();
    let beneath = if tree.is_dir(first) && depth > 0 {
        tree.expansion(tree.children(first), (depth - 1) as nat)
    } else {
        Seq::empty()
    };
    let later = tree.expansion(others, depth);
    assert(out == seq![first] + beneath + later);
    if i == 0 {
        assert(out[0] == first);
        lemma_kept_members(tree.listing[first], child);
        let m = choose|m: int|
            0 <= m < tree.children(first).len() && tree.children(first)[m] == child;
        let k = lemma_given_is_found(tree, tree.children(first), (depth - 1) as nat, m);
        assert(out[1 + k] == beneath[k]);
        1 + k
    } else if i < 1 + beneath.len() {
        assert(out[i] == beneath[i - 1]);
        let k = lemma_child_is_found(tree, tree.children(first), (depth - 1) as nat, i - 1, child);
        assert(out[1 + k] == beneath[k]);
        1 + k
    } else {
        let at = i - 1 - beneath.len();
        assert(out[i] == later[at]);
        let k = lemma_child_is_found(tree, others, depth, at, child);
        assert(out[1 + beneath.len() + k] == later[k]);
        1 + beneath.len() + k
    }
}

/// A directory that is left out is kept out of the expansion, with all that
/// is reached through it alone: every entry of an expansion is one of the
/// paths that were given, or else is not left out and is listed by a
/// directory that is an earlier entry.
pub proof fn law_ignored_left_out(tree: Tree, paths: Seq<Seq<char>>, depth: nat)
    ensures
        ({
            let out = tree.expansion(paths, depth);
            forall|i: int|
                0 <= i < out.len() ==> paths.contains(#[trigger] out[i]) || (!ignored(out[i])
                    && exists|j: int|
                    0 <= j < i && tree.is_dir(out[j]) && tree.listing[out[j]].contains(out[i]))
        }),
{
    let out = tree.expansion(paths, depth);
    assert forall|i: int| 0 <= i < out.len() implies paths.contains(#[trigger] out[i]) || (!ignored(
        out[i],
    ) && exists|j: int|
        0 <= j < i && tree.is_dir(out[j]) && tree.listing[out[j]].contains(out[i])) by {
        let j = lemma_entry_origin(tree, paths, depth, i);
    }
}

/// The directories beside one that is left out are found: where an entry of
/// an expansion is a directory, every path that it lists and that is not
/// left out is a later entry. So is every path that was given an entry.
pub proof fn law_kept_directories_found(tree: Tree, paths: Seq<Seq<char>>, depth: nat)
    requires
        tree.within(paths, depth),
    ensures
        ({
            let out = tree.expansion(paths, depth);
            &&& forall|m: int| 0 <= m < paths.len() ==> out.contains(#[trigger] paths[m])
            &&& forall|i: int, child: Seq<char>|
                0 <= i < out.len() && tree.is_dir(out[i]) && #[trigger] tree.listing[out[i]].contains(
                    child,
                ) && !ignored(child) ==> exists|k: int| i < k < out.len() && out[k] == child
        }),
{
    let out = tree.expansion(paths, depth);
    assert forall|m: int| 0 <= m < paths.len() implies out.contains(#[trigger] paths[m]) by {
        let k = lemma_given_is_found(tree, paths, depth, m);
    }
    assert forall|i: int, child: Seq<char>|
        0 <= i < out.len() && tree.is_dir(out[i]) && #[trigger] tree.listing[out[i]].contains(child)
            && !ignored(child) implies exists|k: int| i < k < out.len() && out[k] == child by {
        let k = lemma_child_is_found(tree, paths, depth, i, child);
    }
}

} // verus!
