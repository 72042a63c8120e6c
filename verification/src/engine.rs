//! The prune engine: the statistics accumulator, the matcher, and the
//! traversal that turns a tree and three deny-lists into a deletion
//! plan plus final statistics.
//!
//! The engine performs a pre-order walk of the given [`FsTree`]. A
//! matched entry is planned for deletion and the walk does not descend
//! into it; the files inside a matched directory are accounted by a
//! pre-deletion sub-walk instead, so each file is counted exactly once.
//! The caller applies the plan to the real filesystem in order and must
//! stop at the first failing deletion.

use vstd::prelude::*;

use crate::rules::RuleSet;
use crate::tree::FsTree;
use crate::tree::lemma_files_le_entries;
use crate::tree::lemma_files_le_entries_upto;
use crate::tree::lemma_upto_monotone;
use crate::tree::total_entries;
use crate::tree::total_entries_upto;
use crate::tree::total_files;
use crate::tree::total_files_upto;
use crate::tree::total_size;
use crate::tree::total_size_upto;

verus! {

broadcast use vstd::std_specs::vec::group_vec_axioms;

/// Aggregate statistics for one pruning run.
pub struct Stats {
    /// Total bytes reclaimed by deletions.
    pub size_removed: u64,
    /// Entries observed during the run, each counted once.
    pub files_total: u64,
    /// Regular files deleted, including those inside removed
    /// directories.
    pub files_removed: u64,
}

impl Stats {
    /// A fresh accumulator with every counter at zero.
    pub fn new() -> (s: Stats)
        ensures
            s.size_removed == 0,
            s.files_total == 0,
            s.files_removed == 0,
    {
        Stats { size_removed: 0, files_total: 0, files_removed: 0 }
    }

    /// The pre-deletion accounting sub-walk: adds every regular file
    /// contained in `d` (and `d` itself when it is a file) to the
    /// removed-file count, the observed count, and the removed bytes.
    #[verifier::loop_isolation(false)]
    pub fn dir(&mut self, d: &FsTree)
        requires
            old(self).size_removed + total_size(*d) <= u64::MAX,
            old(self).files_total + total_files(*d) <= u64::MAX,
            old(self).files_removed + total_files(*d) <= u64::MAX,
        ensures
            final(self).size_removed == old(self).size_removed + total_size(*d),
            final(self).files_total == old(self).files_total + total_files(*d),
            final(self).files_removed == old(self).files_removed + total_files(*d),
        decreases *d,
    {
        match d {
            FsTree::File { size, .. } => {
                self.size_removed = self.size_removed + *size;
                self.files_total = self.files_total + 1;
                self.files_removed = self.files_removed + 1;
            },
            FsTree::Dir { entries, .. } => {
                let mut i: usize = 0;
                while i < entries.len()
                    invariant
                        i <= entries@.len(),
                        total_size(*d) == total_size_upto(entries@, entries@.len() as int),
                        total_files(*d) == total_files_upto(entries@, entries@.len() as int),
                        old(self).size_removed + total_size(*d) <= u64::MAX,
                        old(self).files_total + total_files(*d) <= u64::MAX,
                        old(self).files_removed + total_files(*d) <= u64::MAX,
                        self.size_removed == old(self).size_removed + total_size_upto(
                            entries@,
                            i as int,
                        ),
                        self.files_total == old(self).files_total + total_files_upto(
                            entries@,
                            i as int,
                        ),
                        self.files_removed == old(self).files_removed + total_files_upto(
                            entries@,
                            i as int,
                        ),
                    decreases entries@.len() - i,
                {
                    proof {
                        lemma_upto_monotone(entries@, i as int + 1, entries@.len() as int);
                    }
                    self.dir(&entries[i]);
                    i = i + 1;
                }
            },
        }
    }
}

/// One planned deletion: the path from the walk root, as name
/// components, and whether the entry is a directory (so the caller
/// knows to delete recursively).
pub struct Deletion {
    pub path: Vec<String>,
    pub is_dir: bool,
}

/// A planned deletion read through its mathematical view.
pub open spec fn deletion_view(d: Deletion) -> (Seq<Seq<char>>, bool) {
    (d.path.deep_view(), d.is_dir)
}

/// `ds`, read through views, is exactly the planned item list `items`.
pub open spec fn plan_is(ds: Seq<Deletion>, items: Seq<(Seq<Seq<char>>, bool)>) -> bool {
    &&& ds.len() == items.len()
    &&& forall|i: int| 0 <= i < ds.len() ==> deletion_view(ds[i]) == items[i]
}

/// `after` is `before` with deletions for `added` appended.
pub open spec fn plan_extends(
    before: Seq<Deletion>,
    after: Seq<Deletion>,
    added: Seq<(Seq<Seq<char>>, bool)>,
) -> bool {
    &&& after.len() == before.len() + added.len()
    &&& forall|i: int| 0 <= i < before.len() ==> after[i] == before[i]
    &&& forall|i: int| 0 <= i < added.len() ==> deletion_view(after[before.len() + i]) == added[i]
}

/// Holds the walk root and the three deny-list categories for one run.
pub struct Pruner {
    /// The root path the caller walks and deletes beneath.
    pub dir: String,
    /// Directory names to prune.
    pub dirs: RuleSet,
    /// File names to prune.
    pub files: RuleSet,
    /// File-name suffixes to prune.
    pub exts: RuleSet,
}

impl Pruner {
    /// Packs the root path and the three deny-list categories.
    pub fn new(dir: &str, dirs: RuleSet, files: RuleSet, exts: RuleSet) -> (p: Pruner)
        ensures
            p.dir@ == dir@,
            p.dirs == dirs,
            p.files == files,
            p.exts == exts,
    {
        Pruner { dir: dir.to_owned(), dirs, files, exts }
    }

    /// What the matcher decides: a directory is pruned exactly when its
    /// name is a directory rule; a file exactly when its name is a file
    /// rule or ends in a suffix rule. Each category consults its own
    /// rule set only.
    pub open spec fn spec_should_prune(&self, name: Seq<char>, is_dir: bool) -> bool {
        if is_dir {
            self.dirs.has(name)
        } else {
            self.files.has(name) || self.exts.has_suffix_of(name)
        }
    }

    /// The matcher applied to a tree entry.
    pub open spec fn spec_matches(&self, t: FsTree) -> bool {
        self.spec_should_prune(t.spec_name(), t.spec_is_dir())
    }

    /// Decides prune-eligibility for one entry. A pure function of the
    /// rule sets and the entry: the result is pinned to
    /// [`Pruner::spec_should_prune`], so repeated calls on the same
    /// inputs agree.
    pub fn should_prune(&self, name: &str, is_dir: bool) -> (r: bool)
        ensures
            r == self.spec_should_prune(name@, is_dir),
    {
        if is_dir {
            return self.dirs.contains(name);
        }
        self.files.contains(name) || self.exts.matches_suffix(name)
    }
}

/// Regular files the run removes from the tree `t`: all files inside a
/// matched entry, and nothing under an unmatched file or beyond an
/// unmatched directory's own children.
pub open spec fn removed_files(p: Pruner, t: FsTree) -> nat
    decreases t, 0int,
{
    if p.spec_matches(t) {
        total_files(t)
    } else {
        match t {
            FsTree::File { .. } => 0,
            FsTree::Dir { entries, .. } => removed_files_upto(p, entries@, entries@.len() as int),
        }
    }
}

/// Removed files within the first `n` subtrees of `s`.
pub open spec fn removed_files_upto(p: Pruner, s: Seq<FsTree>, n: int) -> nat
    decreases s, n,
{
    if n <= 0 || s.len() < n {
        0
    } else {
        removed_files_upto(p, s, n - 1) + removed_files(p, s[n - 1])
    }
}

/// Bytes the run reclaims from the tree `t`.
pub open spec fn removed_size(p: Pruner, t: FsTree) -> nat
    decreases t, 0int,
{
    if p.spec_matches(t) {
        total_size(t)
    } else {
        match t {
            FsTree::File { .. } => 0,
            FsTree::Dir { entries, .. } => removed_size_upto(p, entries@, entries@.len() as int),
        }
    }
}

/// Reclaimed bytes within the first `n` subtrees of `s`.
pub open spec fn removed_size_upto(p: Pruner, s: Seq<FsTree>, n: int) -> nat
    decreases s, n,
{
    if n <= 0 || s.len() < n {
        0
    } else {
        removed_size_upto(p, s, n - 1) + removed_size(p, s[n - 1])
    }
}

/// Entries the run observes in the tree `t`, each exactly once: every
/// entry the outer walk visits, plus the files a pre-deletion sub-walk
/// accounts inside a matched directory, into which the outer walk does
/// not descend.
pub open spec fn scanned(p: Pruner, t: FsTree) -> nat
    decreases t, 0int,
{
    match t {
        FsTree::File { .. } => 1,
        FsTree::Dir { entries, .. } => {
            if p.spec_matches(t) {
                1 + total_files(t)
            } else {
                1 + scanned_upto(p, entries@, entries@.len() as int)
            }
        },
    }
}

/// Observed entries within the first `n` subtrees of `s`.
pub open spec fn scanned_upto(p: Pruner, s: Seq<FsTree>, n: int) -> nat
    decreases s, n,
{
    if n <= 0 || s.len() < n {
        0
    } else {
        scanned_upto(p, s, n - 1) + scanned(p, s[n - 1])
    }
}

/// The deletions the run performs on the tree `t`, in pre-order: a
/// matched entry is planned (with its component path `prefix` extended
/// by its own name) and its subtree is not walked further.
pub open spec fn plan_spec(p: Pruner, t: FsTree, prefix: Seq<Seq<char>>) -> Seq<
    (Seq<Seq<char>>, bool),
>
    decreases t, 0int,
{
    let here = prefix.push(t.spec_name());
    if p.spec_matches(t) {
        seq![(here, t.spec_is_dir())]
    } else {
        match t {
            FsTree::File { .. } => Seq::empty(),
            FsTree::Dir { entries, .. } => plan_upto(p, entries@, here, entries@.len() as int),
        }
    }
}

/// Planned deletions within the first `n` subtrees of `s`, each child
/// walked under the component path `prefix`.
pub open spec fn plan_upto(p: Pruner, s: Seq<FsTree>, prefix: Seq<Seq<char>>, n: int) -> Seq<
    (Seq<Seq<char>>, bool),
>
    decreases s, n,
{
    if n <= 0 || s.len() < n {
        Seq::empty()
    } else {
        plan_upto(p, s, prefix, n - 1) + plan_spec(p, s[n - 1], prefix)
    }
}

/// Prefix sums of the run's measures only grow as the prefix grows.
pub proof fn lemma_run_upto_monotone(p: Pruner, s: Seq<FsTree>, n1: int, n2: int)
    requires
        n1 <= n2,
        n2 <= s.len(),
    ensures
        scanned_upto(p, s, n1) <= scanned_upto(p, s, n2),
        removed_files_upto(p, s, n1) <= removed_files_upto(p, s, n2),
        removed_size_upto(p, s, n1) <= removed_size_upto(p, s, n2),
    decreases n2 - n1,
{
    if n1 < n2 {
        lemma_run_upto_monotone(p, s, n1, n2 - 1);
    }
}

/// The run's measures never exceed the tree's own: no more entries are
/// observed than the tree holds, no more files removed than it
/// contains, no more bytes reclaimed than it occupies.
pub proof fn lemma_run_bounds(p: Pruner, t: FsTree)
    ensures
        scanned(p, t) <= total_entries(t),
        removed_files(p, t) <= total_files(t),
        removed_size(p, t) <= total_size(t),
    decreases t, 0int,
{
    lemma_files_le_entries(t);
    match t {
        FsTree::File { .. } => {},
        FsTree::Dir { entries, .. } => {
            if p.spec_matches(t) {
                lemma_files_le_entries_upto(entries@, entries@.len() as int);
            } else {
                lemma_run_bounds_upto(p, entries@, entries@.len() as int);
            }
        },
    }
}

/// Prefix form of [`lemma_run_bounds`].
pub proof fn lemma_run_bounds_upto(p: Pruner, s: Seq<FsTree>, n: int)
    ensures
        scanned_upto(p, s, n) <= total_entries_upto(s, n),
        removed_files_upto(p, s, n) <= total_files_upto(s, n),
        removed_size_upto(p, s, n) <= total_size_upto(s, n),
    decreases s, n,
{
    if 0 < n && n <= s.len() {
        lemma_run_bounds_upto(p, s, n - 1);
        lemma_run_bounds(p, s[n - 1]);
    }
}

/// Appending plans in two steps appends their items in order.
proof fn lemma_plan_extends_trans(
    before: Seq<Deletion>,
    mid: Seq<Deletion>,
    after: Seq<Deletion>,
    a: Seq<(Seq<Seq<char>>, bool)>,
    b: Seq<(Seq<Seq<char>>, bool)>,
)
    requires
        plan_extends(before, mid, a),
        plan_extends(mid, after, b),
    ensures
        plan_extends(before, after, a + b),
{
    assert forall|i: int| 0 <= i < (a + b).len() implies deletion_view(
        after[before.len() + i],
    ) == (a + b)[i] by {
        if i < a.len() {
            assert(after[before.len() + i] == mid[before.len() + i]);
        } else {
            assert(after[before.len() + i] == after[mid.len() + (i - a.len())]);
        }
    }
}

/// A value-equal copy of a component path.
fn clone_path(p: &Vec<String>) -> (r: Vec<String>)
    ensures
        r@ == p@,
{
    let mut r: Vec<String> = Vec::new();
    let mut i: usize = 0;
    while i < p.len()
        invariant
            i <= p@.len(),
            r@.len() == i,
            forall|j: int| 0 <= j < i ==> r@[j] == p@[j],
        decreases p@.len() - i,
    {
        r.push(p[i].clone());
        i = i + 1;
    }
    assert(r@ =~= p@);
    r
}

impl Pruner {
    /// One step of the outer pre-order walk, rooted at the entry `t`
    /// whose parent's component path is in `path`: decides `t`, updates
    /// the statistics, extends the deletion plan, and walks the
    /// children of an unmatched directory.
    #[verifier::loop_isolation(false)]
    fn prune_node(&self, t: &FsTree, path: &mut Vec<String>, stats: &mut Stats, plan: &mut Vec<
        Deletion,
    >)
        requires
            old(stats).files_total + scanned(*self, *t) <= u64::MAX,
            old(stats).files_removed + removed_files(*self, *t) <= u64::MAX,
            old(stats).size_removed + removed_size(*self, *t) <= u64::MAX,
        ensures
            final(stats).files_total == old(stats).files_total + scanned(*self, *t),
            final(stats).files_removed == old(stats).files_removed + removed_files(*self, *t),
            final(stats).size_removed == old(stats).size_removed + removed_size(*self, *t),
            final(path)@ == old(path)@,
            plan_extends(
                old(plan)@,
                final(plan)@,
                plan_spec(*self, *t, old(path).deep_view()),
            ),
        decreases *t,
    {
        let ghost prefix = old(path).deep_view();
        let ghost here = prefix.push(t.spec_name());
        let matched = self.should_prune(t.name().as_str(), t.is_dir());
        let name_owned = t.name().clone();
        path.push(name_owned);
        proof {
            assert(path.deep_view() =~= here);
        }
        stats.files_total = stats.files_total + 1;
        if matched {
            match t {
                FsTree::Dir { .. } => {
                    stats.dir(t);
                    let cp = clone_path(path);
                    proof {
                        assert(cp.deep_view() =~= here);
                    }
                    plan.push(Deletion { path: cp, is_dir: true });
                },
                FsTree::File { size, .. } => {
                    stats.files_removed = stats.files_removed + 1;
                    stats.size_removed = stats.size_removed + *size;
                    let cp = clone_path(path);
                    proof {
                        assert(cp.deep_view() =~= here);
                    }
                    plan.push(Deletion { path: cp, is_dir: false });
                },
            }
        } else {
            match t {
                FsTree::Dir { entries, .. } => {
                    let mut i: usize = 0;
                    while i < entries.len()
                        invariant
                            i <= entries@.len(),
                            stats.files_total == old(stats).files_total + 1 + scanned_upto(
                                *self,
                                entries@,
                                i as int,
                            ),
                            stats.files_removed == old(stats).files_removed + removed_files_upto(
                                *self,
                                entries@,
                                i as int,
                            ),
                            stats.size_removed == old(stats).size_removed + removed_size_upto(
                                *self,
                                entries@,
                                i as int,
                            ),
                            path@.len() == old(path)@.len() + 1,
                            path@.drop_last() == old(path)@,
                            path.deep_view() == here,
                            plan_extends(
                                old(plan)@,
                                plan@,
                                plan_upto(*self, entries@, here, i as int),
                            ),
                        decreases entries@.len() - i,
                    {
                        let ghost plan_before = plan@;
                        proof {
                            lemma_run_upto_monotone(
                                *self,
                                entries@,
                                i as int + 1,
                                entries@.len() as int,
                            );
                        }
                        self.prune_node(&entries[i], path, stats, plan);
                        proof {
                            lemma_plan_extends_trans(
                                old(plan)@,
                                plan_before,
                                plan@,
                                plan_upto(*self, entries@, here, i as int),
                                plan_spec(*self, entries@[i as int], here),
                            );
                        }
                        i = i + 1;
                    }
                },
                FsTree::File { .. } => {},
            }
        }
        let _ = path.pop();
        proof {
            assert(path@ =~= old(path)@);
        }
    }

    /// One whole pruning run over the tree `root`: a pre-order walk that
    /// decides every entry, never descends into a matched directory,
    /// and accounts every observed entry exactly once. Returns the
    /// final statistics and the deletions to apply, in walk order.
    pub fn prune(&self, root: &FsTree) -> (r: (Stats, Vec<Deletion>))
        requires
            total_entries(*root) <= u64::MAX,
            total_size(*root) <= u64::MAX,
        ensures
            r.0.files_total == scanned(*self, *root),
            r.0.files_removed == removed_files(*self, *root),
            r.0.size_removed == removed_size(*self, *root),
            plan_is(r.1@, plan_spec(*self, *root, Seq::empty())),
    {
        proof {
            lemma_run_bounds(*self, *root);
            lemma_files_le_entries(*root);
        }
        let mut stats = Stats::new();
        let mut path: Vec<String> = Vec::new();
        let mut plan: Vec<Deletion> = Vec::new();
        proof {
            assert(path.deep_view() =~= Seq::<Seq<char>>::empty());
        }
        self.prune_node(root, &mut path, &mut stats, &mut plan);
        (stats, plan)
    }
}

} // verus!
