//! Laws of the prune engine, stated and proved over the same spec
//! functions that the executable contracts use.

use vstd::prelude::*;

use crate::engine::Pruner;
use crate::engine::plan_spec;
use crate::engine::plan_upto;
use crate::engine::removed_files;
use crate::engine::removed_files_upto;
use crate::engine::removed_size;
use crate::engine::removed_size_upto;
use crate::engine::scanned;
use crate::engine::scanned_upto;
use crate::tree::FsTree;
use crate::tree::total_entries;
use crate::tree::total_entries_upto;
use crate::tree::total_files;
use crate::tree::total_files_upto;
use crate::tree::total_size;
use crate::tree::total_size_upto;

verus! {

/// Matching is a pure function of the entry and the three rule sets:
/// two pruners that agree on their rule sets decide every entry alike,
/// however often they are asked and whatever else (such as the walk
/// root) differs between them.
pub proof fn lemma_match_is_pure(p1: Pruner, p2: Pruner, name: Seq<char>, is_dir: bool)
    requires
        p1.dirs == p2.dirs,
        p1.files == p2.files,
        p1.exts == p2.exts,
    ensures
        p1.spec_should_prune(name, is_dir) == p2.spec_should_prune(name, is_dir),
{
}

/// A directory entry is decided by the directory rules alone: two rule
/// configurations that agree on directory rules decide every directory
/// name alike, whatever their file-name and suffix rules hold.
pub proof fn lemma_dir_match_ignores_file_rules(p1: Pruner, p2: Pruner, name: Seq<char>)
    requires
        p1.dirs == p2.dirs,
    ensures
        p1.spec_should_prune(name, true) == p2.spec_should_prune(name, true),
{
}

/// A file entry is decided by the file-name and suffix rules alone: two
/// rule configurations that agree on those decide every file name
/// alike, whatever their directory rules hold.
pub proof fn lemma_file_match_ignores_dir_rules(p1: Pruner, p2: Pruner, name: Seq<char>)
    requires
        p1.files == p2.files,
        p1.exts == p2.exts,
    ensures
        p1.spec_should_prune(name, false) == p2.spec_should_prune(name, false),
{
}

/// Sum of a sequence of byte sizes.
pub open spec fn sum_u64(s: Seq<u64>) -> nat
    decreases s.len(),
{
    if s.len() == 0 {
        0
    } else {
        sum_u64(s.drop_last()) + s.last() as nat
    }
}

/// Sums add over concatenation.
proof fn lemma_sum_concat(a: Seq<u64>, b: Seq<u64>)
    ensures
        sum_u64(a + b) == sum_u64(a) + sum_u64(b),
    decreases b.len(),
{
    if b.len() == 0 {
        assert(a + b =~= a);
    } else {
        assert((a + b).drop_last() =~= a + b.drop_last());
        lemma_sum_concat(a, b.drop_last());
    }
}

/// The byte sizes of the regular files contained in `t`, in walk
/// order.
pub open spec fn contained_file_sizes(t: FsTree) -> Seq<u64>
    decreases t, 0int,
{
    match t {
        FsTree::File { size, .. } => seq![size],
        FsTree::Dir { entries, .. } => contained_file_sizes_upto(
            entries@,
            entries@.len() as int,
        ),
    }
}

/// Contained file sizes within the first `n` subtrees of `s`.
pub open spec fn contained_file_sizes_upto(s: Seq<FsTree>, n: int) -> Seq<u64>
    decreases s, n,
{
    if n <= 0 || s.len() < n {
        Seq::empty()
    } else {
        contained_file_sizes_upto(s, n - 1) + contained_file_sizes(s[n - 1])
    }
}

/// The byte sizes of exactly the regular files the run removes from
/// `t`, in walk order.
pub open spec fn removed_file_sizes(p: Pruner, t: FsTree) -> Seq<u64>
    decreases t, 0int,
{
    if p.spec_matches(t) {
        contained_file_sizes(t)
    } else {
        match t {
            FsTree::File { .. } => Seq::empty(),
            FsTree::Dir { entries, .. } => removed_file_sizes_upto(
                p,
                entries@,
                entries@.len() as int,
            ),
        }
    }
}

/// Removed file sizes within the first `n` subtrees of `s`.
pub open spec fn removed_file_sizes_upto(p: Pruner, s: Seq<FsTree>, n: int) -> Seq<u64>
    decreases s, n,
{
    if n <= 0 || s.len() < n {
        Seq::empty()
    } else {
        removed_file_sizes_upto(p, s, n - 1) + removed_file_sizes(p, s[n - 1])
    }
}

/// A tree's contained sizes list one entry per contained file, and sum
/// to its total size.
proof fn lemma_contained_sizes(t: FsTree)
    ensures
        contained_file_sizes(t).len() == total_files(t),
        sum_u64(contained_file_sizes(t)) == total_size(t),
    decreases t, 0int,
{
    match t {
        FsTree::File { size, .. } => {
            assert(seq![size].drop_last() =~= Seq::<u64>::empty());
            assert(sum_u64(Seq::<u64>::empty()) == 0);
        },
        FsTree::Dir { entries, .. } => {
            lemma_contained_sizes_upto(entries@, entries@.len() as int);
        },
    }
}

/// Prefix form of [`lemma_contained_sizes`].
proof fn lemma_contained_sizes_upto(s: Seq<FsTree>, n: int)
    ensures
        contained_file_sizes_upto(s, n).len() == total_files_upto(s, n),
        sum_u64(contained_file_sizes_upto(s, n)) == total_size_upto(s, n),
    decreases s, n,
{
    if 0 < n && n <= s.len() {
        lemma_contained_sizes_upto(s, n - 1);
        lemma_contained_sizes(s[n - 1]);
        lemma_sum_concat(contained_file_sizes_upto(s, n - 1), contained_file_sizes(s[n - 1]));
    }
}

/// The accounting invariant: a run never removes more files than it
/// observes, and the sizes of exactly the removed files — one list
/// entry per removed file — sum to the bytes reclaimed.
pub proof fn lemma_accounting(p: Pruner, t: FsTree)
    ensures
        removed_files(p, t) <= scanned(p, t),
        removed_file_sizes(p, t).len() == removed_files(p, t),
        sum_u64(removed_file_sizes(p, t)) == removed_size(p, t),
    decreases t, 0int,
{
    if p.spec_matches(t) {
        lemma_contained_sizes(t);
    } else {
        match t {
            FsTree::File { .. } => {},
            FsTree::Dir { entries, .. } => {
                lemma_accounting_upto(p, entries@, entries@.len() as int);
            },
        }
    }
}

/// Prefix form of [`lemma_accounting`].
proof fn lemma_accounting_upto(p: Pruner, s: Seq<FsTree>, n: int)
    ensures
        removed_files_upto(p, s, n) <= scanned_upto(p, s, n),
        removed_file_sizes_upto(p, s, n).len() == removed_files_upto(p, s, n),
        sum_u64(removed_file_sizes_upto(p, s, n)) == removed_size_upto(p, s, n),
    decreases s, n,
{
    if 0 < n && n <= s.len() {
        lemma_accounting_upto(p, s, n - 1);
        lemma_accounting(p, s[n - 1]);
        lemma_sum_concat(removed_file_sizes_upto(p, s, n - 1), removed_file_sizes(p, s[n - 1]));
    }
}

/// A file beneath a matched directory is counted exactly once, by the
/// pre-deletion sub-walk: the run observes the directory itself plus
/// each contained file once, removes exactly the contained files, and
/// plans a single deletion for the whole subtree instead of walking
/// into it.
pub proof fn lemma_no_double_count(p: Pruner, t: FsTree, prefix: Seq<Seq<char>>)
    requires
        t.spec_is_dir(),
        p.spec_matches(t),
    ensures
        scanned(p, t) == 1 + total_files(t),
        removed_files(p, t) == total_files(t),
        removed_size(p, t) == total_size(t),
        plan_spec(p, t, prefix).len() == 1,
{
}

/// No entry of the tree `t` is present in any rule set.
pub open spec fn subtree_clean(p: Pruner, t: FsTree) -> bool
    decreases t, 0int,
{
    &&& !p.spec_matches(t)
    &&& match t {
        FsTree::File { .. } => true,
        FsTree::Dir { entries, .. } => subtree_clean_upto(p, entries@, entries@.len() as int),
    }
}

/// The first `n` subtrees of `s` are clean.
pub open spec fn subtree_clean_upto(p: Pruner, s: Seq<FsTree>, n: int) -> bool
    decreases s, n,
{
    if n <= 0 || s.len() < n {
        true
    } else {
        subtree_clean_upto(p, s, n - 1) && subtree_clean(p, s[n - 1])
    }
}

/// A tree with no entry in any rule set is untouched: a run over it
/// removes no file and no byte, plans no deletion, and observes every
/// entry of the tree.
pub proof fn lemma_untouched(p: Pruner, t: FsTree, prefix: Seq<Seq<char>>)
    requires
        subtree_clean(p, t),
    ensures
        removed_files(p, t) == 0,
        removed_size(p, t) == 0,
        plan_spec(p, t, prefix) == Seq::<(Seq<Seq<char>>, bool)>::empty(),
        scanned(p, t) == total_entries(t),
    decreases t, 0int,
{
    match t {
        FsTree::File { .. } => {
            assert(plan_spec(p, t, prefix) =~= Seq::<(Seq<Seq<char>>, bool)>::empty());
        },
        FsTree::Dir { entries, .. } => {
            let here = prefix.push(t.spec_name());
            lemma_untouched_upto(p, entries@, here, entries@.len() as int);
        },
    }
}

/// Prefix form of [`lemma_untouched`].
proof fn lemma_untouched_upto(p: Pruner, s: Seq<FsTree>, prefix: Seq<Seq<char>>, n: int)
    requires
        subtree_clean_upto(p, s, n),
    ensures
        removed_files_upto(p, s, n) == 0,
        removed_size_upto(p, s, n) == 0,
        plan_upto(p, s, prefix, n) == Seq::<(Seq<Seq<char>>, bool)>::empty(),
        scanned_upto(p, s, n) == total_entries_upto(s, n),
    decreases s, n,
{
    if 0 < n && n <= s.len() {
        lemma_untouched_upto(p, s, prefix, n - 1);
        lemma_untouched(p, s[n - 1], prefix);
        assert(plan_upto(p, s, prefix, n) =~= Seq::<(Seq<Seq<char>>, bool)>::empty());
    }
}

} // verus!
