//! An in-memory picture of a directory tree, and the measures of it
//! that the accounting contracts are stated over.
//!
//! The caller reads the real tree from disk into an [`FsTree`] before a
//! run; the engine never touches the filesystem itself.

use vstd::prelude::*;

verus! {

/// One filesystem entry: a regular file with its byte size, or a
/// directory with its children in walk order.
pub enum FsTree {
    File { name: String, size: u64 },
    Dir { name: String, entries: Vec<FsTree> },
}

impl FsTree {
    /// The entry's base name.
    pub open spec fn spec_name(&self) -> Seq<char> {
        match self {
            FsTree::File { name, .. } => name@,
            FsTree::Dir { name, .. } => name@,
        }
    }

    /// Whether the entry is a directory.
    pub open spec fn spec_is_dir(&self) -> bool {
        match self {
            FsTree::File { .. } => false,
            FsTree::Dir { .. } => true,
        }
    }

    /// The entry's base name.
    pub fn name(&self) -> (r: &String)
        ensures
            r@ == self.spec_name(),
    {
        match self {
            FsTree::File { name, .. } => name,
            FsTree::Dir { name, .. } => name,
        }
    }

    /// Whether the entry is a directory.
    pub fn is_dir(&self) -> (r: bool)
        ensures
            r == self.spec_is_dir(),
    {
        match self {
            FsTree::File { .. } => false,
            FsTree::Dir { .. } => true,
        }
    }
}

/// Number of regular files in the tree, the root included when it is a
/// file. Each file is counted exactly once.
pub open spec fn total_files(t: FsTree) -> nat
    decreases t, 0int,
{
    match t {
        FsTree::File { .. } => 1,
        FsTree::Dir { entries, .. } => total_files_upto(entries@, entries@.len() as int),
    }
}

/// Number of regular files in the first `n` subtrees of `s`.
pub open spec fn total_files_upto(s: Seq<FsTree>, n: int) -> nat
    decreases s, n,
{
    if n <= 0 || s.len() < n {
        0
    } else {
        total_files_upto(s, n - 1) + total_files(s[n - 1])
    }
}

/// Sum of the byte sizes of the regular files in the tree.
pub open spec fn total_size(t: FsTree) -> nat
    decreases t, 0int,
{
    match t {
        FsTree::File { size, .. } => size as nat,
        FsTree::Dir { entries, .. } => total_size_upto(entries@, entries@.len() as int),
    }
}

/// Sum of the byte sizes of the regular files in the first `n` subtrees
/// of `s`.
pub open spec fn total_size_upto(s: Seq<FsTree>, n: int) -> nat
    decreases s, n,
{
    if n <= 0 || s.len() < n {
        0
    } else {
        total_size_upto(s, n - 1) + total_size(s[n - 1])
    }
}

/// Number of entries in the tree, files and directories alike, the
/// root included.
pub open spec fn total_entries(t: FsTree) -> nat
    decreases t, 0int,
{
    match t {
        FsTree::File { .. } => 1,
        FsTree::Dir { entries, .. } => 1 + total_entries_upto(entries@, entries@.len() as int),
    }
}

/// Number of entries in the first `n` subtrees of `s`.
pub open spec fn total_entries_upto(s: Seq<FsTree>, n: int) -> nat
    decreases s, n,
{
    if n <= 0 || s.len() < n {
        0
    } else {
        total_entries_upto(s, n - 1) + total_entries(s[n - 1])
    }
}

/// Prefix sums of each measure only grow as the prefix grows.
pub proof fn lemma_upto_monotone(s: Seq<FsTree>, n1: int, n2: int)
    requires
        n1 <= n2,
        n2 <= s.len(),
    ensures
        total_files_upto(s, n1) <= total_files_upto(s, n2),
        total_size_upto(s, n1) <= total_size_upto(s, n2),
        total_entries_upto(s, n1) <= total_entries_upto(s, n2),
    decreases n2 - n1,
{
    if n1 < n2 {
        lemma_upto_monotone(s, n1, n2 - 1);
    }
}

/// A tree holds at least as many entries as files, and at least one
/// entry.
pub proof fn lemma_files_le_entries(t: FsTree)
    ensures
        total_files(t) <= total_entries(t),
        1 <= total_entries(t),
    decreases t, 0int,
{
    match t {
        FsTree::File { .. } => {},
        FsTree::Dir { entries, .. } => {
            lemma_files_le_entries_upto(entries@, entries@.len() as int);
        },
    }
}

/// Prefix form of [`lemma_files_le_entries`].
pub proof fn lemma_files_le_entries_upto(s: Seq<FsTree>, n: int)
    ensures
        total_files_upto(s, n) <= total_entries_upto(s, n),
    decreases s, n,
{
    if 0 < n && n <= s.len() {
        lemma_files_le_entries_upto(s, n - 1);
        lemma_files_le_entries(s[n - 1]);
    }
}

} // verus!
