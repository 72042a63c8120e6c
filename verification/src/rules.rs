//! Deny-list rule sets and the string matching they rest on.
//!
//! A [`RuleSet`] is one category of deny-list entries (directory names,
//! file names, or file-name suffixes). Membership is a case-sensitive
//! exact comparison; suffix matching compares the whole trailing run of
//! characters, so a rule `.md` matches `guide.md` and a file literally
//! named `.md`, but not `md`.

use vstd::prelude::*;

verus! {

/// `suffix` is the trailing run of characters of `s`.
pub open spec fn is_suffix_of(suffix: Seq<char>, s: Seq<char>) -> bool {
    suffix.len() <= s.len() && s.skip(s.len() - suffix.len()) == suffix
}

/// Character-for-character string equality.
fn str_eq(a: &str, b: &str) -> (r: bool)
    ensures
        r == (a@ == b@),
{
    let la = a.unicode_len();
    let lb = b.unicode_len();
    if la != lb {
        assert(a@ != b@) by {
            assert(a@.len() != b@.len());
        }
        return false;
    }
    let mut i: usize = 0;
    while i < la
        invariant
            la == a@.len(),
            la == b@.len(),
            i <= la,
            forall|j: int| 0 <= j < i ==> a@[j] == b@[j],
        decreases la - i,
    {
        if a.get_char(i) != b.get_char(i) {
            return false;
        }
        i = i + 1;
    }
    assert(a@ =~= b@);
    true
}

/// True when the characters of `suffix` end the string `s`.
fn str_ends_with(s: &str, suffix: &str) -> (r: bool)
    ensures
        r == is_suffix_of(suffix@, s@),
{
    let ls = s.unicode_len();
    let lk = suffix.unicode_len();
    if lk > ls {
        return false;
    }
    let start = ls - lk;
    let mut i: usize = 0;
    while i < lk
        invariant
            ls == s@.len(),
            lk == suffix@.len(),
            start == ls - lk,
            lk <= ls,
            i <= lk,
            forall|j: int| 0 <= j < i ==> s@[start + j] == suffix@[j],
        decreases lk - i,
    {
        if s.get_char(start + i) != suffix.get_char(i) {
            assert(!is_suffix_of(suffix@, s@)) by {
                assert(s@.skip(s@.len() - suffix@.len())[i as int] == s@[start + i]);
            }
            return false;
        }
        i = i + 1;
    }
    assert(s@.skip(s@.len() - suffix@.len()) =~= suffix@);
    true
}

/// One category of deny-list entries, matched by exact name or, for the
/// suffix category, by trailing characters.
pub struct RuleSet {
    entries: Vec<String>,
}

impl RuleSet {
    /// The name `n` is itself one of the entries.
    pub closed spec fn has(&self, n: Seq<char>) -> bool {
        exists|i: int| 0 <= i < self.entries@.len() && self.entries@[i]@ == n
    }

    /// Some entry is a trailing run of characters of `n`.
    pub closed spec fn has_suffix_of(&self, n: Seq<char>) -> bool {
        exists|i: int|
            0 <= i < self.entries@.len() && is_suffix_of(self.entries@[i]@, n)
    }

    /// Exact-name membership test.
    pub fn contains(&self, name: &str) -> (r: bool)
        ensures
            r == self.has(name@),
    {
        let mut i: usize = 0;
        while i < self.entries.len()
            invariant
                i <= self.entries@.len(),
                forall|j: int| 0 <= j < i ==> self.entries@[j]@ != name@,
            decreases self.entries@.len() - i,
        {
            if str_eq(self.entries[i].as_str(), name) {
                return true;
            }
            i = i + 1;
        }
        false
    }

    /// Suffix membership test: does any entry end `name`?
    pub fn matches_suffix(&self, name: &str) -> (r: bool)
        ensures
            r == self.has_suffix_of(name@),
    {
        let mut i: usize = 0;
        while i < self.entries.len()
            invariant
                i <= self.entries@.len(),
                forall|j: int| 0 <= j < i ==> !is_suffix_of(self.entries@[j]@, name@),
            decreases self.entries@.len() - i,
        {
            if str_ends_with(name, self.entries[i].as_str()) {
                return true;
            }
            i = i + 1;
        }
        false
    }
}

/// Builds the lookup structure for one deny-list category from its
/// literal entries.
pub fn to_map(names: &[&str]) -> (rs: RuleSet)
    ensures
        forall|n: Seq<char>|
            rs.has(n) == exists|i: int| 0 <= i < names@.len() && names@[i]@ == n,
        forall|n: Seq<char>|
            rs.has_suffix_of(n) == exists|i: int|
                0 <= i < names@.len() && is_suffix_of(names@[i]@, n),
{
    let mut entries: Vec<String> = Vec::new();
    let mut i: usize = 0;
    while i < names.len()
        invariant
            i <= names@.len(),
            entries@.len() == i,
            forall|j: int| 0 <= j < i ==> entries@[j]@ == names@[j]@,
        decreases names@.len() - i,
    {
        entries.push(names[i].to_owned());
        i = i + 1;
    }
    let rs = RuleSet { entries };
    assert forall|n: Seq<char>|
        rs.has(n) == exists|i: int| 0 <= i < names@.len() && names@[i]@ == n by {
        if rs.has(n) {
            let i = choose|i: int| 0 <= i < rs.entries@.len() && rs.entries@[i]@ == n;
            assert(names@[i]@ == n);
        }
        if exists|i: int| 0 <= i < names@.len() && names@[i]@ == n {
            let i = choose|i: int| 0 <= i < names@.len() && names@[i]@ == n;
            assert(rs.entries@[i]@ == n);
        }
    }
    assert forall|n: Seq<char>|
        rs.has_suffix_of(n) == exists|i: int|
            0 <= i < names@.len() && is_suffix_of(names@[i]@, n) by {
        if rs.has_suffix_of(n) {
            let i = choose|i: int|
                0 <= i < rs.entries@.len() && is_suffix_of(rs.entries@[i]@, n);
            assert(is_suffix_of(names@[i]@, n));
        }
        if exists|i: int| 0 <= i < names@.len() && is_suffix_of(names@[i]@, n) {
            let i = choose|i: int| 0 <= i < names@.len() && is_suffix_of(names@[i]@, n);
            assert(is_suffix_of(rs.entries@[i]@, n));
        }
    }
    rs
}

} // verus!
