//! Filename-style glob matching: `*` stands for any run of characters, `?` for
//! exactly one, every other character for itself.

use crate::text::{texts, to_chars};
use vstd::prelude::*;

verus! {

/// Whether `pattern[i..]` matches `name[j..]` in its entirety.
pub open spec fn glob_from(pattern: Seq<char>, name: Seq<char>, i: int, j: int) -> bool
    decreases pattern.len() - i, name.len() - j,
{
    if i < 0 || j < 0 || j > name.len() {
        false
    } else if i >= pattern.len() {
        j == name.len()
    } else if pattern[i] == '*' {
        glob_from(pattern, name, i + 1, j) || (j < name.len() && glob_from(
            pattern,
            name,
            i,
            j + 1,
        ))
    } else if j >= name.len() {
        false
    } else if pattern[i] == '?' || pattern[i] == name[j] {
        glob_from(pattern, name, i + 1, j + 1)
    } else {
        false
    }
}

/// Whether `pattern` matches the whole of `name`.
pub open spec fn glob_matches(pattern: Seq<char>, name: Seq<char>) -> bool {
    glob_from(pattern, name, 0, 0)
}

/// Whether some pattern of the list matches the whole of `name`.
pub open spec fn any_glob_matches(patterns: Seq<Seq<char>>, name: Seq<char>) -> bool {
    exists|k: int| 0 <= k < patterns.len() && glob_matches(#[trigger] patterns[k], name)
}

/// Whether `pattern` matches `name` from start to end.
pub fn matches_chars(pattern: &Vec<char>, name: &Vec<char>) -> (r: bool)
    ensures
        r == glob_matches(pattern@, name@),
{
    let n: usize = name.len();
    // row[j] tells whether the pattern from position i on matches name[j..]
    let mut row: Vec<bool> = Vec::new();
    let mut j: usize = 0;
    while j < n
        invariant
            j <= n,
            n == name.len(),
            row.len() == j,
            forall|k: int| 0 <= k < j ==> row@[k] == glob_from(pattern@, name@, pattern.len() as int, k),
        decreases n - j,
    {
        row.push(false);
        j += 1;
    }
    row.push(true);
    let mut i: usize = pattern.len();
    while i > 0
        invariant
            i <= pattern.len(),
            n == name.len(),
            row.len() == n + 1,
            forall|k: int| 0 <= k <= n ==> row@[k] == glob_from(pattern@, name@, i as int, k),
        decreases i,
    {
        i -= 1;
        let c: char = pattern[i];
        let ghost below = row@;
        if c == '*' {
            // row[n] stays: the star may match nothing at the end
            let mut k: usize = n;
            while k > 0
                invariant
                    k <= n,
                    n == name.len(),
                    i < pattern.len(),
                    pattern@[i as int] == '*',
                    row.len() == n + 1,
                    below.len() == n + 1,
                    forall|m: int| 0 <= m <= n ==> below[m] == glob_from(pattern@, name@, i + 1, m),
                    forall|m: int| 0 <= m < k ==> row@[m] == below[m],
                    forall|m: int| k <= m <= n ==> row@[m] == glob_from(pattern@, name@, i as int, m),
                decreases k,
            {
                k -= 1;
                assert(row@[k as int] == below[k as int]);
                assert(row@[k + 1] == glob_from(pattern@, name@, i as int, k + 1));
                let here: bool = row[k] || row[k + 1];
                row.set(k, here);
                assert(here == glob_from(pattern@, name@, i as int, k as int));
            }
        } else {
            let mut k: usize = 0;
            while k < n
                invariant
                    k <= n,
                    n == name.len(),
                    i < pattern.len(),
                    pattern@[i as int] == c,
                    c != '*',
                    row.len() == n + 1,
                    below.len() == n + 1,
                    forall|m: int| 0 <= m <= n ==> below[m] == glob_from(pattern@, name@, i + 1, m),
                    forall|m: int| k <= m <= n ==> row@[m] == below[m],
                    forall|m: int| 0 <= m < k ==> row@[m] == glob_from(pattern@, name@, i as int, m),
                decreases n - k,
            {
                assert(row@[k + 1] == below[k + 1]);
                let here: bool = (c == '?' || c == name[k]) && row[k + 1];
                row.set(k, here);
                assert(here == glob_from(pattern@, name@, i as int, k as int));
                k += 1;
            }
            row.set(n, false);
        }
    }
    row[0]
}

/// Whether the glob `pattern` matches `name` in its entirety.
pub fn matches(pattern: &str, name: &str) -> (r: bool)
    ensures
        r == glob_matches(pattern@, name@),
{
    let p = to_chars(pattern);
    let s = to_chars(name);
    matches_chars(&p, &s)
}

/// Whether any of `patterns` matches `name` in its entirety.
pub fn matches_any(patterns: &Vec<String>, name: &str) -> (r: bool)
    ensures
        r == any_glob_matches(texts(patterns@), name@),
{
    let ghost views = texts(patterns@);
    let s = to_chars(name);
    let mut k: usize = 0;
    while k < patterns.len()
        invariant
            k <= patterns.len(),
            s@ == name@,
            views == texts(patterns@),
            forall|m: int| 0 <= m < k ==> !glob_matches(#[trigger] views[m], name@),
        decreases patterns.len() - k,
    {
        let p = to_chars(patterns[k].as_str());
        if matches_chars(&p, &s) {
            assert(glob_matches(views[k as int], name@));
            return true;
        }
        k += 1;
    }
    false
}

/// A pattern without `*` and `?` matches exactly itself.
pub proof fn law_literal_pattern(pattern: Seq<char>, name: Seq<char>)
    requires
        forall|k: int| 0 <= k < pattern.len() ==> pattern[k] != '*' && pattern[k] != '?',
    ensures
        glob_matches(pattern, name) <==> pattern == name,
{
    lemma_literal_from(pattern, name, 0);
    assert(pattern.subrange(0, pattern.len() as int) =~= pattern);
    assert(name.subrange(0, name.len() as int) =~= name);
}

proof fn lemma_literal_from(pattern: Seq<char>, name: Seq<char>, i: int)
    requires
        0 <= i <= pattern.len(),
        forall|k: int| 0 <= k < pattern.len() ==> pattern[k] != '*' && pattern[k] != '?',
    ensures
        glob_from(pattern, name, i, i) <==> (i <= name.len() && pattern.subrange(
            i,
            pattern.len() as int,
        ) == name.subrange(i, name.len() as int)),
    decreases pattern.len() - i,
{
    let ps = pattern.subrange(i, pattern.len() as int);
    if i > name.len() {
    } else if i == pattern.len() {
        let ns = name.subrange(i, name.len() as int);
        if i == name.len() {
            assert(ps =~= ns);
        } else {
            assert(ps.len() != ns.len());
        }
    } else if i == name.len() {
        let ns = name.subrange(i, name.len() as int);
        assert(ps.len() != ns.len());
    } else {
        let ns = name.subrange(i, name.len() as int);
        lemma_literal_from(pattern, name, i + 1);
        let ps1 = pattern.subrange(i + 1, pattern.len() as int);
        let ns1 = name.subrange(i + 1, name.len() as int);
        if pattern[i] == name[i] {
            if ps1 == ns1 {
                assert(ps =~= seq![pattern[i]] + ps1);
                assert(ns =~= seq![name[i]] + ns1);
            }
            if ps == ns {
                assert(ps1 =~= ps.drop_first());
                assert(ns1 =~= ns.drop_first());
            }
        } else {
            assert(ps[0] == pattern[i]);
            assert(ns[0] == name[i]);
        }
    }
}

/// The pattern `*` matches every name, from any position on.
pub proof fn law_star_matches_all(name: Seq<char>, j: int)
    requires
        0 <= j <= name.len(),
    ensures
        glob_from(seq!['*'], name, 0, j),
    decreases name.len() - j,
{
    if j < name.len() {
        law_star_matches_all(name, j + 1);
    } else {
        assert(glob_from(seq!['*'], name, 1, j));
    }
}

} // verus!
