//! Substring predicates over character sequences, with executable
//! counterparts.

use vstd::prelude::*;

verus! {

use vstd::string::{StrSliceExecFns, StringExecFns};

/// `p` is a prefix of `s`.
pub open spec fn seq_starts_with(s: Seq<char>, p: Seq<char>) -> bool {
    p.len() <= s.len() && s.subrange(0, p.len() as int) == p
}

/// `p` occurs in `s` at offset `i`.
pub open spec fn seq_matches_at(s: Seq<char>, p: Seq<char>, i: int) -> bool {
    0 <= i && i + p.len() <= s.len() && s.subrange(i, i + p.len() as int) == p
}

/// `p` occurs somewhere in `s`.
pub open spec fn seq_contains(s: Seq<char>, p: Seq<char>) -> bool {
    exists|i: int| seq_matches_at(s, p, i)
}

/// `p` is a suffix of `s`.
pub open spec fn seq_ends_with(s: Seq<char>, p: Seq<char>) -> bool {
    p.len() <= s.len() && s.subrange(s.len() - p.len(), s.len() as int) == p
}

/// Whether two string slices hold the same characters.
pub fn str_eq(a: &str, b: &str) -> (r: bool)
    ensures
        r == (a@ == b@),
{
    let sa = String::from_str(a);
    let sb = String::from_str(b);
    sa == sb
}

/// Whether `p` occurs in `s` at offset `i`.
fn matches_at(s: &str, n: usize, p: &str, m: usize, i: usize) -> (r: bool)
    requires
        n == s@.len(),
        m == p@.len(),
        i + m <= n,
    ensures
        r == seq_matches_at(s@, p@, i as int),
{
    let mut j: usize = 0;
    while j < m
        invariant
            n == s@.len(),
            m == p@.len(),
            i + m <= n,
            j <= m,
            forall|k: int| 0 <= k < j ==> s@[i + k] == p@[k],
        decreases m - j,
    {
        if s.get_char(i + j) != p.get_char(j) {
            proof {
                assert(s@.subrange(i as int, i + m as int)[j as int] == s@[i + j]);
            }
            return false;
        }
        j = j + 1;
    }
    proof {
        assert(s@.subrange(i as int, i + m as int) =~= p@);
    }
    true
}

/// Whether the pattern matches a prefix of the string slice.
pub fn str_starts_with(s: &str, p: &str) -> (r: bool)
    ensures
        r == seq_starts_with(s@, p@),
{
    let n = s.unicode_len();
    let m = p.unicode_len();
    if m > n {
        return false;
    }
    let r = matches_at(s, n, p, m, 0);
    proof {
        assert(s@.subrange(0, m as int) == s@.subrange(0, p@.len() as int));
    }
    r
}

/// Whether the pattern matches a suffix of the string slice.
pub fn str_ends_with(s: &str, p: &str) -> (r: bool)
    ensures
        r == seq_ends_with(s@, p@),
{
    let n = s.unicode_len();
    let m = p.unicode_len();
    if m > n {
        return false;
    }
    let r = matches_at(s, n, p, m, n - m);
    proof {
        assert(s@.subrange(n - m, n as int) == s@.subrange(
            s@.len() - p@.len(),
            s@.len() as int,
        ));
    }
    r
}

/// Whether the pattern matches a sub-slice of the string slice.
pub fn str_contains(s: &str, p: &str) -> (r: bool)
    ensures
        r == seq_contains(s@, p@),
{
    let n = s.unicode_len();
    let m = p.unicode_len();
    if m > n {
        proof {
            assert(forall|i: int| !seq_matches_at(s@, p@, i));
        }
        return false;
    }
    if m == 0 {
        proof {
            assert(s@.subrange(0, 0) =~= p@);
            assert(seq_matches_at(s@, p@, 0));
        }
        return true;
    }
    let mut i: usize = 0;
    while i <= n - m
        invariant
            n == s@.len(),
            m == p@.len(),
            1 <= m <= n,
            i <= n - m + 1,
            forall|k: int| 0 <= k < i ==> !seq_matches_at(s@, p@, k),
        decreases n - m + 1 - i,
    {
        if matches_at(s, n, p, m, i) {
            proof {
                assert(seq_matches_at(s@, p@, i as int));
            }
            return true;
        }
        i = i + 1;
    }
    proof {
        assert forall|k: int| !seq_matches_at(s@, p@, k) by {
            if 0 <= k < i {
            } else {
                assert(k < 0 || k + p@.len() > s@.len());
            }
        }
    }
    false
}

/// The index of the first line where two documents disagree, comparing
/// their newline-separated lines pairwise as far as both reach: the
/// position of the first differing pair, or zero when every compared pair
/// agrees.
pub open spec fn first_diff_line(a: Seq<Seq<char>>, b: Seq<Seq<char>>) -> int
    decreases a.len(),
{
    if a.len() == 0 || b.len() == 0 {
        0
    } else if a[0] != b[0] {
        0
    } else {
        1 + first_diff_line(a.drop_first(), b.drop_first())
    }
}

/// Whether two line lists disagree somewhere in their common prefix.
pub open spec fn lines_differ(a: Seq<Seq<char>>, b: Seq<Seq<char>>) -> bool {
    exists|i: int| 0 <= i < a.len() && i < b.len() && a[i] != b[i]
}

/// The index of the first differing line pair of two documents, backed off
/// by ten lines of context, as diagnostics want it; zero when no compared
/// pair differs.  The lines are the parts split at every newline.
pub fn diff_context_line(a: &str, b: &str) -> (r: usize)
    ensures
        ({
            let la = crate::instruction::helpers::split_chars(a@, '\n');
            let lb = crate::instruction::helpers::split_chars(b@, '\n');
            r == if lines_differ(la, lb) {
                let d = first_diff_line(la, lb);
                if d >= 10 {
                    d - 10
                } else {
                    0
                }
            } else {
                0
            }
        }),
{
    let la = crate::instruction::helpers::split_all(a, '\n');
    let lb = crate::instruction::helpers::split_all(b, '\n');
    let ghost va = crate::instruction::helpers::strings_view(la@);
    let ghost vb = crate::instruction::helpers::strings_view(lb@);
    let mut i: usize = 0;
    while i < la.len() && i < lb.len()
        invariant
            va == crate::instruction::helpers::strings_view(la@),
            vb == crate::instruction::helpers::strings_view(lb@),
            va == crate::instruction::helpers::split_chars(a@, '\n'),
            vb == crate::instruction::helpers::split_chars(b@, '\n'),
            i <= va.len(),
            i <= vb.len(),
            forall|j: int| 0 <= j < i ==> #[trigger] va[j] == vb[j],
        decreases va.len() - i,
    {
        if !str_eq(la[i].as_str(), lb[i].as_str()) {
            proof {
                lemma_first_diff_line_at(va, vb, i as int);
            }
            let d = i;
            return if d >= 10 {
                d - 10
            } else {
                0
            };
        }
        i = i + 1;
    }
    proof {
        assert forall|k: int| !(0 <= k < va.len() && k < vb.len() && va[k] != vb[k]) by {
            if 0 <= k < va.len() && k < vb.len() {
                assert(k < i);
                assert(va[k] == vb[k]);
            }
        }
        assert(!lines_differ(va, vb));
    }
    0
}

/// When the first `i` line pairs agree and pair `i` differs, the first
/// difference is at `i`.
proof fn lemma_first_diff_line_at(a: Seq<Seq<char>>, b: Seq<Seq<char>>, i: int)
    requires
        0 <= i < a.len(),
        i < b.len(),
        forall|j: int| 0 <= j < i ==> #[trigger] a[j] == b[j],
        a[i] != b[i],
    ensures
        first_diff_line(a, b) == i,
        lines_differ(a, b),
    decreases i,
{
    if i > 0 {
        assert(forall|j: int|
            0 <= j < i - 1 ==> #[trigger] a.drop_first()[j] == b.drop_first()[j]);
        assert(a.drop_first()[i - 1] == a[i] && b.drop_first()[i - 1] == b[i]);
        lemma_first_diff_line_at(a.drop_first(), b.drop_first(), i - 1);
    }
}

} // verus!
