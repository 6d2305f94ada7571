use vstd::prelude::*;

verus! {

/// Character-for-character equality of two string slices.
pub fn str_eq(a: &str, b: &str) -> (r: bool)
    ensures
        r == (a@ == b@),
{
    let sa = a.to_owned();
    let sb = b.to_owned();
    sa == sb
}

/// `needle` occurs in `hay` starting at position `i`.
pub open spec fn matches_at(hay: Seq<char>, needle: Seq<char>, i: int) -> bool {
    0 <= i && i + needle.len() <= hay.len() && hay.subrange(i, i + needle.len()) == needle
}

/// `needle` occurs somewhere in `hay`.
pub open spec fn spec_contains(hay: Seq<char>, needle: Seq<char>) -> bool {
    exists|i: int| matches_at(hay, needle, i)
}

/// Whether `needle` occurs as a contiguous substring of `hay`.
pub fn contains(hay: &str, needle: &str) -> (r: bool)
    ensures
        r == spec_contains(hay@, needle@),
{
    let hn = hay.unicode_len();
    let nn = needle.unicode_len();
    if nn > hn {
        proof {
            assert(forall|i: int| !matches_at(hay@, needle@, i));
        }
        return false;
    }
    if nn == 0 {
        proof {
            assert(hay@.subrange(0, 0) =~= needle@);
            assert(matches_at(hay@, needle@, 0));
        }
        return true;
    }
    let mut i: usize = 0;
    while i <= hn - nn
        invariant
            hn == hay@.len(),
            nn == needle@.len(),
            0 < nn <= hn,
            i <= hn,
            forall|k: int| 0 <= k < i ==> !matches_at(hay@, needle@, k),
        decreases hn - i,
    {
        let mut j: usize = 0;
        let mut same = true;
        proof {
            assert(hay@.subrange(i as int, i as int) =~= needle@.subrange(0, 0));
        }
        while j < nn
            invariant
                hn == hay@.len(),
                nn == needle@.len(),
                i + nn <= hn,
                j <= nn,
                same == (hay@.subrange(i as int, i + j) == needle@.subrange(0, j as int)),
            decreases nn - j,
        {
            let hc = hay.get_char(i + j);
            let nc = needle.get_char(j);
            proof {
                let ghost hpre = hay@.subrange(i as int, i + j);
                let ghost npre = needle@.subrange(0, j as int);
                assert(hay@.subrange(i as int, i + j + 1) =~= hpre.push(hay@[i + j]));
                assert(needle@.subrange(0, j + 1) =~= npre.push(needle@[j as int]));
                if hpre == npre && hay@[i + j] == needle@[j as int] {
                    assert(hay@.subrange(i as int, i + j + 1) =~= needle@.subrange(0, j + 1));
                }
                if hay@.subrange(i as int, i + j + 1) == needle@.subrange(0, j + 1) {
                    assert(hpre =~= hay@.subrange(i as int, i + j + 1).subrange(0, j as int));
                    assert(npre =~= needle@.subrange(0, j + 1).subrange(0, j as int));
                    assert(hay@[i + j] == hay@.subrange(i as int, i + j + 1)[j as int]);
                    assert(needle@[j as int] == needle@.subrange(0, j + 1)[j as int]);
                }
            }
            same = same && hc == nc;
            j = j + 1;
        }
        if same {
            proof {
                assert(needle@.subrange(0, nn as int) =~= needle@);
                assert(matches_at(hay@, needle@, i as int));
            }
            return true;
        }
        proof {
            assert(needle@.subrange(0, nn as int) =~= needle@);
            assert(!matches_at(hay@, needle@, i as int));
        }
        i = i + 1;
    }
    proof {
        assert(forall|k: int| matches_at(hay@, needle@, k) ==> 0 <= k && k + nn <= hn);
        assert(forall|k: int| 0 <= k < i ==> !matches_at(hay@, needle@, k));
    }
    false
}

/// Index just past the last `/` strictly before `i`, or `0` if none.
pub open spec fn after_last_slash(s: Seq<char>, i: int) -> int
    decreases i when 0 <= i <= s.len()
{
    if i <= 0 {
        0
    } else if s[i - 1] == '/' {
        i
    } else {
        after_last_slash(s, i - 1)
    }
}

/// The final path segment of `s`: everything after the last `/`.
pub open spec fn spec_last_segment(s: Seq<char>) -> Seq<char> {
    s.subrange(after_last_slash(s, s.len() as int), s.len() as int)
}

pub proof fn lemma_after_last_slash_bounds(s: Seq<char>, i: int)
    requires
        0 <= i <= s.len(),
    ensures
        0 <= after_last_slash(s, i) <= i,
        forall|j: int| after_last_slash(s, i) <= j < i ==> s[j] != '/',
        after_last_slash(s, i) > 0 ==> s[after_last_slash(s, i) - 1] == '/',
    decreases i,
{
    if i > 0 && s[i - 1] != '/' {
        lemma_after_last_slash_bounds(s, i - 1);
    }
}

/// The final path segment: the part of `path` after its last `/`, the whole
/// of `path` when it holds no `/`.
pub fn last_path_segment(path: &str) -> (r: String)
    ensures
        r@ == spec_last_segment(path@),
{
    let n = path.unicode_len();
    let mut i: usize = n;
    while i > 0 && path.get_char(i - 1) != '/'
        invariant
            i <= n,
            n == path@.len(),
            forall|j: int| i <= j < n ==> path@[j] != '/',
        decreases i,
    {
        i = i - 1;
    }
    proof {
        lemma_after_last_slash_bounds(path@, n as int);
        let a = after_last_slash(path@, n as int);
        if a < i {
            assert(path@[i - 1] != '/');
            assert(a <= i - 1 < n);
        }
        if i < a {
            assert(path@[a - 1] == '/');
            assert(i <= a - 1 < n);
        }
    }
    let seg = path.substring_char(i, n);
    seg.to_owned()
}

} // verus!
