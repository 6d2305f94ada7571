use vstd::prelude::*;

verus! {

/// A character that may appear in a numeric version component.
pub open spec fn is_digit_char(c: char) -> bool {
    '0' <= c && c <= '9'
}

/// A character that may appear in a dotted version string.
pub open spec fn is_version_char(c: char) -> bool {
    is_digit_char(c) || c == '.'
}

/// Index of the first digit at or after `i`, or `s.len()` if none.
pub open spec fn digit_start(s: Seq<char>, i: int) -> int
    decreases s.len() - i when 0 <= i <= s.len()
{
    if i >= s.len() {
        s.len() as int
    } else if is_digit_char(s[i]) {
        i
    } else {
        digit_start(s, i + 1)
    }
}

/// End of the run of version characters that starts at `i`.
pub open spec fn version_run_end(s: Seq<char>, i: int) -> int
    decreases s.len() - i when 0 <= i <= s.len()
{
    if i >= s.len() {
        s.len() as int
    } else if is_version_char(s[i]) {
        version_run_end(s, i + 1)
    } else {
        i
    }
}

/// Index of the first `.` at or after `i`, or `s.len()` if none.
pub open spec fn dot_index(s: Seq<char>, i: int) -> int
    decreases s.len() - i when 0 <= i <= s.len()
{
    if i >= s.len() {
        s.len() as int
    } else if s[i] == '.' {
        i
    } else {
        dot_index(s, i + 1)
    }
}

/// The leading run of digits and dots that begins at the first digit of `s`.
pub open spec fn spec_digits_of(s: Seq<char>) -> Seq<char> {
    let a = digit_start(s, 0);
    let b = version_run_end(s, a);
    s.subrange(a, b)
}

/// `MAJOR.MINOR` cut out of a digits-and-dots run, or the run itself when
/// either component is empty.
pub open spec fn spec_major_minor(d: Seq<char>) -> Seq<char> {
    let p = dot_index(d, 0);
    if p == d.len() {
        d
    } else {
        let q = dot_index(d, p + 1);
        let major = d.subrange(0, p);
        let minor = d.subrange(p + 1, q);
        if major.len() > 0 && minor.len() > 0 {
            major + seq!['.'] + minor
        } else {
            d
        }
    }
}

/// What `extract_major_minor` returns for any input.
pub open spec fn spec_extract_major_minor(s: Seq<char>) -> Seq<char> {
    spec_major_minor(spec_digits_of(s))
}

pub proof fn lemma_digit_start_bounds(s: Seq<char>, i: int)
    requires
        0 <= i <= s.len(),
    ensures
        i <= digit_start(s, i) <= s.len(),
        forall|j: int| i <= j < digit_start(s, i) ==> !is_digit_char(s[j]),
        digit_start(s, i) < s.len() ==> is_digit_char(s[digit_start(s, i)]),
    decreases s.len() - i,
{
    if i < s.len() && !is_digit_char(s[i]) {
        lemma_digit_start_bounds(s, i + 1);
    }
}

pub proof fn lemma_version_run_bounds(s: Seq<char>, i: int)
    requires
        0 <= i <= s.len(),
    ensures
        i <= version_run_end(s, i) <= s.len(),
        forall|j: int| i <= j < version_run_end(s, i) ==> is_version_char(s[j]),
        version_run_end(s, i) < s.len() ==> !is_version_char(s[version_run_end(s, i)]),
    decreases s.len() - i,
{
    if i < s.len() && is_version_char(s[i]) {
        lemma_version_run_bounds(s, i + 1);
    }
}

pub proof fn lemma_dot_index_bounds(s: Seq<char>, i: int)
    requires
        0 <= i <= s.len(),
    ensures
        i <= dot_index(s, i) <= s.len(),
        forall|j: int| i <= j < dot_index(s, i) ==> s[j] != '.',
        dot_index(s, i) < s.len() ==> s[dot_index(s, i)] == '.',
    decreases s.len() - i,
{
    if i < s.len() && s[i] != '.' {
        lemma_dot_index_bounds(s, i + 1);
    }
}

fn is_digit(c: char) -> (r: bool)
    ensures
        r == is_digit_char(c),
{
    '0' <= c && c <= '9'
}

fn is_version(c: char) -> (r: bool)
    ensures
        r == is_version_char(c),
{
    ('0' <= c && c <= '9') || c == '.'
}

/// Locate the leading digits-and-dots run of `s`: the pair
/// `(digit_start(s@, 0), version_run_end(s@, digit_start(s@, 0)))`.
fn find_version_run(s: &str) -> (r: (usize, usize))
    ensures
        r.0 == digit_start(s@, 0),
        r.1 == version_run_end(s@, r.0 as int),
        0 <= r.0 <= r.1 <= s@.len(),
{
    let n = s.unicode_len();
    let mut a: usize = 0;
    while a < n && !is_digit(s.get_char(a))
        invariant
            0 <= a <= n,
            n == s@.len(),
            forall|j: int| 0 <= j < a ==> !is_digit_char(s@[j]),
        decreases n - a,
    {
        a = a + 1;
    }
    proof {
        lemma_digit_start_bounds(s@, 0);
        if a < n {
            assert(digit_start(s@, 0) == a) by {
                if digit_start(s@, 0) < a {
                    assert(!is_digit_char(s@[digit_start(s@, 0)]));
                }
            }
        } else {
            assert(digit_start(s@, 0) == n as int) by {
                if digit_start(s@, 0) < n {
                    assert(!is_digit_char(s@[digit_start(s@, 0)]));
                }
            }
        }
    }
    let mut b: usize = a;
    while b < n && is_version(s.get_char(b))
        invariant
            a <= b <= n,
            n == s@.len(),
            forall|j: int| a <= j < b ==> is_version_char(s@[j]),
        decreases n - b,
    {
        b = b + 1;
    }
    proof {
        lemma_version_run_bounds(s@, a as int);
        let e = version_run_end(s@, a as int);
        if e < b {
            assert(is_version_char(s@[e]));
        }
        if b < e {
            assert(is_version_char(s@[b as int]));
        }
    }
    (a, b)
}

/// Locate the first `.` of `s` at or after `from`.
fn find_dot(s: &str, from: usize) -> (r: usize)
    requires
        from <= s@.len(),
    ensures
        r == dot_index(s@, from as int),
        from <= r <= s@.len(),
{
    let n = s.unicode_len();
    let mut p: usize = from;
    while p < n && s.get_char(p) != '.'
        invariant
            from <= p <= n,
            n == s@.len(),
            forall|j: int| from <= j < p ==> s@[j] != '.',
        decreases n - p,
    {
        p = p + 1;
    }
    proof {
        lemma_dot_index_bounds(s@, from as int);
        let d = dot_index(s@, from as int);
        if d < p {
            assert(s@[d] == '.');
        }
        if p < d {
            assert(s@[p as int] == '.');
        }
    }
    p
}

/// The digits-and-dots core of a version requirement, e.g. `">=8.2.1"`
/// becomes `"8.2.1"`.
pub fn sanitize_php_version(version: &str) -> (r: String)
    ensures
        r@ == spec_digits_of(version@),
{
    let (a, b) = find_version_run(version);
    let digits = version.substring_char(a, b);
    digits.to_owned()
}

/// The normalized `MAJOR.MINOR` of a version requirement, e.g. `"^8.2"` or
/// `">=8.2.1"` becomes `"8.2"`; when no minor component exists the bare
/// digits-and-dots run is returned unchanged.
pub fn extract_major_minor(version: &str) -> (r: String)
    ensures
        r@ == spec_extract_major_minor(version@),
{
    let (a, b) = find_version_run(version);
    let digits = version.substring_char(a, b);
    let dn = digits.unicode_len();
    let p = find_dot(digits, 0);
    if p == dn {
        return digits.to_owned();
    }
    let q = find_dot(digits, p + 1);
    if p > 0 && q > p + 1 {
        let major = digits.substring_char(0, p);
        let minor = digits.substring_char(p + 1, q);
        let mut out = major.to_owned();
        out.append(".");
        out.append(minor);
        proof {
            reveal_strlit(".");
            assert("."@ =~= seq!['.']);
            assert(out@ =~= digits@.subrange(0, p as int) + seq!['.'] + digits@.subrange(
                p + 1,
                q as int,
            ));
        }
        out
    } else {
        digits.to_owned()
    }
}

} // verus!
