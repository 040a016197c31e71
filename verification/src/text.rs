//! Character-sequence utilities the rest of the library builds on: substring
//! search, splitting on a separator, whitespace trimming, and prefix tests.
//! Text is handled as `Vec<char>` internally so that every step is verified
//! against `Seq<char>` views.
use vstd::prelude::*;

verus! {

/// `pat` occurs in `t` starting at index `i`.
pub open spec fn contains_at(t: Seq<char>, pat: Seq<char>, i: int) -> bool {
    0 <= i && i + pat.len() <= t.len() && t.subrange(i, i + pat.len()) == pat
}

/// `pat` occurs somewhere in `t`.
pub open spec fn has_sub(t: Seq<char>, pat: Seq<char>) -> bool {
    exists|i: int| contains_at(t, pat, i)
}

/// The index of the first occurrence of `pat` in `t`, if any.
pub open spec fn find_spec(t: Seq<char>, pat: Seq<char>) -> Option<int>
    decreases t.len(),
{
    if contains_at(t, pat, 0) {
        Some(0)
    } else if t.len() == 0 {
        None
    } else {
        match find_spec(t.subrange(1, t.len() as int), pat) {
            Some(i) => Some(i + 1),
            None => None,
        }
    }
}

/// Occurrences in the tail of `t` are occurrences in `t`, shifted by one.
proof fn lemma_contains_at_shift(t: Seq<char>, pat: Seq<char>, j: int)
    requires
        t.len() > 0,
        0 <= j,
    ensures
        contains_at(t.subrange(1, t.len() as int), pat, j) == contains_at(t, pat, j + 1),
{
    let tail = t.subrange(1, t.len() as int);
    if j + 1 + pat.len() <= t.len() {
        assert(tail.subrange(j, j + pat.len() as int) =~= t.subrange(j + 1, j + 1 + pat.len()));
    }
}

/// `find_spec` returns the least index at which `pat` occurs, or `None`
/// when `pat` does not occur at all.
pub proof fn lemma_find_spec(t: Seq<char>, pat: Seq<char>)
    ensures
        match find_spec(t, pat) {
            Some(i) => contains_at(t, pat, i) && forall|j: int| 0 <= j < i ==> !contains_at(t, pat, j),
            None => !has_sub(t, pat),
        },
    decreases t.len(),
{
    if contains_at(t, pat, 0) {
    } else if t.len() == 0 {
        assert forall|j: int| !contains_at(t, pat, j) by {
            if 0 <= j && j + pat.len() <= t.len() {
                assert(t.subrange(j, j + pat.len() as int) =~= pat ==> contains_at(t, pat, j));
            }
        }
    } else {
        let tail = t.subrange(1, t.len() as int);
        lemma_find_spec(tail, pat);
        match find_spec(tail, pat) {
            Some(i) => {
                lemma_contains_at_shift(t, pat, i);
                assert forall|j: int| 0 <= j < i + 1 implies !contains_at(t, pat, j) by {
                    if j > 0 {
                        lemma_contains_at_shift(t, pat, j - 1);
                    }
                }
            },
            None => {
                assert forall|j: int| !contains_at(t, pat, j) by {
                    if j > 0 {
                        lemma_contains_at_shift(t, pat, j - 1);
                    }
                }
            },
        }
    }
}

/// The first occurrence pins `find_spec` down uniquely.
pub proof fn lemma_find_spec_unique(t: Seq<char>, pat: Seq<char>, i: int)
    requires
        contains_at(t, pat, i),
        forall|j: int| 0 <= j < i ==> !contains_at(t, pat, j),
    ensures
        find_spec(t, pat) == Some(i),
{
    lemma_find_spec(t, pat);
    match find_spec(t, pat) {
        Some(k) => {
            if k < i {
                assert(!contains_at(t, pat, k));
            } else if i < k {
                assert(!contains_at(t, pat, i));
            }
        },
        None => {
            assert(!contains_at(t, pat, i));
        },
    }
}

/// `pat` occurs nowhere: `find_spec` is `None`.
pub proof fn lemma_find_spec_none(t: Seq<char>, pat: Seq<char>)
    requires
        forall|j: int| !contains_at(t, pat, j),
    ensures
        find_spec(t, pat) is None,
{
    lemma_find_spec(t, pat);
    if let Some(i) = find_spec(t, pat) {
        assert(!contains_at(t, pat, i));
    }
}

/// The characters of `s`, one per element.
pub fn str_chars(s: &str) -> (r: Vec<char>)
    ensures
        r@ == s@,
{
    let n: usize = s.unicode_len();
    let mut r: Vec<char> = Vec::new();
    let mut i: usize = 0;
    while i < n
        invariant
            n == s@.len(),
            i <= n,
            r@ == s@.subrange(0, i as int),
        decreases n - i,
    {
        r.push(s.get_char(i));
        i = i + 1;
        proof {
            assert(r@ =~= s@.subrange(0, i as int));
        }
    }
    proof {
        assert(r@ =~= s@);
    }
    r
}

/// Relies on `String`'s `FromIterator<char>` impl: collecting an iterator of
/// characters yields the string made of exactly those characters, in order.
#[verifier::external_body]
pub fn chars_string(v: &Vec<char>) -> (r: String)
    ensures
        r@ == v@,
{
    v.iter().collect()
}

/// An owned copy of `s`.
pub fn string_lit(s: &str) -> (r: String)
    ensures
        r@ == s@,
{
    let v = str_chars(s);
    chars_string(&v)
}

/// Appends every character of `s` to `out`.
pub fn push_str(out: &mut Vec<char>, s: &str)
    ensures
        final(out)@ == old(out)@ + s@,
{
    let n: usize = s.unicode_len();
    let mut i: usize = 0;
    while i < n
        invariant
            n == s@.len(),
            i <= n,
            out@ == old(out)@ + s@.subrange(0, i as int),
        decreases n - i,
    {
        out.push(s.get_char(i));
        i = i + 1;
        proof {
            assert(old(out)@ + s@.subrange(0, i - 1) + seq![s@[i - 1]] =~= old(out)@ + s@.subrange(
                0,
                i as int,
            ));
        }
    }
    proof {
        assert(s@.subrange(0, n as int) =~= s@);
    }
}

/// Appends every character of `s` to `out`.
pub fn push_chars(out: &mut Vec<char>, s: &Vec<char>)
    ensures
        final(out)@ == old(out)@ + s@,
{
    let n: usize = s.len();
    let mut i: usize = 0;
    while i < n
        invariant
            n == s@.len(),
            i <= n,
            out@ == old(out)@ + s@.subrange(0, i as int),
        decreases n - i,
    {
        out.push(s[i]);
        i = i + 1;
        proof {
            assert(old(out)@ + s@.subrange(0, i - 1) + seq![s@[i - 1]] =~= old(out)@ + s@.subrange(
                0,
                i as int,
            ));
        }
    }
    proof {
        assert(s@.subrange(0, n as int) =~= s@);
    }
}

/// The slice of `t` from `a` (inclusive) to `b` (exclusive).
pub fn sub_vec(t: &Vec<char>, a: usize, b: usize) -> (r: Vec<char>)
    requires
        a <= b <= t@.len(),
    ensures
        r@ == t@.subrange(a as int, b as int),
{
    let mut r: Vec<char> = Vec::new();
    let mut i: usize = a;
    while i < b
        invariant
            a <= i <= b <= t@.len(),
            r@ == t@.subrange(a as int, i as int),
        decreases b - i,
    {
        r.push(t[i]);
        i = i + 1;
        proof {
            assert(r@ =~= t@.subrange(a as int, i as int));
        }
    }
    r
}

/// `pat` occurs in `t` starting exactly at `i`.
fn matches_at(t: &Vec<char>, pat: &Vec<char>, i: usize) -> (r: bool)
    requires
        i + pat@.len() <= t@.len(),
    ensures
        r == contains_at(t@, pat@, i as int),
{
    let n: usize = t.len();
    let m: usize = pat.len();
    let mut k: usize = 0;
    while k < m
        invariant
            n == t@.len(),
            m == pat@.len(),
            i + m <= n,
            k <= m,
            forall|j: int| 0 <= j < k ==> t@[i + j] == pat@[j],
        decreases m - k,
    {
        if t[i + k] != pat[k] {
            proof {
                assert(t@.subrange(i as int, i + m) != pat@) by {
                    assert(t@.subrange(i as int, i + m)[k as int] != pat@[k as int]);
                }
            }
            return false;
        }
        k = k + 1;
    }
    proof {
        assert(t@.subrange(i as int, i + m) =~= pat@);
    }
    true
}

/// The index of the first occurrence of `pat` in `t`, if any.
pub fn find_sub(t: &Vec<char>, pat: &Vec<char>) -> (r: Option<usize>)
    ensures
        match r {
            Some(i) => find_spec(t@, pat@) == Some(i as int),
            None => find_spec(t@, pat@) is None,
        },
{
    let n: usize = t.len();
    let m: usize = pat.len();
    if m > n {
        proof {
            assert forall|j: int| !contains_at(t@, pat@, j) by {}
            lemma_find_spec_none(t@, pat@);
        }
        return None;
    }
    if m == 0 {
        proof {
            assert(t@.subrange(0, 0) =~= pat@);
            lemma_find_spec_unique(t@, pat@, 0);
        }
        return Some(0);
    }
    let mut i: usize = 0;
    while i <= n - m
        invariant
            n == t@.len(),
            m == pat@.len(),
            0 < m <= n,
            i <= n - m + 1,
            forall|j: int| 0 <= j < i ==> !contains_at(t@, pat@, j),
        decreases n - i,
    {
        if matches_at(t, pat, i) {
            proof {
                lemma_find_spec_unique(t@, pat@, i as int);
            }
            return Some(i);
        }
        i = i + 1;
    }
    proof {
        assert forall|j: int| !contains_at(t@, pat@, j) by {}
        lemma_find_spec_none(t@, pat@);
    }
    None
}

/// `pat` occurs somewhere in `t`.
pub fn contains_sub(t: &Vec<char>, pat: &Vec<char>) -> (r: bool)
    ensures
        r == has_sub(t@, pat@),
{
    let f = find_sub(t, pat);
    proof {
        lemma_find_spec(t@, pat@);
    }
    f.is_some()
}

/// The pieces of `t` between occurrences of `pat`, in order; `t` itself
/// when `pat` does not occur.
pub open spec fn split_spec(t: Seq<char>, pat: Seq<char>) -> Seq<Seq<char>>
    decreases t.len(),
{
    if pat.len() == 0 {
        seq![t]
    } else {
        match find_spec(t, pat) {
            None => seq![t],
            Some(i) => if 0 <= i && i + pat.len() <= t.len() {
                seq![t.subrange(0, i)] + split_spec(t.subrange(i + pat.len(), t.len() as int), pat)
            } else {
                seq![t]
            },
        }
    }
}

/// Splits `t` on each occurrence of `pat`, preserving order.
pub fn split_on(t: &Vec<char>, pat: &Vec<char>) -> (r: Vec<Vec<char>>)
    requires
        pat@.len() > 0,
    ensures
        r.deep_view() == split_spec(t@, pat@),
    decreases t@.len(),
{
    proof {
        lemma_find_spec(t@, pat@);
    }
    match find_sub(t, pat) {
        None => {
            let copy = sub_vec(t, 0, t.len());
            let mut r: Vec<Vec<char>> = Vec::new();
            r.push(copy);
            proof {
                assert(t@.subrange(0, t@.len() as int) =~= t@);
                assert(r.deep_view() =~~= split_spec(t@, pat@));
            }
            r
        },
        Some(i) => {
            proof {
                assert(contains_at(t@, pat@, i as int));
            }
            let tlen: usize = t.len();
            let head = sub_vec(t, 0, i);
            let tail = sub_vec(t, i + pat.len(), tlen);
            let mut rest = split_on(&tail, pat);
            rest.insert(0, head);
            proof {
                assert(rest.deep_view() =~~= split_spec(t@, pat@));
            }
            rest
        },
    }
}

/// Whitespace for the purposes of trimming: space, tab, newline, carriage
/// return.
pub open spec fn is_space(c: char) -> bool {
    c == ' ' || c == '\t' || c == '\n' || c == '\r'
}

/// `s` without leading whitespace.
pub open spec fn trim_start_spec(s: Seq<char>) -> Seq<char>
    decreases s.len(),
{
    if s.len() > 0 && is_space(s[0]) {
        trim_start_spec(s.subrange(1, s.len() as int))
    } else {
        s
    }
}

/// `s` without trailing whitespace.
pub open spec fn trim_end_spec(s: Seq<char>) -> Seq<char>
    decreases s.len(),
{
    if s.len() > 0 && is_space(s[s.len() - 1]) {
        trim_end_spec(s.subrange(0, s.len() - 1))
    } else {
        s
    }
}

/// `s` without leading and trailing whitespace.
pub open spec fn trim_spec(s: Seq<char>) -> Seq<char> {
    trim_end_spec(trim_start_spec(s))
}

/// `t` without leading whitespace.
fn trim_start(t: &Vec<char>) -> (r: Vec<char>)
    ensures
        r@ == trim_start_spec(t@),
    decreases t@.len(),
{
    if t.len() > 0 {
        let c = t[0];
        if c == ' ' || c == '\t' || c == '\n' || c == '\r' {
            let tail = sub_vec(t, 1, t.len());
            return trim_start(&tail);
        }
    }
    let r = sub_vec(t, 0, t.len());
    proof {
        assert(t@.subrange(0, t@.len() as int) =~= t@);
    }
    r
}

/// `t` without trailing whitespace.
fn trim_end(t: &Vec<char>) -> (r: Vec<char>)
    ensures
        r@ == trim_end_spec(t@),
    decreases t@.len(),
{
    if t.len() > 0 {
        let c = t[t.len() - 1];
        if c == ' ' || c == '\t' || c == '\n' || c == '\r' {
            let head = sub_vec(t, 0, t.len() - 1);
            return trim_end(&head);
        }
    }
    let r = sub_vec(t, 0, t.len());
    proof {
        assert(t@.subrange(0, t@.len() as int) =~= t@);
    }
    r
}

/// `t` without leading and trailing whitespace.
pub fn trim(t: &Vec<char>) -> (r: Vec<char>)
    ensures
        r@ == trim_spec(t@),
{
    let s = trim_start(t);
    trim_end(&s)
}

/// For a vector of characters the deep view is the view itself.
pub proof fn lemma_deep_view_is_view(v: Vec<char>)
    ensures
        v.deep_view() == v@,
{
    assert(v.deep_view() =~= v@);
}

/// For an optional vector of characters the deep view is the view of what
/// it holds.
pub proof fn lemma_opt_deep_view_is_view(o: Option<Vec<char>>)
    ensures
        o.deep_view() == (match o {
            Some(v) => Some(v@),
            None => None::<Seq<char>>,
        }),
{
    match o {
        Some(v) => {
            lemma_deep_view_is_view(v);
        },
        None => {},
    }
}

/// The two vectors hold the same characters.
pub fn vec_eq(a: &Vec<char>, b: &Vec<char>) -> (r: bool)
    ensures
        r == (a@ == b@),
{
    let n: usize = a.len();
    if n != b.len() {
        return false;
    }
    let mut i: usize = 0;
    while i < n
        invariant
            n == a@.len() == b@.len(),
            i <= n,
            forall|j: int| 0 <= j < i ==> a@[j] == b@[j],
        decreases n - i,
    {
        if a[i] != b[i] {
            return false;
        }
        i = i + 1;
    }
    proof {
        assert(a@ =~= b@);
    }
    true
}

/// The two strings hold the same characters.
pub fn str_eq(a: &str, b: &str) -> (r: bool)
    ensures
        r == (a@ == b@),
{
    let va = str_chars(a);
    let vb = str_chars(b);
    vec_eq(&va, &vb)
}

/// `pat` is a prefix of `t`.
pub open spec fn starts_with_spec(t: Seq<char>, pat: Seq<char>) -> bool {
    pat.len() <= t.len() && t.subrange(0, pat.len() as int) == pat
}

/// `pat` is a suffix of `t`.
pub open spec fn ends_with_spec(t: Seq<char>, pat: Seq<char>) -> bool {
    pat.len() <= t.len() && t.subrange(t.len() - pat.len(), t.len() as int) == pat
}

/// `pat` is a suffix of `t`.
pub fn ends_with(t: &Vec<char>, pat: &Vec<char>) -> (r: bool)
    ensures
        r == ends_with_spec(t@, pat@),
{
    if pat.len() > t.len() {
        return false;
    }
    matches_at(t, pat, t.len() - pat.len())
}

/// `pat` is a prefix of `t`.
pub fn starts_with(t: &Vec<char>, pat: &Vec<char>) -> (r: bool)
    ensures
        r == starts_with_spec(t@, pat@),
{
    if pat.len() > t.len() {
        return false;
    }
    matches_at(t, pat, 0)
}

} // verus!
