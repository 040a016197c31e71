//! Output-path derivation: the shared sibling-directory rule used both for
//! the suggestions artifact and for the updated copy, and the collision-safe
//! allocator for the latter. Paths are modelled as `/`-separated strings
//! without trailing or duplicated separators.
use vstd::prelude::*;
use crate::num::{dec_digits, lemma_dec_digits_all_digits, lemma_dec_round_trip};
use crate::text::{ends_with_spec, str_chars, sub_vec, vec_eq};

verus! {

/// The index of the last occurrence of `c` in `s`, if any.
pub open spec fn rfind_spec(s: Seq<char>, c: char) -> Option<int>
    decreases s.len(),
{
    if s.len() == 0 {
        None
    } else if s[s.len() - 1] == c {
        Some(s.len() - 1)
    } else {
        rfind_spec(s.subrange(0, s.len() - 1), c)
    }
}

/// When `rfind_spec` finds an index it lies inside the sequence.
proof fn lemma_rfind_bounds(s: Seq<char>, c: char)
    ensures
        match rfind_spec(s, c) {
            Some(i) => 0 <= i < s.len(),
            None => true,
        },
    decreases s.len(),
{
    if s.len() > 0 && s[s.len() - 1] != c {
        lemma_rfind_bounds(s.subrange(0, s.len() - 1), c);
    }
}

/// The index of the last occurrence of `c` in `v`, if any.
fn rfind_char(v: &Vec<char>, c: char) -> (r: Option<usize>)
    ensures
        match r {
            Some(i) => rfind_spec(v@, c) == Some(i as int),
            None => rfind_spec(v@, c) is None,
        },
{
    let mut k: usize = v.len();
    proof {
        assert(v@.subrange(0, v@.len() as int) =~= v@);
    }
    while k > 0
        invariant
            k <= v@.len(),
            rfind_spec(v@, c) == rfind_spec(v@.subrange(0, k as int), c),
        decreases k,
    {
        k = k - 1;
        if v[k] == c {
            proof {
                assert(v@.subrange(0, k + 1)[k as int] == c);
            }
            return Some(k);
        }
        proof {
            let p = v@.subrange(0, k + 1);
            assert(p[p.len() - 1] != c);
            assert(p.subrange(0, p.len() - 1) =~= v@.subrange(0, k as int));
        }
    }
    proof {
        assert(v@.subrange(0, 0).len() == 0);
    }
    None
}

/// The component after the last separator; the whole path when there is
/// none.
pub open spec fn file_name_spec(p: Seq<char>) -> Seq<char> {
    match rfind_spec(p, '/') {
        Some(i) => p.subrange(i + 1, p.len() as int),
        None => p,
    }
}

/// The file name without its extension: everything before the final dot,
/// except that a name whose only dot leads it is kept whole.
pub open spec fn file_stem_spec(p: Seq<char>) -> Seq<char> {
    let name = file_name_spec(p);
    match rfind_spec(name, '.') {
        Some(i) => if i == 0 {
            name
        } else {
            name.subrange(0, i)
        },
        None => name,
    }
}

/// The directory holding `p`: none for an empty or root path, the empty
/// path for a bare file name, the root for a file directly under it, and
/// everything before the last separator otherwise.
pub open spec fn parent_spec(p: Seq<char>) -> Option<Seq<char>> {
    if p.len() == 0 || p == "/"@ {
        None
    } else {
        match rfind_spec(p, '/') {
            None => Some(Seq::empty()),
            Some(i) => if i == 0 {
                Some("/"@)
            } else {
                Some(p.subrange(0, i))
            },
        }
    }
}

/// `dir`'s last path component is `name`.
pub open spec fn ends_with_component(dir: Seq<char>, name: Seq<char>) -> bool {
    dir == name || (dir.len() > name.len() && ends_with_spec(dir, name) && dir[dir.len()
        - name.len() - 1] == '/')
}

/// `name` under `dir`.
pub open spec fn join_path(dir: Seq<char>, name: Seq<char>) -> Seq<char> {
    if dir.len() == 0 {
        name
    } else if dir[dir.len() - 1] == '/' {
        dir + name
    } else {
        dir + "/"@ + name
    }
}

/// The directory the pipeline writes into for a source at `p`: the sibling
/// directory `leaf` when the source lives in a directory named `originals`,
/// a child directory `leaf` of the source's own directory otherwise (for a
/// source directly in `public` that is `public/leaf`), and `public/leaf`
/// when the source has no parent at all.
pub open spec fn derive_dir_spec(p: Seq<char>, leaf: Seq<char>) -> Seq<char> {
    match parent_spec(p) {
        None => join_path("public"@, leaf),
        Some(parent) => if ends_with_component(parent, "originals"@) {
            match parent_spec(parent) {
                Some(gp) => join_path(gp, leaf),
                None => join_path(parent, leaf),
            }
        } else {
            join_path(parent, leaf)
        },
    }
}

/// The directory holding `p`, if any.
fn parent_of(p: &Vec<char>) -> (r: Option<Vec<char>>)
    ensures
        r.deep_view() == parent_spec(p@),
{
    let root = str_chars("/");
    if p.len() == 0 || vec_eq(p, &root) {
        return None;
    }
    match rfind_char(p, '/') {
        None => {
            let empty: Vec<char> = Vec::new();
            proof {
                crate::text::lemma_deep_view_is_view(empty);
                assert(empty@ =~= Seq::<char>::empty());
            }
            Some(empty)
        },
        Some(i) => {
            proof {
                lemma_rfind_bounds(p@, '/');
            }
            if i == 0 {
                proof {
                    crate::text::lemma_deep_view_is_view(root);
                }
                Some(root)
            } else {
                let r = sub_vec(p, 0, i);
                proof {
                    crate::text::lemma_deep_view_is_view(r);
                }
                Some(r)
            }
        },
    }
}

/// `dir`'s last path component is `name`.
fn is_last_component(dir: &Vec<char>, name: &Vec<char>) -> (r: bool)
    ensures
        r == ends_with_component(dir@, name@),
{
    if vec_eq(dir, name) {
        return true;
    }
    if dir.len() > name.len() && crate::text::ends_with(dir, name) {
        return dir[dir.len() - name.len() - 1] == '/';
    }
    false
}

/// `name` under `dir`.
fn join_exec(dir: &Vec<char>, name: &Vec<char>) -> (r: Vec<char>)
    ensures
        r@ == join_path(dir@, name@),
{
    let mut out = sub_vec(dir, 0, dir.len());
    proof {
        assert(dir@.subrange(0, dir@.len() as int) =~= dir@);
    }
    if dir.len() > 0 && dir[dir.len() - 1] != '/' {
        crate::text::push_str(&mut out, "/");
    }
    crate::text::push_chars(&mut out, name);
    out
}

/// The directory derived for `p` and the given leaf name.
pub fn derive_dir(p: &Vec<char>, leaf: &Vec<char>) -> (r: Vec<char>)
    ensures
        r@ == derive_dir_spec(p@, leaf@),
{
    match parent_of(p) {
        None => {
            let base = str_chars("public");
            join_exec(&base, leaf)
        },
        Some(parent) => {
            proof {
                crate::text::lemma_deep_view_is_view(parent);
            }
            let originals = str_chars("originals");
            if is_last_component(&parent, &originals) {
                match parent_of(&parent) {
                    Some(gp) => {
                        proof {
                            crate::text::lemma_deep_view_is_view(gp);
                        }
                        join_exec(&gp, leaf)
                    },
                    None => join_exec(&parent, leaf),
                }
            } else {
                join_exec(&parent, leaf)
            }
        },
    }
}

/// The file name without its extension.
fn file_stem(p: &Vec<char>) -> (r: Vec<char>)
    ensures
        r@ == file_stem_spec(p@),
{
    proof {
        lemma_rfind_bounds(p@, '/');
    }
    let plen: usize = p.len();
    let name = match rfind_char(p, '/') {
        Some(i) => sub_vec(p, i + 1, plen),
        None => {
            let c = sub_vec(p, 0, p.len());
            proof {
                assert(p@.subrange(0, p@.len() as int) =~= p@);
            }
            c
        },
    };
    proof {
        lemma_rfind_bounds(name@, '.');
    }
    match rfind_char(&name, '.') {
        Some(i) => {
            if i == 0 {
                name
            } else {
                sub_vec(&name, 0, i)
            }
        },
        None => name,
    }
}

/// The extension of the file name: what follows its final dot, absent when
/// there is no dot or the name's only dot leads it.
pub open spec fn extension_spec(p: Seq<char>) -> Option<Seq<char>> {
    let name = file_name_spec(p);
    match rfind_spec(name, '.') {
        Some(i) => if i == 0 {
            None
        } else {
            Some(name.subrange(i + 1, name.len() as int))
        },
        None => None,
    }
}

/// The source is an MP3 file by its extension.
pub fn is_mp3_path(file_path: &str) -> (r: bool)
    ensures
        r == (extension_spec(file_path@) == Some("mp3"@)),
{
    let p = str_chars(file_path);
    let name = match rfind_char(&p, '/') {
        Some(i) => {
            proof {
                lemma_rfind_bounds(p@, '/');
            }
            let plen: usize = p.len();
            sub_vec(&p, i + 1, plen)
        },
        None => {
            let c = sub_vec(&p, 0, p.len());
            proof {
                assert(p@.subrange(0, p@.len() as int) =~= p@);
            }
            c
        },
    };
    proof {
        lemma_rfind_bounds(name@, '.');
    }
    match rfind_char(&name, '.') {
        Some(i) => {
            if i == 0 {
                return false;
            }
            let nlen: usize = name.len();
            let ext = sub_vec(&name, i + 1, nlen);
            let mp3 = str_chars("mp3");
            vec_eq(&ext, &mp3)
        },
        None => false,
    }
}

/// Where the suggestions artifact for a source at `p` is written: the
/// derived `suggestions` directory, then the source's stem with the
/// `.suggestions.json` suffix. A repeated save overwrites: no collision
/// counter is applied here, by design.
pub open spec fn suggestions_path_spec(p: Seq<char>) -> Seq<char> {
    join_path(derive_dir_spec(p, "suggestions"@), file_stem_spec(p) + ".suggestions.json"@)
}

/// The path the suggestions artifact for `file_path` is saved at.
pub fn suggestions_file_path(file_path: &str) -> (r: String)
    ensures
        r@ == suggestions_path_spec(file_path@),
{
    let p = str_chars(file_path);
    let leaf = str_chars("suggestions");
    let dir = derive_dir(&p, &leaf);
    let mut name = file_stem(&p);
    crate::text::push_str(&mut name, ".suggestions.json");
    let full = join_exec(&dir, &name);
    crate::text::chars_string(&full)
}

/// The `k`-th candidate name for the updated copy: the stem with the fixed
/// extension, then `-1`, `-2`, ... appended before the extension.
pub open spec fn candidate_name(stem: Seq<char>, k: nat) -> Seq<char> {
    if k == 0 {
        stem + ".mp3"@
    } else {
        stem + "-"@ + dec_digits(k) + ".mp3"@
    }
}

/// The `k`-th candidate path for the updated copy of a source at `p`.
pub open spec fn candidate_spec(p: Seq<char>, k: nat) -> Seq<char> {
    join_path(derive_dir_spec(p, "updated"@), candidate_name(file_stem_spec(p), k))
}

/// `r` is the path the allocator owes for a source at `p` given the taken
/// paths: the first candidate, in counter order, that is not taken.
pub open spec fn is_allocated_path(p: Seq<char>, taken: Seq<Seq<char>>, r: Seq<char>) -> bool {
    exists|k: nat|
        r == candidate_spec(p, k) && !taken.contains(candidate_spec(p, k)) && (forall|j: nat|
            j < k ==> taken.contains(candidate_spec(p, j)))
}

/// Equal sequences stay equal when the same prefix is removed.
proof fn lemma_prepend_inj(x: Seq<char>, a: Seq<char>, b: Seq<char>)
    requires
        x + a == x + b,
    ensures
        a == b,
{
    assert((x + a).len() == x.len() + a.len());
    assert((x + b).len() == x.len() + b.len());
    assert(a.len() == b.len());
    assert forall|i: int| 0 <= i < a.len() implies a[i] == b[i] by {
        assert(i < b.len());
        assert((x + a)[x.len() + i] == a[i]);
        assert((x + b)[x.len() + i] == b[i]);
        assert((x + a)[x.len() + i] == (x + b)[x.len() + i]);
    }
    assert(a =~= b);
}

/// Distinct counters give distinct candidate names.
proof fn lemma_candidate_name_inj(stem: Seq<char>, k1: nat, k2: nat)
    requires
        candidate_name(stem, k1) == candidate_name(stem, k2),
    ensures
        k1 == k2,
{
    reveal_strlit(".mp3");
    reveal_strlit("-");
    lemma_dec_digits_all_digits(k1);
    lemma_dec_digits_all_digits(k2);
    assert(".mp3"@.len() == 4);
    assert("-"@.len() == 1);
    if k1 == 0 && k2 != 0 {
        assert(candidate_name(stem, k1).len() == stem.len() + 4);
        assert(candidate_name(stem, k2) == stem + "-"@ + dec_digits(k2) + ".mp3"@);
        assert(candidate_name(stem, k2).len() == stem.len() + 1 + dec_digits(k2).len() + 4);
        assert(dec_digits(k2).len() > 0);
        assert(false);
    } else if k1 != 0 && k2 == 0 {
        assert(candidate_name(stem, k2).len() == stem.len() + 4);
        assert(candidate_name(stem, k1).len() == stem.len() + 1 + dec_digits(k1).len() + 4);
        assert(dec_digits(k1).len() > 0);
        assert(false);
    } else if k1 != 0 && k2 != 0 {
        let d1 = dec_digits(k1);
        let d2 = dec_digits(k2);
        let x = stem + "-"@;
        assert(candidate_name(stem, k1) =~= x + (d1 + ".mp3"@));
        assert(candidate_name(stem, k2) =~= x + (d2 + ".mp3"@));
        lemma_prepend_inj(x, d1 + ".mp3"@, d2 + ".mp3"@);
        if d1.len() < d2.len() {
            assert((d1 + ".mp3"@)[d1.len() as int] == '.');
            assert((d2 + ".mp3"@)[d1.len() as int] == d2[d1.len() as int]);
            assert(crate::num::is_digit(d2[d1.len() as int]));
            assert(false);
        } else if d2.len() < d1.len() {
            assert((d2 + ".mp3"@)[d2.len() as int] == '.');
            assert((d1 + ".mp3"@)[d2.len() as int] == d1[d2.len() as int]);
            assert(crate::num::is_digit(d1[d2.len() as int]));
            assert(false);
        } else {
            assert forall|i: int| 0 <= i < d1.len() implies d1[i] == d2[i] by {
                assert((d1 + ".mp3"@)[i] == (d2 + ".mp3"@)[i]);
            }
            assert(d1 =~= d2);
            lemma_dec_round_trip(k1);
            lemma_dec_round_trip(k2);
        }
    }
}

/// Distinct counters give distinct candidate paths.
proof fn lemma_candidate_inj(p: Seq<char>, k1: nat, k2: nat)
    requires
        candidate_spec(p, k1) == candidate_spec(p, k2),
    ensures
        k1 == k2,
{
    let dir = derive_dir_spec(p, "updated"@);
    let stem = file_stem_spec(p);
    let n1 = candidate_name(stem, k1);
    let n2 = candidate_name(stem, k2);
    if dir.len() == 0 {
        lemma_candidate_name_inj(stem, k1, k2);
    } else if dir[dir.len() - 1] == '/' {
        lemma_prepend_inj(dir, n1, n2);
        lemma_candidate_name_inj(stem, k1, k2);
    } else {
        assert(dir + "/"@ + n1 =~= (dir + "/"@) + n1);
        assert(dir + "/"@ + n2 =~= (dir + "/"@) + n2);
        lemma_prepend_inj(dir + "/"@, n1, n2);
        lemma_candidate_name_inj(stem, k1, k2);
    }
}

/// When the first `k` candidates are all among the taken paths, `k` cannot
/// exceed how many paths are taken: the candidates are pairwise distinct.
proof fn lemma_candidates_bound(p: Seq<char>, taken: Seq<Seq<char>>, k: nat)
    requires
        forall|j: nat| j < k ==> taken.contains(#[trigger] candidate_spec(p, j)),
    ensures
        k <= taken.len(),
{
    let cands = Seq::new(k, |j: int| candidate_spec(p, j as nat));
    assert forall|i: int, j: int| 0 <= i < j < k implies cands[i] != cands[j] by {
        if cands[i] == cands[j] {
            lemma_candidate_inj(p, i as nat, j as nat);
        }
    }
    assert(cands.no_duplicates());
    cands.unique_seq_to_set();
    assert forall|x: Seq<char>| cands.to_set().contains(x) implies taken.to_set().contains(
        x,
    ) by {
        let i = choose|i: int| 0 <= i < cands.len() && cands[i] == x;
        assert(taken.contains(candidate_spec(p, i as nat)));
        let w = choose|w: int| 0 <= w < taken.len() && taken[w] == x;
        assert(taken.to_set().contains(taken[w]));
    }
    assert(cands.to_set().subset_of(taken.to_set()));
    taken.lemma_cardinality_of_set();
    vstd::set_lib::lemma_len_subset(cands.to_set(), taken.to_set());
}

/// Whether any of the taken paths reads `cand`.
fn is_taken(taken: &Vec<String>, cand: &Vec<char>) -> (r: bool)
    ensures
        r == taken.deep_view().contains(cand@),
{
    let n: usize = taken.len();
    let mut i: usize = 0;
    while i < n
        invariant
            n == taken@.len(),
            i <= n,
            forall|j: int| 0 <= j < i ==> taken.deep_view()[j] != cand@,
        decreases n - i,
    {
        if crate::text::str_eq(taken[i].as_str(), crate::text::chars_string(cand).as_str()) {
            proof {
                assert(taken.deep_view()[i as int] == cand@);
            }
            return true;
        }
        i = i + 1;
    }
    proof {
        if taken.deep_view().contains(cand@) {
            let j = choose|j: int|
                0 <= j < taken.deep_view().len() && taken.deep_view()[j] == cand@;
            assert(taken.deep_view()[j] != cand@);
        }
    }
    false
}

/// The `k`-th candidate path, assembled from the derived directory and stem.
fn candidate_exec(dir: &Vec<char>, stem: &Vec<char>, k: usize) -> (r: Vec<char>)
    ensures
        r@ == join_path(dir@, candidate_name(stem@, k as nat)),
{
    let mut name = sub_vec(stem, 0, stem.len());
    proof {
        assert(stem@.subrange(0, stem@.len() as int) =~= stem@);
    }
    if k > 0 {
        crate::text::push_str(&mut name, "-");
        let digits = crate::num::usize_to_chars(k);
        crate::text::push_chars(&mut name, &digits);
    }
    crate::text::push_str(&mut name, ".mp3");
    proof {
        assert(name@ =~= candidate_name(stem@, k as nat));
    }
    join_exec(dir, &name)
}

/// Allocates the path for the updated copy of a source at `original_file`,
/// avoiding every path in `taken`: the stem with the fixed extension under
/// the derived `updated` directory, with `-1`, `-2`, ... appended before
/// the extension until a free path is found. The result is never a taken
/// path, and every candidate before it was taken.
pub fn create_output_path(original_file: &str, taken: &Vec<String>) -> (r: String)
    ensures
        is_allocated_path(original_file@, taken.deep_view(), r@),
        !taken.deep_view().contains(r@),
{
    let p = str_chars(original_file);
    let leaf = str_chars("updated");
    let dir = derive_dir(&p, &leaf);
    let stem = file_stem(&p);
    let ghost tk = taken.deep_view();
    let tlen: usize = taken.len();
    let mut k: usize = 0;
    loop
        invariant
            p@ == original_file@,
            dir@ == derive_dir_spec(original_file@, "updated"@),
            stem@ == file_stem_spec(original_file@),
            tk == taken.deep_view(),
            tk.len() == tlen,
            k <= tlen,
            forall|j: nat| j < k ==> tk.contains(#[trigger] candidate_spec(original_file@, j)),
        decreases tlen - k,
    {
        let cand = candidate_exec(&dir, &stem, k);
        proof {
            assert(cand@ == candidate_spec(original_file@, k as nat));
        }
        if !is_taken(taken, &cand) {
            proof {
                assert(!tk.contains(candidate_spec(original_file@, k as nat)));
                assert(is_allocated_path(original_file@, tk, cand@));
            }
            return crate::text::chars_string(&cand);
        }
        proof {
            assert forall|j: nat| j < k + 1 implies tk.contains(
                #[trigger] candidate_spec(original_file@, j),
            ) by {}
            lemma_candidates_bound(original_file@, tk, (k + 1) as nat);
            assert(k + 1 <= tlen);
        }
        k = k + 1;
    }
}

} // verus!
