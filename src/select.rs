//! Choosing the candidate files of a walk: path rules, pattern filters and a
//! lexicographic order on paths.

use vstd::prelude::*;
use crate::pattern::{all_compile_upto, any_hits, glob_compiles, texts, PatternSet};

verus! {

/// One entry met while walking the tree: its path, and whether it is a
/// regular file.
pub struct WalkEntry {
    pub path: String,
    pub is_file: bool,
}

/// A path separator, in either of the two usual forms.
pub open spec fn is_sep(c: char) -> bool {
    c == '/' || c == '\\'
}

/// `p` holds a `.git` directory segment starting at `i`: a separator (or the
/// start) before it and a separator after it.
pub open spec fn vcs_dir_at(p: Seq<char>, i: int) -> bool {
    &&& 0 <= i
    &&& i + 5 <= p.len()
    &&& (i == 0 || is_sep(p[i - 1]))
    &&& p[i] == '.'
    &&& p[i + 1] == 'g'
    &&& p[i + 2] == 'i'
    &&& p[i + 3] == 't'
    &&& is_sep(p[i + 4])
}

/// Whether the path lies inside a `.git` directory.
pub open spec fn in_vcs_dir(p: Seq<char>) -> bool {
    exists|i: int| vcs_dir_at(p, i)
}

/// Lexicographic order on character sequences, by code point; a proper
/// prefix comes first.
pub open spec fn lex_lt(a: Seq<char>, b: Seq<char>) -> bool
    decreases a.len(),
{
    if a.len() == 0 {
        b.len() > 0
    } else if b.len() == 0 {
        false
    } else if a[0] != b[0] {
        a[0] < b[0]
    } else {
        lex_lt(a.drop_first(), b.drop_first())
    }
}

/// Every element comes strictly before each later one.
pub open spec fn strictly_sorted(s: Seq<Seq<char>>) -> bool {
    forall|i: int, j: int| 0 <= i < j < s.len() ==> lex_lt(#[trigger] s[i], #[trigger] s[j])
}

/// No path comes before itself.
pub proof fn lemma_lex_irreflexive(a: Seq<char>)
    ensures
        !lex_lt(a, a),
    decreases a.len(),
{
    if a.len() > 0 {
        lemma_lex_irreflexive(a.drop_first());
    }
}

/// Of two different paths, one comes before the other.
pub proof fn lemma_lex_total(a: Seq<char>, b: Seq<char>)
    ensures
        a == b || lex_lt(a, b) || lex_lt(b, a),
    decreases a.len(),
{
    if a.len() > 0 && b.len() > 0 && a[0] == b[0] {
        lemma_lex_total(a.drop_first(), b.drop_first());
        if a.drop_first() == b.drop_first() {
            assert(a =~= seq![a[0]] + a.drop_first());
            assert(b =~= seq![b[0]] + b.drop_first());
        }
    } else if a.len() > 0 && b.len() > 0 {
        
    } else if a.len() == 0 && b.len() == 0 {
        assert(a =~= b);
    }
}

/// Two paths never come each before the other.
pub proof fn lemma_lex_asymmetric(a: Seq<char>, b: Seq<char>)
    ensures
        !(lex_lt(a, b) && lex_lt(b, a)),
    decreases a.len(),
{
    if a.len() > 0 && b.len() > 0 && a[0] == b[0] {
        lemma_lex_asymmetric(a.drop_first(), b.drop_first());
    }
}

/// The order is transitive.
pub proof fn lemma_lex_transitive(a: Seq<char>, b: Seq<char>, c: Seq<char>)
    requires
        lex_lt(a, b),
        lex_lt(b, c),
    ensures
        lex_lt(a, c),
    decreases a.len(),
{
    if a.len() > 0 && b.len() > 0 && c.len() > 0 && a[0] == b[0] && b[0] == c[0] {
        lemma_lex_transitive(a.drop_first(), b.drop_first(), c.drop_first());
    }
}

/// The characters of `s`, one per element.
fn chars_of(s: &str) -> (r: Vec<char>)
    ensures
        r@ == s@,
{
    let n = s.unicode_len();
    let mut r: Vec<char> = Vec::new();
    let mut i: usize = 0;
    while i < n
        invariant
            n == s@.len(),
            i <= n,
            r@ == s@.subrange(0, i as int),
        decreases n - i,
    {
        r.push(s.get_char(i));
        i = i + 1;
        assert(r@ =~= s@.subrange(0, i as int));
    }
    assert(s@.subrange(0, n as int) =~= s@);
    r
}

/// Whether `path` lies inside a `.git` directory, on either separator.
pub fn in_vcs_dir_path(path: &str) -> (r: bool)
    ensures
        r == in_vcs_dir(path@),
{
    let p = chars_of(path);
    let n = p.len();
    if n < 5 {
        return false;
    }
    let mut i: usize = 0;
    while i < n - 4
        invariant
            p@ == path@,
            n == p@.len(),
            n >= 5,
            i <= n - 4,
            forall|k: int| 0 <= k < i ==> !vcs_dir_at(p@, k),
        decreases n - i,
    {
        let before_ok = i == 0 || p[i - 1] == '/' || p[i - 1] == '\\';
        if before_ok && p[i] == '.' && p[i + 1] == 'g' && p[i + 2] == 'i' && p[i + 3] == 't'
            && (p[i + 4] == '/' || p[i + 4] == '\\') {
            assert(vcs_dir_at(p@, i as int));
            return true;
        }
        i = i + 1;
    }
    false
}

/// Whether `a` comes strictly before `b` in lexicographic order.
pub fn lex_less(a: &str, b: &str) -> (r: bool)
    ensures
        r == lex_lt(a@, b@),
{
    let pa = chars_of(a);
    let pb = chars_of(b);
    let la = pa.len();
    let lb = pb.len();
    let mut i: usize = 0;
    assert(a@.skip(0) =~= a@);
    assert(b@.skip(0) =~= b@);
    while i < la && i < lb
        invariant
            pa@ == a@,
            pb@ == b@,
            la == pa@.len(),
            lb == pb@.len(),
            i <= la,
            i <= lb,
            lex_lt(a@, b@) == lex_lt(a@.skip(i as int), b@.skip(i as int)),
        decreases la - i,
    {
        let ca = pa[i];
        let cb = pb[i];
        if ca != cb {
            return ca < cb;
        }
        assert(a@.skip(i as int).drop_first() =~= a@.skip(i + 1));
        assert(b@.skip(i as int).drop_first() =~= b@.skip(i + 1));
        i = i + 1;
    }
    i < lb
}

/// Inserts `p` into the strictly sorted `v` at its place; a path already
/// present is not added again.
pub fn insert_sorted(v: &mut Vec<String>, p: String)
    requires
        strictly_sorted(texts(old(v)@)),
    ensures
        strictly_sorted(texts(final(v)@)),
        forall|x: Seq<char>|
            texts(final(v)@).contains(x) <==> (texts(old(v)@).contains(x) || x == p@),
{
    let ghost old_v = texts(v@);
    let ghost pv = p@;
    let n = v.len();
    let mut j: usize = 0;
    while j < n && lex_less(v[j].as_str(), p.as_str())
        invariant
            n == v@.len(),
            texts(v@) == old_v,
            j <= n,
            forall|k: int| 0 <= k < j ==> lex_lt(#[trigger] old_v[k], p@),
        decreases n - j,
    {
        j = j + 1;
    }
    if j < n {
        proof {
            lemma_lex_total(old_v[j as int], p@);
        }
        if !lex_less(p.as_str(), v[j].as_str()) {
            assert(old_v[j as int] == p@);
            assert(texts(v@) == old_v);
            return;
        }
    }
    proof {
        assert forall|k: int| j < k < n implies lex_lt(p@, #[trigger] old_v[k]) by {
            lemma_lex_transitive(p@, old_v[j as int], old_v[k]);
        }
    }
    v.insert(j, p);
    assert(texts(v@) =~= old_v.insert(j as int, pv));
    proof {
        assert forall|x: Seq<char>|
            #[trigger] texts(v@).contains(x) <==> (old_v.contains(x) || x == pv) by {
            if texts(v@).contains(x) {
                let k = choose|k: int| 0 <= k < texts(v@).len() && texts(v@)[k] == x;
                if k > j {
                    assert(old_v[k - 1] == x);
                } else if k < j {
                    assert(old_v[k] == x);
                }
            }
            if old_v.contains(x) {
                let k = choose|k: int| 0 <= k < old_v.len() && old_v[k] == x;
                if k < j {
                    assert(texts(v@)[k] == x);
                } else {
                    assert(texts(v@)[k + 1] == x);
                }
            }
            if x == pv {
                assert(texts(v@)[j as int] == x);
            }
        }
    }
}

/// An entry is selected when it is a regular file outside any `.git`
/// directory, hit by some include pattern and by no exclude pattern.
pub open spec fn qualifies(e: WalkEntry, includes: Seq<Seq<char>>, excludes: Seq<Seq<char>>) -> bool {
    &&& e.is_file
    &&& !in_vcs_dir(e.path@)
    &&& any_hits(includes, e.path@)
    &&& !any_hits(excludes, e.path@)
}

/// Whether some entry among the first `n` qualifies and has path `x`.
pub open spec fn chosen_among(
    entries: Seq<WalkEntry>,
    n: int,
    includes: Seq<Seq<char>>,
    excludes: Seq<Seq<char>>,
    x: Seq<char>,
) -> bool {
    exists|k: int|
        0 <= k < n && (#[trigger] entries[k]).path@ == x && qualifies(entries[k], includes, excludes)
}

/// `r` lists, in strictly increasing order, exactly the paths of the entries
/// that qualify.
pub open spec fn is_selection(
    r: Seq<Seq<char>>,
    entries: Seq<WalkEntry>,
    includes: Seq<Seq<char>>,
    excludes: Seq<Seq<char>>,
) -> bool {
    &&& strictly_sorted(r)
    &&& forall|x: Seq<char>|
        r.contains(x) <==> chosen_among(entries, entries.len() as int, includes, excludes, x)
}

/// The candidate files of a walk: the paths of the entries that qualify,
/// sorted lexicographically, each once.
pub fn select(entries: &Vec<WalkEntry>, includes: &PatternSet, excludes: &PatternSet) -> (r: Vec<
    String,
>)
    ensures
        is_selection(texts(r@), entries@, includes@, excludes@),
{
    let mut r: Vec<String> = Vec::new();
    let mut i: usize = 0;
    assert(texts(r@) =~= Seq::<Seq<char>>::empty());
    while i < entries.len()
        invariant
            i <= entries@.len(),
            strictly_sorted(texts(r@)),
            forall|x: Seq<char>|
                texts(r@).contains(x) <==> chosen_among(entries@, i as int, includes@, excludes@, x),
        decreases entries@.len() - i,
    {
        let e = &entries[i];
        let keep = e.is_file && !in_vcs_dir_path(e.path.as_str()) && includes.any_hits(
            e.path.as_str(),
        ) && !excludes.any_hits(e.path.as_str());
        if keep {
            insert_sorted(&mut r, e.path.clone());
        }
        proof {
            assert forall|x: Seq<char>|
                texts(r@).contains(x) <==> chosen_among(
                    entries@,
                    i + 1,
                    includes@,
                    excludes@,
                    x,
                ) by {
                if chosen_among(entries@, i + 1, includes@, excludes@, x) {
                    let k = choose|k: int|
                        0 <= k < i + 1 && (#[trigger] entries@[k]).path@ == x && qualifies(
                            entries@[k],
                            includes@,
                            excludes@,
                        );
                    if k < i {
                        assert(chosen_among(entries@, i as int, includes@, excludes@, x));
                    }
                }
                if chosen_among(entries@, i as int, includes@, excludes@, x) {
                    let k = choose|k: int|
                        0 <= k < i && (#[trigger] entries@[k]).path@ == x && qualifies(
                            entries@[k],
                            includes@,
                            excludes@,
                        );
                    assert(chosen_among(entries@, i + 1, includes@, excludes@, x));
                }
                if keep && x == e.path@ {
                    assert(entries@[i as int].path@ == x);
                }
            }
        }
        i = i + 1;
    }
    r
}

proof fn lemma_sorted_distinct(s: Seq<Seq<char>>, i: int, j: int)
    requires
        strictly_sorted(s),
        0 <= i < s.len(),
        0 <= j < s.len(),
        s[i] == s[j],
    ensures
        i == j,
{
    if i < j {
        assert(lex_lt(s[i], s[j]));
        lemma_lex_irreflexive(s[i]);
    } else if j < i {
        assert(lex_lt(s[j], s[i]));
        lemma_lex_irreflexive(s[i]);
    }
}

/// Two strictly sorted sequences that hold the same elements are equal.
pub proof fn lemma_sorted_same_elements_equal(s1: Seq<Seq<char>>, s2: Seq<Seq<char>>)
    requires
        strictly_sorted(s1),
        strictly_sorted(s2),
        forall|x: Seq<char>| s1.contains(x) <==> s2.contains(x),
    ensures
        s1 == s2,
    decreases s1.len(),
{
    if s1.len() == 0 {
        if s2.len() > 0 {
            assert(s2.contains(s2[0]));
        }
        assert(s1 =~= s2);
    } else {
        assert(s1.contains(s1[0]));
        let j = choose|j: int| 0 <= j < s2.len() && s2[j] == s1[0];
        assert(s2.contains(s2[0]));
        let i = choose|i: int| 0 <= i < s1.len() && s1[i] == s2[0];
        if j > 0 && i > 0 {
            assert(lex_lt(s2[0], s2[j]));
            assert(lex_lt(s1[0], s1[i]));
            lemma_lex_asymmetric(s1[0], s2[0]);
        }
        assert(s1[0] == s2[0]);
        let t1 = s1.drop_first();
        let t2 = s2.drop_first();
        assert forall|x: Seq<char>| t1.contains(x) <==> t2.contains(x) by {
            if t1.contains(x) {
                let a = choose|a: int| 0 <= a < t1.len() && t1[a] == x;
                assert(s1[a + 1] == x);
                assert(s2.contains(x));
                let b = choose|b: int| 0 <= b < s2.len() && s2[b] == x;
                if b == 0 {
                    lemma_sorted_distinct(s1, 0, a + 1);
                }
                assert(t2[b - 1] == x);
            }
            if t2.contains(x) {
                let a = choose|a: int| 0 <= a < t2.len() && t2[a] == x;
                assert(s2[a + 1] == x);
                assert(s1.contains(x));
                let b = choose|b: int| 0 <= b < s1.len() && s1[b] == x;
                if b == 0 {
                    lemma_sorted_distinct(s2, 0, a + 1);
                }
                assert(t1[b - 1] == x);
            }
        }
        lemma_sorted_same_elements_equal(t1, t2);
        assert(s1 =~= seq![s1[0]] + t1);
        assert(s2 =~= seq![s2[0]] + t2);
    }
}

/// With no exclude patterns, every regular file outside `.git` that some
/// include pattern hits is listed exactly once, and the list is in strictly
/// increasing lexicographic order.
pub proof fn lemma_every_match_listed_once(
    r: Seq<Seq<char>>,
    entries: Seq<WalkEntry>,
    includes: Seq<Seq<char>>,
    k: int,
)
    requires
        is_selection(r, entries, includes, Seq::empty()),
        0 <= k < entries.len(),
        entries[k].is_file,
        !in_vcs_dir(entries[k].path@),
        any_hits(includes, entries[k].path@),
    ensures
        r.contains(entries[k].path@),
        forall|i: int, j: int|
            0 <= i < r.len() && 0 <= j < r.len() && r[i] == entries[k].path@ && r[j]
                == entries[k].path@ ==> i == j,
        forall|i: int, j: int| 0 <= i < j < r.len() ==> lex_lt(#[trigger] r[i], #[trigger] r[j]),
{
    assert(qualifies(entries[k], includes, Seq::empty()));
    assert(chosen_among(entries, entries.len() as int, includes, Seq::empty(), entries[k].path@));
    assert forall|i: int, j: int|
        0 <= i < r.len() && 0 <= j < r.len() && r[i] == entries[k].path@ && r[j]
            == entries[k].path@ implies i == j by {
        lemma_sorted_distinct(r, i, j);
    }
}

/// A path that some exclude pattern hits is never listed, whatever the
/// include patterns hit.
pub proof fn lemma_excluded_never_listed(
    r: Seq<Seq<char>>,
    entries: Seq<WalkEntry>,
    includes: Seq<Seq<char>>,
    excludes: Seq<Seq<char>>,
    x: Seq<char>,
)
    requires
        is_selection(r, entries, includes, excludes),
        any_hits(excludes, x),
    ensures
        !r.contains(x),
{
}

/// No listed path lies inside a `.git` directory, whatever walk produced the
/// entries and whether or not it honoured ignore files.
pub proof fn lemma_no_vcs_path_listed(
    r: Seq<Seq<char>>,
    entries: Seq<WalkEntry>,
    includes: Seq<Seq<char>>,
    excludes: Seq<Seq<char>>,
)
    requires
        is_selection(r, entries, includes, excludes),
    ensures
        forall|i: int| 0 <= i < r.len() ==> !in_vcs_dir(#[trigger] r[i]),
{
    assert forall|i: int| 0 <= i < r.len() implies !in_vcs_dir(#[trigger] r[i]) by {
        assert(r.contains(r[i]));
    }
}

/// The selection is determined by the walk and the patterns: two selections
/// over the same entries and patterns are the same list.
pub proof fn lemma_selection_deterministic(
    r1: Seq<Seq<char>>,
    r2: Seq<Seq<char>>,
    entries: Seq<WalkEntry>,
    includes: Seq<Seq<char>>,
    excludes: Seq<Seq<char>>,
)
    requires
        is_selection(r1, entries, includes, excludes),
        is_selection(r2, entries, includes, excludes),
    ensures
        r1 == r2,
{
    lemma_sorted_same_elements_equal(r1, r2);
}

/// The fatal errors of selection.
pub enum SelectionError {
    /// A pattern text is not a valid glob; it is named.
    InvalidPattern(String),
    /// The walk of the tree failed, with its message.
    Traversal(String),
}

/// The compiled include and exclude patterns of a run.
pub struct Selector {
    pub includes: PatternSet,
    pub excludes: PatternSet,
}

/// The first text of `raw` that is not a valid glob.
pub open spec fn is_first_invalid(raw: Seq<Seq<char>>, x: Seq<char>) -> bool {
    exists|i: int|
        0 <= i < raw.len() && raw[i] == x && !glob_compiles(#[trigger] raw[i]) && all_compile_upto(
            raw,
            i,
        )
}

impl Selector {
    /// Compiles the exclude patterns, then the include patterns, before any
    /// file is looked at. Fails with the first text, in that order, that is
    /// not a valid glob.
    pub fn new(includes: &Vec<String>, excludes: &Vec<String>) -> (r: Result<Selector, SelectionError>)
        ensures
            r is Ok <==> all_compile_upto(texts(excludes@), excludes@.len() as int)
                && all_compile_upto(texts(includes@), includes@.len() as int),
            r matches Ok(sel) ==> sel.includes@ == texts(includes@) && sel.excludes@ == texts(
                excludes@,
            ),
            r matches Err(e) ==> e matches SelectionError::InvalidPattern(p) && (if all_compile_upto(
                texts(excludes@),
                excludes@.len() as int,
            ) {
                is_first_invalid(texts(includes@), p@)
            } else {
                is_first_invalid(texts(excludes@), p@)
            }),
    {
        let ex = match PatternSet::compile(excludes) {
            Ok(ps) => ps,
            Err(i) => {
                assert(texts(excludes@)[i as int] == excludes@[i as int]@);
                return Err(SelectionError::InvalidPattern(excludes[i].clone()));
            },
        };
        let inc = match PatternSet::compile(includes) {
            Ok(ps) => ps,
            Err(i) => {
                assert(texts(includes@)[i as int] == includes@[i as int]@);
                return Err(SelectionError::InvalidPattern(includes[i].clone()));
            },
        };
        Ok(Selector { includes: inc, excludes: ex })
    }

    /// The candidate files among the entries of a walk, sorted, each once.
    pub fn select(&self, entries: &Vec<WalkEntry>) -> (r: Vec<String>)
        ensures
            is_selection(texts(r@), entries@, self.includes@, self.excludes@),
    {
        select(entries, &self.includes, &self.excludes)
    }
}

} // verus!
