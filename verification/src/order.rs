//! The order of texts and of paths, and sorting by it.

use vstd::prelude::*;
use vstd::relations::{sorted_by, total_ordering};

use crate::text::{chars_of, texts};

verus! {

/// Where a character stands in the order: by code point, except that the separator of a path comes
/// before everything else, so that paths are ordered component by component.
pub open spec fn rank(c: char, path: bool) -> int {
    if path && c == '/' {
        -1
    } else {
        c as u32 as int
    }
}

/// Whether `a` comes strictly before `b`.
pub open spec fn before(a: Seq<char>, b: Seq<char>, path: bool) -> bool
    decreases a.len(),
{
    if b.len() == 0 {
        false
    } else if a.len() == 0 {
        true
    } else if a[0] != b[0] {
        rank(a[0], path) < rank(b[0], path)
    } else {
        before(a.skip(1), b.skip(1), path)
    }
}

/// Different characters have different ranks.
proof fn lemma_rank_total(x: char, y: char, path: bool)
    requires
        x != y,
    ensures
        rank(x, path) < rank(y, path) || rank(y, path) < rank(x, path),
{
}

/// Nothing comes before itself.
pub proof fn lemma_before_irreflexive(a: Seq<char>, path: bool)
    ensures
        !before(a, a, path),
    decreases a.len(),
{
    if a.len() > 0 {
        lemma_before_irreflexive(a.skip(1), path);
    }
}

/// Of two texts neither of which comes before the other, both are the same.
pub proof fn lemma_before_total(a: Seq<char>, b: Seq<char>, path: bool)
    ensures
        before(a, b, path) || before(b, a, path) || a == b,
    decreases a.len(),
{
    if a.len() > 0 && b.len() > 0 && a[0] == b[0] {
        lemma_before_total(a.skip(1), b.skip(1), path);
        if a.skip(1) == b.skip(1) {
            assert(a =~= seq![a[0]] + a.skip(1));
            assert(b =~= seq![b[0]] + b.skip(1));
        }
    } else if a.len() > 0 && b.len() > 0 {
        lemma_rank_total(a[0], b[0], path);
    } else if a.len() == 0 && b.len() == 0 {
        assert(a =~= b);
    }
}

/// The order is transitive.
pub proof fn lemma_before_transitive(a: Seq<char>, b: Seq<char>, c: Seq<char>, path: bool)
    requires
        before(a, b, path),
        before(b, c, path),
    ensures
        before(a, c, path),
    decreases a.len(),
{
    if a.len() > 0 && b.len() > 0 && c.len() > 0 {
        if a[0] == b[0] && b[0] == c[0] {
            lemma_before_transitive(a.skip(1), b.skip(1), c.skip(1), path);
        }
    }
}

/// Whether `a` comes strictly before `b`.
pub fn comes_before(a: &str, b: &str, path: bool) -> (res: bool)
    ensures
        res == before(a@, b@, path),
{
    let x = chars_of(a);
    let y = chars_of(b);
    let mut i: usize = 0;
    assert(a@.skip(0) =~= a@);
    assert(b@.skip(0) =~= b@);
    loop
        invariant
            x@ == a@,
            y@ == b@,
            i <= x@.len(),
            i <= y@.len(),
            before(a@.skip(i as int), b@.skip(i as int), path) == before(a@, b@, path),
        decreases x@.len() - i,
    {
        if i == y.len() {
            return false;
        }
        if i == x.len() {
            return true;
        }
        if x[i] != y[i] {
            let p: u32 = x[i] as u32;
            let q: u32 = y[i] as u32;
            if path && x[i] == '/' {
                return true;
            }
            if path && y[i] == '/' {
                return false;
            }
            return p < q;
        }
        assert(a@.skip(i as int).skip(1) =~= a@.skip(i + 1));
        assert(b@.skip(i as int).skip(1) =~= b@.skip(i + 1));
        i += 1;
    }
}

/// Whether no text of `v` comes before one that stands to its left.
pub open spec fn sorted(v: Seq<Seq<char>>, path: bool) -> bool {
    forall|i: int, j: int| 0 <= i < j < v.len() ==> !before(#[trigger] v[j], #[trigger] v[i], path)
}

/// Of two texts the second of which is not before the first, and a third not before the second,
/// the third is not before the first.
proof fn lemma_not_before_chain(a: Seq<char>, b: Seq<char>, c: Seq<char>, path: bool)
    requires
        !before(b, a, path),
        !before(c, b, path),
    ensures
        !before(c, a, path),
{
    if before(c, a, path) {
        lemma_before_total(a, b, path);
        if before(a, b, path) {
            lemma_before_transitive(c, a, b, path);
        }
    }
}

/// Whether the second of two texts does not come before the first.
pub open spec fn not_after(path: bool) -> spec_fn(Seq<char>, Seq<char>) -> bool {
    |a: Seq<char>, b: Seq<char>| !before(b, a, path)
}

/// Texts in their order.
pub open spec fn sorted_texts(v: Seq<Seq<char>>, path: bool) -> Seq<Seq<char>> {
    v.sort_by(not_after(path))
}

pub proof fn lemma_not_after_total(path: bool)
    ensures
        total_ordering(not_after(path)),
{
    let leq = not_after(path);
    assert forall|a: Seq<char>| #[trigger] leq(a, a) by {
        lemma_before_irreflexive(a, path);
    }
    assert forall|a: Seq<char>, b: Seq<char>| #[trigger] leq(a, b) && #[trigger] leq(b, a) implies a == b by {
        lemma_before_total(a, b, path);
    }
    assert forall|a: Seq<char>, b: Seq<char>, c: Seq<char>| #[trigger]
        leq(a, b) && #[trigger] leq(b, c) implies leq(a, c) by {
        lemma_not_before_chain(a, b, c, path);
    }
    assert forall|a: Seq<char>, b: Seq<char>| #[trigger] leq(a, b) || #[trigger] leq(b, a) by {
        if before(a, b, path) && before(b, a, path) {
            lemma_before_transitive(a, b, a, path);
            lemma_before_irreflexive(a, path);
        }
    }
}

/// Texts in order that are those of `v` are the texts of `v` in order.
pub proof fn lemma_sorted_texts(v: Seq<Seq<char>>, res: Seq<Seq<char>>, path: bool)
    requires
        sorted(res, path),
        res.to_multiset() == v.to_multiset(),
    ensures
        res == sorted_texts(v, path),
{
    let leq = not_after(path);
    lemma_not_after_total(path);
    v.lemma_sort_by_ensures(leq);
    assert(sorted_by(res, leq));
    vstd::seq_lib::lemma_sorted_unique(res, v.sort_by(leq), leq);
}

/// The texts in order are the same texts, and stand in order.
pub proof fn lemma_sorted_texts_ensures(v: Seq<Seq<char>>, path: bool)
    ensures
        sorted(sorted_texts(v, path), path),
        sorted_texts(v, path).to_multiset() == v.to_multiset(),
        sorted_texts(v, path).len() == v.len(),
{
    let leq = not_after(path);
    let r = sorted_texts(v, path);
    lemma_not_after_total(path);
    v.lemma_sort_by_ensures(leq);
    assert forall|i: int, j: int| 0 <= i < j < r.len() implies !before(#[trigger] r[j], #[trigger] r[i], path) by {
        assert(leq(r[i], r[j]));
    }
    r.to_multiset_ensures();
    v.to_multiset_ensures();
}

/// Where `s` belongs in the sorted list `v`: after everything that does not come after it.
fn place_of(v: &Vec<String>, s: &str, path: bool) -> (res: usize)
    requires
        sorted(texts(v@), path),
    ensures
        res <= v@.len(),
        forall|i: int| 0 <= i < res ==> !before(s@, v@[i]@, path),
        forall|i: int| res <= i < v@.len() ==> !before(v@[i]@, s@, path),
{
    let mut k: usize = v.len();
    while k > 0 && comes_before(s, v[k - 1].as_str(), path)
        invariant
            k <= v@.len(),
            forall|i: int| k <= i < v@.len() ==> before(s@, v@[i]@, path),
        decreases k,
    {
        k -= 1;
    }
    proof {
        assert forall|i: int| k <= i < v@.len() implies !before(v@[i]@, s@, path) by {
            if before(v@[i]@, s@, path) {
                lemma_before_transitive(s@, v@[i]@, s@, path);
                lemma_before_irreflexive(s@, path);
            }
        }
        assert forall|i: int| 0 <= i < k implies !before(s@, v@[i]@, path) by {
            if i < k - 1 {
                assert(!before(texts(v@)[k - 1], texts(v@)[i], path));
                lemma_not_before_chain(v@[i]@, v@[k - 1]@, s@, path);
            }
        }
    }
    k
}

/// The strings of `v` in order.
pub fn sort_list(v: &Vec<String>, path: bool) -> (res: Vec<String>)
    ensures
        sorted(texts(res@), path),
        texts(res@).to_multiset() == texts(v@).to_multiset(),
        texts(res@) == sorted_texts(texts(v@), path),
{
    let mut out: Vec<String> = Vec::new();
    let mut i: usize = 0;
    assert(texts(v@).take(0) =~= texts(out@));
    while i < v.len()
        invariant
            i <= v@.len(),
            sorted(texts(out@), path),
            texts(out@).to_multiset() == texts(v@).take(i as int).to_multiset(),
        decreases v@.len() - i,
    {
        let k: usize = place_of(&out, v[i].as_str(), path);
        let ghost was = out@;
        out.insert(k, v[i].clone());
        proof {
            let s = v@[i as int]@;
            assert(texts(out@) =~= texts(was).insert(k as int, s));
            vstd::seq_lib::to_multiset_insert(texts(was), k as int, s);
            assert(texts(v@).take(i + 1) =~= texts(v@).take(i as int).push(s));
            vstd::seq_lib::to_multiset_build(texts(v@).take(i as int), s);
            assert forall|a: int, b: int| 0 <= a < b < out@.len() implies !before(
                #[trigger] texts(out@)[b],
                #[trigger] texts(out@)[a],
                path,
            ) by {
                if a == k {
                    assert(texts(out@)[b] == was[b - 1]@);
                } else if b == k {
                    assert(texts(out@)[a] == was[a]@);
                } else {
                    let x = if a < k {
                        a
                    } else {
                        a - 1
                    };
                    let y = if b < k {
                        b
                    } else {
                        b - 1
                    };
                    assert(!before(texts(was)[y], texts(was)[x], path));
                }
            }
        }
        i += 1;
    }
    assert(texts(v@).take(v@.len() as int) =~= texts(v@));
    proof {
        lemma_sorted_texts(texts(v@), texts(out@), path);
    }
    out
}

} // verus!
