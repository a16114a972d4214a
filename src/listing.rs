//! Why the directory tree does not depend on the order in which directories
//! were read: the listing order is a strict total order on distinct names, so
//! two readings of one directory are listed entry by entry alike.
use vstd::prelude::*;
use crate::ignore::{glob_valid, ignored, lemma_malformed_pattern_matches_nothing};
use crate::tree::{
    child_prefix, entry_line, first_after, insert_sorted, listing, name_lt_from, precedes,
    render_level, sort_upto, tree_text, visible_upto, DirEntry,
};

verus! {

proof fn lemma_name_lt_asymmetric(a: Seq<char>, b: Seq<char>, i: int)
    requires
        i >= 0,
    ensures
        !(name_lt_from(a, b, i) && name_lt_from(b, a, i)),
    decreases a.len() - i,
{
    if i < a.len() && i < b.len() && a[i] == b[i] {
        lemma_name_lt_asymmetric(a, b, i + 1);
    }
}

proof fn lemma_name_lt_transitive(a: Seq<char>, b: Seq<char>, c: Seq<char>, i: int)
    requires
        i >= 0,
        name_lt_from(a, b, i),
        name_lt_from(b, c, i),
    ensures
        name_lt_from(a, c, i),
    decreases a.len() - i,
{
    if i < a.len() && i < b.len() && i < c.len() && a[i] == b[i] && b[i] == c[i] {
        lemma_name_lt_transitive(a, b, c, i + 1);
    }
}

proof fn lemma_name_lt_total(a: Seq<char>, b: Seq<char>, i: int)
    requires
        0 <= i <= a.len(),
        i <= b.len(),
        a.subrange(0, i) == b.subrange(0, i),
        a != b,
    ensures
        name_lt_from(a, b, i) || name_lt_from(b, a, i),
    decreases a.len() - i,
{
    if i == a.len() && i == b.len() {
        assert(a == a.subrange(0, i));
        assert(b == b.subrange(0, i));
    } else if i < a.len() && i < b.len() {
        if a[i] == b[i] {
            assert(a.subrange(0, i + 1) =~= a.subrange(0, i).push(a[i]));
            assert(b.subrange(0, i + 1) =~= b.subrange(0, i).push(b[i]));
            lemma_name_lt_total(a, b, i + 1);
        } else {
            assert((a[i] as int) != (b[i] as int));
        }
    }
}

/// Entries listed in one directory: no two of them share a name.
pub open spec fn distinct_names(es: Seq<DirEntry>) -> bool {
    forall|i: int, j: int|
        0 <= i < es.len() && 0 <= j < es.len() && i != j ==> #[trigger] es[i].name@
            != #[trigger] es[j].name@
}

proof fn lemma_precedes_asymmetric(a: DirEntry, b: DirEntry)
    ensures
        !(precedes(a, b) && precedes(b, a)),
{
    lemma_name_lt_asymmetric(a.name@, b.name@, 0);
}

proof fn lemma_precedes_transitive(a: DirEntry, b: DirEntry, c: DirEntry)
    requires
        precedes(a, b),
        precedes(b, c),
    ensures
        precedes(a, c),
{
    if a.is_dir == b.is_dir && b.is_dir == c.is_dir {
        lemma_name_lt_transitive(a.name@, b.name@, c.name@, 0);
    }
}

proof fn lemma_precedes_total(a: DirEntry, b: DirEntry)
    requires
        a.name@ != b.name@,
    ensures
        precedes(a, b) || precedes(b, a),
{
    assert(a.name@.subrange(0, 0) =~= b.name@.subrange(0, 0));
    lemma_name_lt_total(a.name@, b.name@, 0);
}

/// The indices of `t` are indices of `es`.
pub open spec fn indices_in(es: Seq<DirEntry>, t: Seq<int>) -> bool {
    forall|m: int| 0 <= m < t.len() ==> 0 <= #[trigger] t[m] < es.len()
}

/// The entries at indices `t` are in listing order, each strictly before the next.
pub open spec fn sorted_indices(es: Seq<DirEntry>, t: Seq<int>) -> bool {
    forall|i: int, j: int|
        0 <= i < j < t.len() ==> precedes(#[trigger] es[t[i]], #[trigger] es[t[j]])
}

/// Each entry strictly before the next in listing order.
pub open spec fn sorted_entries(s: Seq<DirEntry>) -> bool {
    forall|i: int, j: int| 0 <= i < j < s.len() ==> precedes(#[trigger] s[i], #[trigger] s[j])
}

/// The entries at indices `t`.
pub open spec fn listed(es: Seq<DirEntry>, t: Seq<int>) -> Seq<DirEntry> {
    t.map_values(|k: int| es[k])
}

proof fn lemma_first_after(es: Seq<DirEntry>, x: int, t: Seq<int>, j: int)
    requires
        0 <= j <= t.len(),
    ensures
        j <= first_after(es, x, t, j) <= t.len(),
        forall|m: int|
            j <= m < first_after(es, x, t, j) ==> !precedes(es[x], #[trigger] es[t[m]]),
        first_after(es, x, t, j) < t.len() ==> precedes(es[x], es[t[first_after(es, x, t, j)]]),
    decreases t.len() - j,
{
    if j < t.len() && !precedes(es[x], es[t[j]]) {
        lemma_first_after(es, x, t, j + 1);
    }
}

proof fn lemma_insert_sorted(es: Seq<DirEntry>, x: int, t: Seq<int>)
    requires
        distinct_names(es),
        0 <= x < es.len(),
        indices_in(es, t),
        sorted_indices(es, t),
        !t.contains(x),
    ensures
        indices_in(es, insert_sorted(es, x, t)),
        sorted_indices(es, insert_sorted(es, x, t)),
        forall|y: int| #[trigger]
            insert_sorted(es, x, t).contains(y) <==> (t.contains(y) || y == x),
{
    lemma_first_after(es, x, t, 0);
    let k = first_after(es, x, t, 0);
    let r = insert_sorted(es, x, t);
    assert(r.len() == t.len() + 1);
    assert forall|i: int| 0 <= i < r.len() implies r[i] == (if i < k {
        t[i]
    } else if i == k {
        x
    } else {
        t[i - 1]
    }) by {}
    assert forall|m: int| 0 <= m < r.len() implies 0 <= #[trigger] r[m] < es.len() by {
        if m < k {
            assert(r[m] == t[m]);
        } else if m > k {
            assert(r[m] == t[m - 1]);
        }
    }
    assert forall|i: int, j: int| 0 <= i < j < r.len() implies precedes(
        #[trigger] es[r[i]],
        #[trigger] es[r[j]],
    ) by {
        if j < k {
            assert(precedes(es[t[i]], es[t[j]]));
        } else if j == k {
            assert(t.contains(t[i]));
            assert(t[i] != x);
            assert(es[t[i]].name@ != es[x].name@);
            lemma_precedes_total(es[t[i]], es[x]);
            assert(!precedes(es[x], es[t[i]]));
        } else if i < k {
            assert(precedes(es[t[i]], es[t[j - 1]]));
        } else if i == k {
            if j - 1 > k {
                assert(precedes(es[t[k]], es[t[j - 1]]));
                lemma_precedes_transitive(es[x], es[t[k]], es[t[j - 1]]);
            }
        } else {
            assert(precedes(es[t[i - 1]], es[t[j - 1]]));
        }
    }
    assert forall|y: int| #[trigger] r.contains(y) <==> (t.contains(y) || y == x) by {
        if r.contains(y) {
            let m = choose|m: int| 0 <= m < r.len() && r[m] == y;
            if m < k {
                assert(t[m] == y);
            } else if m > k {
                assert(t[m - 1] == y);
            }
        }
        if t.contains(y) {
            let m = choose|m: int| 0 <= m < t.len() && t[m] == y;
            if m < k {
                assert(r[m] == y);
            } else {
                assert(r[m + 1] == y);
            }
        }
        if y == x {
            assert(r[k] == y);
        }
    }
}

proof fn lemma_sort_upto(es: Seq<DirEntry>, idx: Seq<int>, n: int)
    requires
        distinct_names(es),
        0 <= n <= idx.len(),
        indices_in(es, idx),
        forall|i: int, j: int| 0 <= i < j < idx.len() ==> #[trigger] idx[i] != #[trigger] idx[j],
    ensures
        indices_in(es, sort_upto(es, idx, n)),
        sorted_indices(es, sort_upto(es, idx, n)),
        forall|y: int| #[trigger]
            sort_upto(es, idx, n).contains(y) <==> idx.subrange(0, n).contains(y),
    decreases n,
{
    if n > 0 {
        lemma_sort_upto(es, idx, n - 1);
        let t = sort_upto(es, idx, n - 1);
        let x = idx[n - 1];
        let pre = idx.subrange(0, n - 1);
        let upto = idx.subrange(0, n);
        assert(upto =~= pre.push(x));
        if t.contains(x) {
            let m = choose|m: int| 0 <= m < pre.len() && pre[m] == x;
            assert(idx[m] == idx[n - 1]);
        }
        lemma_insert_sorted(es, x, t);
        assert forall|y: int| #[trigger] sort_upto(es, idx, n).contains(y) <==> upto.contains(y) by {
            if y == x {
                assert(upto[n - 1] == y);
            }
            if upto.contains(y) {
                let m = choose|m: int| 0 <= m < upto.len() && upto[m] == y;
                if m < n - 1 {
                    assert(pre[m] == y);
                }
            }
            if pre.contains(y) {
                let m = choose|m: int| 0 <= m < pre.len() && pre[m] == y;
                assert(upto[m] == y);
            }
        }
    } else {
        assert(idx.subrange(0, 0) =~= Seq::<int>::empty());
    }
}

proof fn lemma_visible_upto(es: Seq<DirEntry>, patterns: Seq<Seq<char>>, n: int)
    requires
        0 <= n <= es.len(),
    ensures
        indices_in(es, visible_upto(es, patterns, n)),
        forall|i: int, j: int|
            0 <= i < j < visible_upto(es, patterns, n).len() ==> #[trigger] visible_upto(
                es,
                patterns,
                n,
            )[i] < #[trigger] visible_upto(es, patterns, n)[j],
        forall|m: int|
            0 <= m < visible_upto(es, patterns, n).len() ==> #[trigger] visible_upto(
                es,
                patterns,
                n,
            )[m] < n,
        forall|y: int| #[trigger]
            visible_upto(es, patterns, n).contains(y) <==> (0 <= y < n && !ignored(
                es[y].path@,
                patterns,
            )),
    decreases n,
{
    if n > 0 {
        lemma_visible_upto(es, patterns, n - 1);
        let v = visible_upto(es, patterns, n - 1);
        if !ignored(es[n - 1].path@, patterns) {
            let w = v.push(n - 1);
            assert forall|y: int| #[trigger] w.contains(y) <==> (0 <= y < n && !ignored(
                es[y].path@,
                patterns,
            )) by {
                if y == n - 1 {
                    assert(w[v.len() as int] == y);
                }
                if v.contains(y) {
                    let m = choose|m: int| 0 <= m < v.len() && v[m] == y;
                    assert(w[m] == y);
                }
                if w.contains(y) && y != n - 1 {
                    let m = choose|m: int| 0 <= m < w.len() && w[m] == y;
                    assert(v[m] == y);
                }
            }
        }
    }
}

/// What the listing holds and how it is ordered.
proof fn lemma_listing(es: Seq<DirEntry>, patterns: Seq<Seq<char>>)
    requires
        distinct_names(es),
    ensures
        indices_in(es, listing(es, patterns)),
        sorted_entries(listed(es, listing(es, patterns))),
        forall|e: DirEntry| #[trigger]
            listed(es, listing(es, patterns)).contains(e) <==> (es.contains(e) && !ignored(
                e.path@,
                patterns,
            )),
{
    let n = es.len() as int;
    lemma_visible_upto(es, patterns, n);
    let v = visible_upto(es, patterns, n);
    assert forall|i: int, j: int| 0 <= i < j < v.len() implies #[trigger] v[i] != #[trigger] v[j] by {}
    lemma_sort_upto(es, v, v.len() as int);
    assert(v.subrange(0, v.len() as int) == v);
    let t = listing(es, patterns);
    let l = listed(es, t);
    assert forall|i: int, j: int| 0 <= i < j < l.len() implies precedes(
        #[trigger] l[i],
        #[trigger] l[j],
    ) by {
        assert(precedes(es[t[i]], es[t[j]]));
    }
    assert forall|e: DirEntry| #[trigger]
        l.contains(e) <==> (es.contains(e) && !ignored(e.path@, patterns)) by {
        if l.contains(e) {
            let m = choose|m: int| 0 <= m < l.len() && l[m] == e;
            assert(t.contains(t[m]));
            assert(es[t[m]] == e);
        }
        if es.contains(e) && !ignored(e.path@, patterns) {
            let y = choose|y: int| 0 <= y < es.len() && es[y] == e;
            assert(v.contains(y));
            assert(t.contains(y));
            let m = choose|m: int| 0 <= m < t.len() && t[m] == y;
            assert(l[m] == e);
        }
    }
}

/// Two readings of one directory, down to `depth` levels: at each level the
/// same entries (same name, path and kind), no two sharing a name, perhaps
/// read in another order; below `depth` they are identical.
pub open spec fn reads_alike(e1: Seq<DirEntry>, e2: Seq<DirEntry>, depth: nat) -> bool
    decreases depth,
{
    if depth == 0 {
        e1 == e2
    } else {
        &&& distinct_names(e1)
        &&& distinct_names(e2)
        &&& forall|i: int|
            #![trigger e1[i]]
            0 <= i < e1.len() ==> exists|j: int|
                #![trigger e2[j]]
                0 <= j < e2.len() && e1[i].name@ == e2[j].name@ && e1[i].path@ == e2[j].path@
                    && e1[i].is_dir == e2[j].is_dir && reads_alike(
                    e1[i].children@,
                    e2[j].children@,
                    (depth - 1) as nat,
                )
        &&& forall|j: int|
            #![trigger e2[j]]
            0 <= j < e2.len() ==> exists|i: int|
                #![trigger e1[i]]
                0 <= i < e1.len() && e1[i].name@ == e2[j].name@ && e1[i].path@ == e2[j].path@
                    && e1[i].is_dir == e2[j].is_dir && reads_alike(
                    e1[i].children@,
                    e2[j].children@,
                    (depth - 1) as nat,
                )
    }
}

/// Two entries read alike: same name, path and kind, their entries read alike.
pub open spec fn entry_alike(a: DirEntry, b: DirEntry, depth: nat) -> bool {
    a.name@ == b.name@ && a.path@ == b.path@ && a.is_dir == b.is_dir && reads_alike(
        a.children@,
        b.children@,
        depth,
    )
}

proof fn lemma_same_key_precedes(a: DirEntry, b: DirEntry, c: DirEntry)
    requires
        a.name@ == b.name@,
        a.is_dir == b.is_dir,
    ensures
        precedes(a, c) == precedes(b, c),
        precedes(c, a) == precedes(c, b),
        !precedes(a, b),
{
    lemma_precedes_asymmetric(a, a);
}

/// Whether some entry of `s` is related to `x`.
pub open spec fn matched_in(x: DirEntry, s: Seq<DirEntry>, rel: spec_fn(DirEntry, DirEntry) -> bool) -> bool {
    exists|j: int| #![trigger s[j]] 0 <= j < s.len() && rel(x, s[j])
}

/// Whether `y` is related to some entry of `s`.
pub open spec fn matched_from(s: Seq<DirEntry>, y: DirEntry, rel: spec_fn(DirEntry, DirEntry) -> bool) -> bool {
    exists|i: int| #![trigger s[i]] 0 <= i < s.len() && rel(s[i], y)
}

/// Two sorted sequences whose entries match one to one, by a relation that
/// keeps names and kinds, match position by position.
proof fn lemma_sorted_match(
    s1: Seq<DirEntry>,
    s2: Seq<DirEntry>,
    rel: spec_fn(DirEntry, DirEntry) -> bool,
)
    requires
        forall|a: DirEntry, b: DirEntry|
            #[trigger] rel(a, b) ==> a.name@ == b.name@ && a.is_dir == b.is_dir,
        sorted_entries(s1),
        sorted_entries(s2),
        forall|i: int| 0 <= i < s1.len() ==> matched_in(#[trigger] s1[i], s2, rel),
        forall|j: int| 0 <= j < s2.len() ==> matched_from(s1, #[trigger] s2[j], rel),
    ensures
        s1.len() == s2.len(),
        forall|k: int| 0 <= k < s1.len() ==> rel(#[trigger] s1[k], s2[k]),
    decreases s1.len(),
{
    if s1.len() == 0 {
        if s2.len() > 0 {
            let x = s2[0];
        }
    } else if s2.len() == 0 {
        let x = s1[0];
    } else {
        let x1 = s1[0];
        let x2 = s2[0];
        assert(matched_in(s1[0], s2, rel));
        assert(matched_from(s1, s2[0], rel));
        let j = choose|j: int| #![trigger s2[j]] 0 <= j < s2.len() && rel(s1[0], s2[j]);
        let i = choose|i: int| #![trigger s1[i]] 0 <= i < s1.len() && rel(s1[i], s2[0]);
        if j > 0 {
            assert(precedes(s2[0], s2[j]));
            lemma_same_key_precedes(s1[0], s2[j], s2[0]);
            if i > 0 {
                assert(precedes(s1[0], s1[i]));
                lemma_same_key_precedes(s1[i], s2[0], s1[0]);
                lemma_precedes_asymmetric(s1[0], s2[0]);
            } else {
                lemma_same_key_precedes(s1[0], s2[0], s2[0]);
            }
        }
        assert(rel(s1[0], s2[0]));
        let r1 = s1.drop_first();
        let r2 = s2.drop_first();
        assert forall|a: int| 0 <= a < r1.len() implies matched_in(#[trigger] r1[a], r2, rel) by {
            assert(r1[a] == s1[a + 1]);
            assert(matched_in(s1[a + 1], s2, rel));
            let q = choose|q: int| #![trigger s2[q]] 0 <= q < s2.len() && rel(s1[a + 1], s2[q]);
            if q == 0 {
                assert(precedes(s1[0], s1[a + 1]));
                lemma_same_key_precedes(s1[a + 1], s2[0], s1[0]);
                lemma_same_key_precedes(s1[0], s2[0], s2[0]);
            }
            assert(r2[q - 1] == s2[q]);
        }
        assert forall|b: int| 0 <= b < r2.len() implies matched_from(r1, #[trigger] r2[b], rel) by {
            assert(r2[b] == s2[b + 1]);
            assert(matched_from(s1, s2[b + 1], rel));
            let q = choose|q: int| #![trigger s1[q]] 0 <= q < s1.len() && rel(s1[q], s2[b + 1]);
            if q == 0 {
                assert(precedes(s2[0], s2[b + 1]));
                lemma_same_key_precedes(s1[0], s2[0], s2[b + 1]);
                lemma_same_key_precedes(s1[0], s2[b + 1], s1[0]);
            }
            assert(r1[q - 1] == s1[q]);
        }
        assert forall|a: int, b: int| 0 <= a < b < r1.len() implies precedes(
            #[trigger] r1[a],
            #[trigger] r1[b],
        ) by {
            assert(precedes(s1[a + 1], s1[b + 1]));
        }
        assert forall|a: int, b: int| 0 <= a < b < r2.len() implies precedes(
            #[trigger] r2[a],
            #[trigger] r2[b],
        ) by {
            assert(precedes(s2[a + 1], s2[b + 1]));
        }
        lemma_sorted_match(r1, r2, rel);
        assert forall|k: int| 0 <= k < s1.len() implies rel(#[trigger] s1[k], s2[k]) by {
            if k > 0 {
                assert(s1[k] == r1[k - 1]);
                assert(s2[k] == r2[k - 1]);
            }
        }
    }
}

proof fn lemma_level_alike(
    e1: Seq<DirEntry>,
    e2: Seq<DirEntry>,
    patterns: Seq<Seq<char>>,
    prefix: Seq<char>,
    depth: nat,
)
    requires
        reads_alike(e1, e2, depth),
    ensures
        render_level(e1, patterns, prefix, 0) == render_level(e2, patterns, prefix, 0),
    decreases depth, listing(e1, patterns).len() + 1,
{
    if depth > 0 {
        let d = (depth - 1) as nat;
        lemma_listing(e1, patterns);
        lemma_listing(e2, patterns);
        let l1 = listed(e1, listing(e1, patterns));
        let l2 = listed(e2, listing(e2, patterns));
        let rel = |a: DirEntry, b: DirEntry| entry_alike(a, b, d);
        assert forall|i: int| 0 <= i < l1.len() implies matched_in(#[trigger] l1[i], l2, rel) by {
            assert(l1.contains(l1[i]));
            let y = choose|y: int| 0 <= y < e1.len() && e1[y] == l1[i];
            let j2 = choose|j2: int|
                #![trigger e2[j2]]
                0 <= j2 < e2.len() && e1[y].name@ == e2[j2].name@ && e1[y].path@ == e2[j2].path@
                    && e1[y].is_dir == e2[j2].is_dir && reads_alike(e1[y].children@, e2[j2].children@, d);
            assert(e2.contains(e2[j2]));
            assert(l2.contains(e2[j2]));
            let q = choose|q: int| 0 <= q < l2.len() && l2[q] == e2[j2];
            assert(rel(l1[i], l2[q]));
        }
        assert forall|j: int| 0 <= j < l2.len() implies matched_from(l1, #[trigger] l2[j], rel) by {
            assert(l2.contains(l2[j]));
            let y = choose|y: int| 0 <= y < e2.len() && e2[y] == l2[j];
            let i2 = choose|i2: int|
                #![trigger e1[i2]]
                0 <= i2 < e1.len() && e1[i2].name@ == e2[y].name@ && e1[i2].path@ == e2[y].path@
                    && e1[i2].is_dir == e2[y].is_dir && reads_alike(e1[i2].children@, e2[y].children@, d);
            assert(e1.contains(e1[i2]));
            assert(l1.contains(e1[i2]));
            let q = choose|q: int| 0 <= q < l1.len() && l1[q] == e1[i2];
            assert(rel(l1[q], l2[j]));
        }
        lemma_sorted_match(l1, l2, rel);
        assert forall|m: int|
            0 <= m < listing(e1, patterns).len() implies entry_alike(
                #[trigger] listed(e1, listing(e1, patterns))[m],
                listed(e2, listing(e2, patterns))[m],
                d,
            ) by {
            assert(rel(l1[m], l2[m]));
        }
        lemma_render_alike(e1, e2, patterns, prefix, 0, depth);
    }
}

proof fn lemma_render_alike(
    e1: Seq<DirEntry>,
    e2: Seq<DirEntry>,
    patterns: Seq<Seq<char>>,
    prefix: Seq<char>,
    k: int,
    depth: nat,
)
    requires
        0 <= k,
        depth > 0,
        indices_in(e1, listing(e1, patterns)),
        indices_in(e2, listing(e2, patterns)),
        listing(e1, patterns).len() == listing(e2, patterns).len(),
        forall|m: int|
            0 <= m < listing(e1, patterns).len() ==> entry_alike(
                #[trigger] listed(e1, listing(e1, patterns))[m],
                listed(e2, listing(e2, patterns))[m],
                (depth - 1) as nat,
            ),
    ensures
        render_level(e1, patterns, prefix, k) == render_level(e2, patterns, prefix, k),
    decreases depth, listing(e1, patterns).len() - k,
{
    let o1 = listing(e1, patterns);
    let o2 = listing(e2, patterns);
    if k < o1.len() {
        let a = e1[o1[k]];
        let b = e2[o2[k]];
        assert(a == listed(e1, o1)[k]);
        assert(b == listed(e2, o2)[k]);
        assert(entry_alike(a, b, (depth - 1) as nat));
        let last = k == o1.len() - 1;
        assert(entry_line(prefix, a, last) == entry_line(prefix, b, last));
        if a.is_dir {
            lemma_level_alike(
                a.children@,
                b.children@,
                patterns,
                child_prefix(prefix, last),
                (depth - 1) as nat,
            );
        }
        lemma_render_alike(e1, e2, patterns, prefix, k + 1, depth);
    }
}

/// The tree does not depend on the order in which directories were read: two
/// readings of the same directory, down to any depth, give the same text.
pub proof fn lemma_tree_independent_of_read_order(
    base: Seq<char>,
    e1: Seq<DirEntry>,
    e2: Seq<DirEntry>,
    patterns: Seq<Seq<char>>,
    depth: nat,
)
    requires
        reads_alike(e1, e2, depth),
    ensures
        tree_text(base, e1, patterns) == tree_text(base, e2, patterns),
{
    lemma_level_alike(e1, e2, patterns, seq![], depth);
}

/// Two pattern lists that ignore the same paths.
pub open spec fn same_ignoring(p1: Seq<Seq<char>>, p2: Seq<Seq<char>>) -> bool {
    forall|path: Seq<char>| #[trigger] ignored(path, p1) == ignored(path, p2)
}

proof fn lemma_visible_same_ignoring(
    es: Seq<DirEntry>,
    p1: Seq<Seq<char>>,
    p2: Seq<Seq<char>>,
    n: int,
)
    requires
        same_ignoring(p1, p2),
    ensures
        visible_upto(es, p1, n) == visible_upto(es, p2, n),
    decreases n,
{
    if n > 0 {
        lemma_visible_same_ignoring(es, p1, p2, n - 1);
        assert(ignored(es[n - 1].path@, p1) == ignored(es[n - 1].path@, p2));
    }
}

proof fn lemma_render_same_ignoring(
    es: Seq<DirEntry>,
    p1: Seq<Seq<char>>,
    p2: Seq<Seq<char>>,
    prefix: Seq<char>,
    k: int,
)
    requires
        same_ignoring(p1, p2),
    ensures
        render_level(es, p1, prefix, k) == render_level(es, p2, prefix, k),
    decreases es, listing(es, p1).len() - k,
{
    lemma_visible_same_ignoring(es, p1, p2, es.len() as int);
    assert(listing(es, p1) == listing(es, p2));
    let ord = listing(es, p1);
    if 0 <= k < ord.len() {
        let j = ord[k];
        if 0 <= j < es.len() {
            let e = es[j];
            let last = k == ord.len() - 1;
            if e.is_dir {
                lemma_render_same_ignoring(e.children@, p1, p2, child_prefix(prefix, last), 0);
            }
            lemma_render_same_ignoring(es, p1, p2, prefix, k + 1);
        }
    }
}

/// A malformed pattern hides nothing from the tree: the tree drawn with it is
/// the tree drawn without it.
pub proof fn lemma_malformed_pattern_keeps_tree(
    base: Seq<char>,
    entries: Seq<DirEntry>,
    patterns: Seq<Seq<char>>,
    k: int,
)
    requires
        0 <= k < patterns.len(),
        !glob_valid(patterns[k]),
    ensures
        tree_text(base, entries, patterns) == tree_text(base, entries, patterns.remove(k)),
{
    assert forall|path: Seq<char>| #[trigger] ignored(path, patterns) == ignored(
        path,
        patterns.remove(k),
    ) by {
        lemma_malformed_pattern_matches_nothing(path, patterns, k);
    }
    lemma_render_same_ignoring(entries, patterns, patterns.remove(k), seq![], 0);
}

} // verus!
