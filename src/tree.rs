//! The directory tree: a snapshot of a directory rendered with box-drawing connectors.
use vstd::prelude::*;
use vstd::string::StringExecFns;
use crate::ignore::{ignored, is_ignored, texts};
use crate::paths::{file_name_of, path_file_name};
use crate::text::{chars_of, push_str};

verus! {

/// One entry of a directory as it stood when read: a directory holds the
/// entries read from it, empty where it could not be read.
pub struct DirEntry {
    pub name: String,
    pub path: String,
    pub is_dir: bool,
    pub children: Vec<DirEntry>,
}

/// Whether `a` comes before `b` in code-point order, from position `i` on.
pub open spec fn name_lt_from(a: Seq<char>, b: Seq<char>, i: int) -> bool
    decreases a.len() - i,
{
    if i < 0 || i >= a.len() {
        0 <= i < b.len()
    } else if i >= b.len() {
        false
    } else if (a[i] as int) < (b[i] as int) {
        true
    } else if a[i] == b[i] {
        name_lt_from(a, b, i + 1)
    } else {
        false
    }
}

/// Whether name `a` sorts strictly before name `b`.
pub open spec fn name_lt(a: Seq<char>, b: Seq<char>) -> bool {
    name_lt_from(a, b, 0)
}

/// Whether `a` is listed before `b`: directories first, then by name.
pub open spec fn precedes(a: DirEntry, b: DirEntry) -> bool {
    (a.is_dir && !b.is_dir) || (a.is_dir == b.is_dir && name_lt(a.name@, b.name@))
}

/// The indices, below `n`, of the entries that no pattern excludes, in order.
pub open spec fn visible_upto(entries: Seq<DirEntry>, patterns: Seq<Seq<char>>, n: int) -> Seq<int>
    decreases n,
{
    if n <= 0 {
        seq![]
    } else if ignored(entries[n - 1].path@, patterns) {
        visible_upto(entries, patterns, n - 1)
    } else {
        visible_upto(entries, patterns, n - 1).push(n - 1)
    }
}

/// The first place in `t`, from `j` on, before whose entry entry `x` is listed.
pub open spec fn first_after(entries: Seq<DirEntry>, x: int, t: Seq<int>, j: int) -> int
    decreases t.len() - j,
{
    if j < 0 || j >= t.len() {
        t.len() as int
    } else if precedes(entries[x], entries[t[j]]) {
        j
    } else {
        first_after(entries, x, t, j + 1)
    }
}

/// `t` with `x` inserted after every entry that it does not precede.
pub open spec fn insert_sorted(entries: Seq<DirEntry>, x: int, t: Seq<int>) -> Seq<int> {
    let k = first_after(entries, x, t, 0);
    t.subrange(0, k) + seq![x] + t.subrange(k, t.len() as int)
}

/// The first `n` indices of `idx`, sorted by insertion in that order.
pub open spec fn sort_upto(entries: Seq<DirEntry>, idx: Seq<int>, n: int) -> Seq<int>
    decreases n,
{
    if n <= 0 {
        seq![]
    } else {
        insert_sorted(entries, idx[n - 1], sort_upto(entries, idx, n - 1))
    }
}

/// The indices of the entries listed, in listing order.
pub open spec fn listing(entries: Seq<DirEntry>, patterns: Seq<Seq<char>>) -> Seq<int> {
    let v = visible_upto(entries, patterns, entries.len() as int);
    sort_upto(entries, v, v.len() as int)
}

/// The line of one listed entry.
pub open spec fn entry_line(prefix: Seq<char>, e: DirEntry, last: bool) -> Seq<char> {
    prefix + (if last { "└─ "@ } else { "├─ "@ }) + e.name@ + (if e.is_dir { "/"@ } else { seq![] })
        + "\n"@
}

/// The prefix of the lines below a listed directory.
pub open spec fn child_prefix(prefix: Seq<char>, last: bool) -> Seq<char> {
    prefix + (if last { "    "@ } else { "│   "@ })
}

/// The lines of the listed entries from the `k`-th on, each directory followed
/// by its own listing.
pub open spec fn render_level(
    entries: Seq<DirEntry>,
    patterns: Seq<Seq<char>>,
    prefix: Seq<char>,
    k: int,
) -> Seq<char>
    decreases entries, listing(entries, patterns).len() - k,
{
    let ord = listing(entries, patterns);
    if k < 0 || k >= ord.len() {
        seq![]
    } else {
        let j = ord[k];
        if 0 <= j < entries.len() {
            let e = entries[j];
            let last = k == ord.len() - 1;
            let below = if e.is_dir {
                render_level(e.children@, patterns, child_prefix(prefix, last), 0)
            } else {
                seq![]
            };
            entry_line(prefix, e, last) + below + render_level(entries, patterns, prefix, k + 1)
        } else {
            seq![]
        }
    }
}

/// The name on the root line: the directory's final component, else its path.
pub open spec fn root_name(base: Seq<char>) -> Seq<char> {
    match path_file_name(base) {
        Some(n) => n,
        None => base,
    }
}

/// The whole tree of the directory `base` whose entries are `entries`.
pub open spec fn tree_text(base: Seq<char>, entries: Seq<DirEntry>, patterns: Seq<Seq<char>>) -> Seq<
    char,
> {
    root_name(base) + "/\n"@ + render_level(entries, patterns, seq![], 0)
}

fn name_precedes(a: &String, b: &String) -> (r: bool)
    ensures
        r == name_lt(a@, b@),
{
    let x = chars_of(a.as_str());
    let y = chars_of(b.as_str());
    let mut i: usize = 0;
    while i < x.len() && i < y.len() && x[i] == y[i]
        invariant
            i <= x.len(),
            i <= y.len(),
            x@ == a@,
            y@ == b@,
            name_lt_from(a@, b@, 0) == name_lt_from(a@, b@, i as int),
        decreases x.len() - i,
    {
        i = i + 1;
    }
    if i >= x.len() {
        i < y.len()
    } else if i >= y.len() {
        false
    } else {
        x[i] < y[i]
    }
}

fn entry_precedes(a: &DirEntry, b: &DirEntry) -> (r: bool)
    ensures
        r == precedes(*a, *b),
{
    if a.is_dir && !b.is_dir {
        true
    } else if a.is_dir == b.is_dir {
        name_precedes(&a.name, &b.name)
    } else {
        false
    }
}

/// The indices of the entries to list, in listing order.
fn listing_order(entries: &Vec<DirEntry>, ignore_patterns: &Vec<String>) -> (r: Vec<usize>)
    ensures
        r@.map_values(|u: usize| u as int) == listing(entries@, texts(ignore_patterns@)),
        forall|m: int| 0 <= m < r@.len() ==> r@[m] < entries@.len(),
{
    let ghost pats = texts(ignore_patterns@);
    let mut vis: Vec<usize> = Vec::new();
    let mut i: usize = 0;
    while i < entries.len()
        invariant
            i <= entries.len(),
            pats == texts(ignore_patterns@),
            vis@.map_values(|u: usize| u as int) == visible_upto(entries@, pats, i as int),
            forall|m: int| 0 <= m < vis@.len() ==> vis@[m] < entries@.len(),
        decreases entries.len() - i,
    {
        if !is_ignored(entries[i].path.as_str(), ignore_patterns) {
            vis.push(i);
            assert(vis@.map_values(|u: usize| u as int) =~= visible_upto(entries@, pats, i as int).push(i as int));
        }
        i = i + 1;
    }
    let ghost visv = vis@.map_values(|u: usize| u as int);
    let mut sorted: Vec<usize> = Vec::new();
    let mut n: usize = 0;
    while n < vis.len()
        invariant
            n <= vis.len(),
            visv == vis@.map_values(|u: usize| u as int),
            forall|m: int| 0 <= m < vis@.len() ==> vis@[m] < entries@.len(),
            sorted@.map_values(|u: usize| u as int) == sort_upto(entries@, visv, n as int),
            forall|m: int| 0 <= m < sorted@.len() ==> sorted@[m] < entries@.len(),
        decreases vis.len() - n,
    {
        let x = vis[n];
        let ghost t = sorted@.map_values(|u: usize| u as int);
        let mut j: usize = 0;
        while j < sorted.len() && !entry_precedes(&entries[x], &entries[sorted[j]])
            invariant
                j <= sorted.len(),
                x < entries@.len(),
                t == sorted@.map_values(|u: usize| u as int),
                forall|m: int| 0 <= m < sorted@.len() ==> sorted@[m] < entries@.len(),
                first_after(entries@, x as int, t, 0) == first_after(entries@, x as int, t, j as int),
            decreases sorted.len() - j,
        {
            j = j + 1;
        }
        sorted.insert(j, x);
        assert(sorted@.map_values(|u: usize| u as int) =~= insert_sorted(entries@, x as int, t));
        n = n + 1;
    }
    assert(visv.len() == vis@.len());
    sorted
}

/// Appends the lines of the entries, each directory followed by its own listing.
fn render_entries(entries: &Vec<DirEntry>, ignore_patterns: &Vec<String>, prefix: &String, out: &mut String)
    ensures
        final(out)@ == old(out)@ + render_level(entries@, texts(ignore_patterns@), prefix@, 0),
    decreases entries@,
{
    let ghost pats = texts(ignore_patterns@);
    let ghost start = out@;
    let ord = listing_order(entries, ignore_patterns);
    let ghost ordv = ord@.map_values(|u: usize| u as int);
    let total = ord.len();
    let mut k: usize = 0;
    while k < total
        invariant
            k <= total,
            total == ord@.len(),
            pats == texts(ignore_patterns@),
            ordv == ord@.map_values(|u: usize| u as int),
            ordv == listing(entries@, pats),
            forall|m: int| 0 <= m < ord@.len() ==> ord@[m] < entries@.len(),
            out@ + render_level(entries@, pats, prefix@, k as int) == start + render_level(
                entries@,
                pats,
                prefix@,
                0,
            ),
        decreases total - k,
    {
        let j = ord[k];
        let e = &entries[j];
        let last = k == total - 1;
        let ghost before = out@;
        push_str(out, prefix.as_str());
        if last {
            push_str(out, "└─ ");
        } else {
            push_str(out, "├─ ");
        }
        push_str(out, e.name.as_str());
        if e.is_dir {
            push_str(out, "/");
        }
        push_str(out, "\n");
        assert(out@ =~= before + entry_line(prefix@, *e, last));
        let ghost mid = out@;
        if e.is_dir {
            let mut deeper = prefix.clone();
            if last {
                push_str(&mut deeper, "    ");
            } else {
                push_str(&mut deeper, "│   ");
            }
            assert(deeper@ == child_prefix(prefix@, last));
            render_entries(&e.children, ignore_patterns, &deeper, out);
        }
        let ghost below = if e.is_dir {
            render_level(e.children@, pats, child_prefix(prefix@, last), 0)
        } else {
            seq![]
        };
        assert(out@ =~= mid + below);
        assert(render_level(entries@, pats, prefix@, k as int) == entry_line(prefix@, *e, last) + below
            + render_level(entries@, pats, prefix@, k + 1));
        assert(out@ + render_level(entries@, pats, prefix@, k + 1) =~= before + render_level(
            entries@,
            pats,
            prefix@,
            k as int,
        ));
        k = k + 1;
    }
    assert(render_level(entries@, pats, prefix@, k as int) == Seq::<char>::empty());
    assert(out@ =~= start + render_level(entries@, pats, prefix@, 0));
}

/// Builds a visual directory tree of `base_dir`, whose entries are `entries`,
/// leaving out every entry whose path an ignore pattern matches.
pub fn build_directory_tree(base_dir: &str, entries: &Vec<DirEntry>, ignore_patterns: &Vec<String>) -> (r:
    String)
    ensures
        r@ == tree_text(base_dir@, entries@, texts(ignore_patterns@)),
{
    let mut tree = match file_name_of(base_dir) {
        Some(n) => n,
        None => base_dir.to_string(),
    };
    push_str(&mut tree, "/\n");
    let empty = String::new();
    render_entries(entries, ignore_patterns, &empty, &mut tree);
    assert(tree@ =~= tree_text(base_dir@, entries@, texts(ignore_patterns@)));
    tree
}

} // verus!
