//! Shifting the headers of an embedded Markdown file one level down.
use vstd::prelude::*;
use crate::text::{chars_of, string_of};

verus! {

/// `line` without one trailing carriage return, if it has one.
pub open spec fn strip_cr(line: Seq<char>) -> Seq<char> {
    if line.len() > 0 && line.last() == '\r' {
        line.drop_last()
    } else {
        line
    }
}

/// The lines of `s` from a line starting at `start`, scanning from `i`: split at
/// each `\n`, a `\r` before it dropped, and no empty line after a final `\n`.
pub open spec fn lines_scan(s: Seq<char>, start: int, i: int) -> Seq<Seq<char>>
    decreases s.len() - i,
{
    if i >= s.len() {
        if 0 <= start < s.len() {
            seq![s.subrange(start, s.len() as int)]
        } else {
            seq![]
        }
    } else if i >= 0 && s[i] == '\n' {
        seq![strip_cr(s.subrange(start, i))] + lines_scan(s, i + 1, i + 1)
    } else {
        lines_scan(s, start, i + 1)
    }
}

/// The lines of `s`, as `str::lines` yields them.
pub open spec fn lines_of(s: Seq<char>) -> Seq<Seq<char>> {
    lines_scan(s, 0, 0)
}

/// The lines joined with `\n` between them.
pub open spec fn join_lines(ls: Seq<Seq<char>>) -> Seq<char>
    decreases ls.len(),
{
    if ls.len() == 0 {
        seq![]
    } else if ls.len() == 1 {
        ls[0]
    } else {
        join_lines(ls.drop_last()) + seq!['\n'] + ls.last()
    }
}

/// The index of the first character at or after `i` that is not `#`.
pub open spec fn hashes_end(l: Seq<char>, i: int) -> int
    decreases l.len() - i,
{
    if 0 <= i < l.len() && l[i] == '#' {
        hashes_end(l, i + 1)
    } else {
        i
    }
}

/// The number of `#` that start `l`.
pub open spec fn hash_run(l: Seq<char>) -> int {
    hashes_end(l, 0)
}

/// `n` characters `#`.
pub open spec fn hashes(n: int) -> Seq<char> {
    Seq::new(n as nat, |k: int| '#')
}

/// One line after the shift: a header (hashes then a space) gains a level, up
/// to six; a line of hashes alone becomes six hashes; any other line stays.
pub open spec fn shift_line(l: Seq<char>) -> Seq<char> {
    let h = hash_run(l);
    if h < l.len() {
        if h > 0 && l[h] == ' ' {
            hashes(if h < 6 { h + 1 } else { 6 }) + l.subrange(h, l.len() as int)
        } else {
            l
        }
    } else if l.len() > 0 {
        hashes(6)
    } else {
        l
    }
}

/// The content with every line shifted, lines joined by `\n`.
pub open spec fn shifted(content: Seq<char>) -> Seq<char> {
    join_lines(lines_of(content).map_values(|l: Seq<char>| shift_line(l)))
}

proof fn lemma_hashes_end_bounds(l: Seq<char>, i: int)
    requires
        0 <= i <= l.len(),
    ensures
        i <= hashes_end(l, i) <= l.len(),
        forall|j: int| i <= j < hashes_end(l, i) ==> l[j] == '#',
    decreases l.len() - i,
{
    if i < l.len() && l[i] == '#' {
        lemma_hashes_end_bounds(l, i + 1);
    }
}

/// The lines of `s`, each as its characters.
pub fn split_lines(s: &Vec<char>) -> (r: Vec<Vec<char>>)
    ensures
        r@.map_values(|l: Vec<char>| l@) == lines_of(s@),
{
    let mut r: Vec<Vec<char>> = Vec::new();
    let mut cur: Vec<char> = Vec::new();
    let mut start: usize = 0;
    let mut i: usize = 0;
    while i < s.len()
        invariant
            start <= i <= s.len(),
            cur@ == s@.subrange(start as int, i as int),
            r@.map_values(|l: Vec<char>| l@) + lines_scan(s@, start as int, i as int) == lines_of(s@),
            forall|j: int| start <= j < i ==> s@[j] != '\n',
        decreases s.len() - i,
    {
        let c = s[i];
        if c == '\n' {
            let mut line = cur;
            if line.len() > 0 && line[line.len() - 1] == '\r' {
                line.pop();
            }
            assert(line@ == strip_cr(s@.subrange(start as int, i as int)));
            let ghost before = r@.map_values(|l: Vec<char>| l@);
            r.push(line);
            assert(r@.map_values(|l: Vec<char>| l@) == before.push(
                strip_cr(s@.subrange(start as int, i as int)),
            ));
            assert(r@.map_values(|l: Vec<char>| l@) + lines_scan(s@, i + 1, i + 1) == lines_of(s@));
            cur = Vec::new();
            i = i + 1;
            start = i;
            assert(cur@ == s@.subrange(start as int, i as int));
        } else {
            cur.push(c);
            i = i + 1;
            assert(cur@ == s@.subrange(start as int, i as int));
        }
    }
    if start < s.len() {
        let ghost before = r@.map_values(|l: Vec<char>| l@);
        r.push(cur);
        assert(r@.map_values(|l: Vec<char>| l@) == before.push(s@.subrange(start as int, s@.len() as int)));
    } else {
        assert(r@.map_values(|l: Vec<char>| l@) + Seq::<Seq<char>>::empty() == r@.map_values(|l: Vec<char>| l@));
    }
    r
}

/// One line after the shift.
pub fn shift_header(line: &Vec<char>) -> (r: Vec<char>)
    ensures
        r@ == shift_line(line@),
{
    let mut h: usize = 0;
    while h < line.len() && line[h] == '#'
        invariant
            h <= line.len(),
            hashes_end(line@, 0) == hashes_end(line@, h as int),
        decreases line.len() - h,
    {
        h = h + 1;
    }
    proof {
        lemma_hashes_end_bounds(line@, 0);
    }
    if h < line.len() {
        if h > 0 && line[h] == ' ' {
            let level: usize = if h < 6 { h + 1 } else { 6 };
            let mut r: Vec<char> = Vec::new();
            let mut k: usize = 0;
            while k < level
                invariant
                    k <= level,
                    r@ == hashes(k as int),
                decreases level - k,
            {
                r.push('#');
                k = k + 1;
                assert(r@ =~= hashes(k as int));
            }
            let mut j: usize = h;
            while j < line.len()
                invariant
                    h <= j <= line.len(),
                    r@ == hashes(level as int) + line@.subrange(h as int, j as int),
                decreases line.len() - j,
            {
                r.push(line[j]);
                j = j + 1;
                assert(r@ =~= hashes(level as int) + line@.subrange(h as int, j as int));
            }
            r
        } else {
            line.clone()
        }
    } else if line.len() > 0 {
        let mut r: Vec<char> = Vec::new();
        let mut k: usize = 0;
        while k < 6
            invariant
                k <= 6,
                r@ == hashes(k as int),
            decreases 6 - k,
        {
            r.push('#');
            k = k + 1;
            assert(r@ =~= hashes(k as int));
        }
        r
    } else {
        line.clone()
    }
}

/// Increases each header level in the Markdown content by one, capping at level 6.
pub fn adjust_markdown_headers(content: &str) -> (r: String)
    ensures
        r@ == shifted(content@),
{
    let cs = chars_of(content);
    let lines = split_lines(&cs);
    let ghost ls = lines@.map_values(|l: Vec<char>| l@);
    let ghost target = ls.map_values(|l: Seq<char>| shift_line(l));
    let mut out: Vec<char> = Vec::new();
    let mut i: usize = 0;
    while i < lines.len()
        invariant
            i <= lines.len(),
            ls == lines@.map_values(|l: Vec<char>| l@),
            ls == lines_of(content@),
            target == ls.map_values(|l: Seq<char>| shift_line(l)),
            out@ == join_lines(target.subrange(0, i as int)),
        decreases lines.len() - i,
    {
        let shifted_line = shift_header(&lines[i]);
        let ghost prev = out@;
        if i > 0 {
            out.push('\n');
        }
        let mut j: usize = 0;
        while j < shifted_line.len()
            invariant
                j <= shifted_line.len(),
                out@ == (if i > 0 { prev + seq!['\n'] } else { prev }) + shifted_line@.subrange(0, j as int),
            decreases shifted_line.len() - j,
        {
            out.push(shifted_line[j]);
            j = j + 1;
            assert(out@ =~= (if i > 0 { prev + seq!['\n'] } else { prev }) + shifted_line@.subrange(0, j as int));
        }
        assert(shifted_line@.subrange(0, shifted_line.len() as int) == shifted_line@);
        let ghost upto = target.subrange(0, i + 1);
        assert(upto.drop_last() == target.subrange(0, i as int));
        assert(upto.last() == shifted_line@);
        if i == 0 {
            assert(out@ =~= join_lines(upto));
        }
        i = i + 1;
    }
    assert(target.subrange(0, lines.len() as int) == target);
    string_of(&out)
}

/// Headers already at level six stay at level six: when every header line of
/// the content has six hashes, the shift changes no line.
pub proof fn lemma_level_six_headers_saturate(content: Seq<char>)
    requires
        forall|i: int|
            0 <= i < lines_of(content).len() ==> {
                let l = #[trigger] lines_of(content)[i];
                (hash_run(l) > 0 && (hash_run(l) == l.len() || l[hash_run(l)] == ' ')) ==> hash_run(l)
                    == 6
            },
    ensures
        shifted(content) == join_lines(lines_of(content)),
{
    let ls = lines_of(content);
    let m = ls.map_values(|l: Seq<char>| shift_line(l));
    assert forall|i: int| 0 <= i < ls.len() implies m[i] == ls[i] by {
        let l = ls[i];
        lemma_hashes_end_bounds(l, 0);
        let h = hash_run(l);
        if h < l.len() {
            if h > 0 && l[h] == ' ' {
                assert(shift_line(l) =~= l);
            }
        } else if l.len() > 0 {
            assert(shift_line(l) =~= l);
        }
    }
    assert(m =~= ls);
}

} // verus!
