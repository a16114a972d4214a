//! Anchors and the table of contents.
use vstd::prelude::*;
use vstd::string::StringExecFns;
use crate::headers::join_lines;
use crate::ignore::texts;
use crate::paths::{display_path, shown_path};
use crate::text::push_str;

verus! {

/// Whether `char::is_alphanumeric` holds of `c`.
pub uninterp spec fn char_alphanumeric(c: char) -> bool;

/// The text that `str::to_lowercase` gives for `s`.
pub uninterp spec fn lower_of(s: Seq<char>) -> Seq<char>;

/// Relies on `char::is_alphanumeric`: whether the character is alphabetic or numeric.
#[verifier::external_body]
fn is_alphanumeric(c: char) -> (r: bool)
    ensures
        r == char_alphanumeric(c),
{
    c.is_alphanumeric()
}

/// Relies on `str::to_lowercase`: the lowercase mapping of the whole text.
#[verifier::external_body]
fn lowercase(s: &str) -> (r: String)
    ensures
        r@ == lower_of(s@),
{
    s.to_lowercase()
}

/// The alphanumeric characters of `s`, in order.
pub open spec fn keep_alphanumeric(s: Seq<char>) -> Seq<char>
    decreases s.len(),
{
    if s.len() == 0 {
        seq![]
    } else if char_alphanumeric(s.last()) {
        keep_alphanumeric(s.drop_last()).push(s.last())
    } else {
        keep_alphanumeric(s.drop_last())
    }
}

/// The anchor of a shown path: its alphanumeric characters, lower-cased.
pub open spec fn anchor_of(display: Seq<char>) -> Seq<char> {
    lower_of(keep_alphanumeric(display))
}

/// One line of the table of contents: a link from the shown path to its anchor.
pub open spec fn toc_line(display: Seq<char>) -> Seq<char> {
    "- ["@ + display + "](#"@ + anchor_of(display) + ")"@
}

/// The table of contents for the files, in order, shown under `base`.
pub open spec fn toc_text(paths: Seq<Seq<char>>, base: Seq<char>) -> Seq<char> {
    join_lines(paths.map_values(|p: Seq<char>| toc_line(shown_path(p, base))))
}

/// Generates a Markdown anchor: the alphanumeric characters of `display`, lower-cased.
pub fn generate_anchor(display: &str) -> (r: String)
    ensures
        r@ == anchor_of(display@),
{
    let cs = crate::text::chars_of(display);
    let mut kept = String::new();
    let mut i: usize = 0;
    while i < cs.len()
        invariant
            i <= cs.len(),
            cs@ == display@,
            kept@ == keep_alphanumeric(cs@.subrange(0, i as int)),
        decreases cs.len() - i,
    {
        let c = cs[i];
        if is_alphanumeric(c) {
            kept.push(c);
        }
        assert(cs@.subrange(0, i + 1).drop_last() == cs@.subrange(0, i as int));
        i = i + 1;
    }
    assert(cs@.subrange(0, cs.len() as int) == cs@);
    lowercase(kept.as_str())
}

/// The table-of-contents line for a file shown as `display`.
pub fn toc_entry(display: &str) -> (r: String)
    ensures
        r@ == toc_line(display@),
{
    let mut r = String::from_str("- [");
    push_str(&mut r, display);
    push_str(&mut r, "](#");
    let anchor = generate_anchor(display);
    push_str(&mut r, anchor.as_str());
    push_str(&mut r, ")");
    r
}

/// Builds the table of contents: one link line per file, in order, each shown
/// by its path relative to `base_dir` (or its own path where it is not under it).
pub fn build_table_of_contents(file_paths: &Vec<String>, base_dir: &str) -> (r: String)
    ensures
        r@ == toc_text(texts(file_paths@), base_dir@),
{
    let ghost lines = texts(file_paths@).map_values(|p: Seq<char>| toc_line(shown_path(p, base_dir@)));
    let mut r = String::new();
    let mut i: usize = 0;
    while i < file_paths.len()
        invariant
            i <= file_paths.len(),
            lines == texts(file_paths@).map_values(|p: Seq<char>| toc_line(shown_path(p, base_dir@))),
            r@ == join_lines(lines.subrange(0, i as int)),
        decreases file_paths.len() - i,
    {
        let shown = display_path(file_paths[i].as_str(), base_dir);
        let line = toc_entry(shown.as_str());
        let ghost prev = r@;
        if i > 0 {
            r.push('\n');
        }
        push_str(&mut r, line.as_str());
        let ghost upto = lines.subrange(0, i + 1);
        assert(upto.drop_last() == lines.subrange(0, i as int));
        assert(upto.last() == line@);
        if i == 0 {
            assert(r@ =~= join_lines(upto));
        }
        i = i + 1;
    }
    assert(lines.subrange(0, file_paths.len() as int) == lines);
    r
}

} // verus!
