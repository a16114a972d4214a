//! One file's section of the document.
use vstd::prelude::*;
use crate::headers::{adjust_markdown_headers, shifted};
use crate::stamp::{info_line, push_info_line, FileInfo};
use crate::text::push_str;

verus! {

/// The separator and the heading that open a section.
pub open spec fn section_head(display: Seq<char>) -> Seq<char> {
    "---\n\n# "@ + display + "\n\n"@
}

/// The metadata line, where there is one.
pub open spec fn info_part(info: Option<FileInfo>) -> Seq<char> {
    match info {
        Some(fi) => info_line(fi),
        None => seq![],
    }
}

/// What closes the content inside a fence: a newline unless it ends in one.
pub open spec fn fence_gap(content: Seq<char>) -> Seq<char> {
    if content.len() > 0 && content.last() == '\n' {
        seq![]
    } else {
        seq!['\n']
    }
}

/// The section of a source file: its content in a fence tagged `language`.
pub open spec fn code_section(
    display: Seq<char>,
    language: Seq<char>,
    content: Seq<char>,
    info: Option<FileInfo>,
) -> Seq<char> {
    section_head(display) + info_part(info) + "```"@ + language + "\n"@ + content + fence_gap(
        content,
    ) + "```\n\n"@
}

/// The section of a Markdown file: its content with every header shifted down.
pub open spec fn markdown_section(
    display: Seq<char>,
    content: Seq<char>,
    info: Option<FileInfo>,
) -> Seq<char> {
    section_head(display) + info_part(info) + shifted(content) + "\n\n"@
}

fn push_head(out: &mut String, display: &str, info: Option<FileInfo>)
    ensures
        final(out)@ == old(out)@ + section_head(display@) + info_part(info),
{
    let ghost start = out@;
    push_str(out, "---\n\n# ");
    push_str(out, display);
    push_str(out, "\n\n");
    assert(out@ =~= start + section_head(display@));
    match info {
        Some(fi) => push_info_line(out, fi),
        None => {
            assert(out@ =~= start + section_head(display@) + info_part(info));
        },
    }
}

/// Renders a source file shown as `display` inside a fence tagged `language`;
/// a newline is added before the closing fence where the content lacks one.
pub fn render_code_section(
    display: &str,
    language: &str,
    content: &str,
    info: Option<FileInfo>,
) -> (r: String)
    ensures
        r@ == code_section(display@, language@, content@, info),
{
    let mut r = String::new();
    push_head(&mut r, display, info);
    let ghost head = r@;
    push_str(&mut r, "```");
    push_str(&mut r, language);
    push_str(&mut r, "\n");
    push_str(&mut r, content);
    let n = content.unicode_len();
    if n == 0 || content.get_char(n - 1) != '\n' {
        r.push('\n');
    }
    push_str(&mut r, "```\n\n");
    assert(r@ =~= code_section(display@, language@, content@, info));
    r
}

/// Renders a Markdown file shown as `display`: its headers shifted one level down.
pub fn render_markdown_section(display: &str, content: &str, info: Option<FileInfo>) -> (r: String)
    ensures
        r@ == markdown_section(display@, content@, info),
{
    let mut r = String::new();
    push_head(&mut r, display, info);
    let adjusted = adjust_markdown_headers(content);
    push_str(&mut r, adjusted.as_str());
    push_str(&mut r, "\n\n");
    assert(r@ =~= markdown_section(display@, content@, info));
    r
}

} // verus!
