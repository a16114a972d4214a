//! Assembling the whole document.
use vstd::prelude::*;
use vstd::string::StringExecFns;
use crate::collect::{file_language, language_for_path};
use crate::extensions::{markdown_tag, SupportedExtensions};
use crate::ignore::texts;
use crate::paths::{display_path, shown_path};
use crate::section::{code_section, markdown_section, render_code_section, render_markdown_section};
use crate::settings::Settings;
use crate::stamp::FileInfo;
use crate::text::push_str;
use crate::toc::{build_table_of_contents, toc_text};
use crate::tree::{build_directory_tree, tree_text, DirEntry};

verus! {

/// A collected file after reading: its path, its text and its metadata.
pub struct LoadedFile {
    pub path: String,
    pub content: String,
    pub info: FileInfo,
}

/// The section of one file, or nothing where its extension has no language.
pub open spec fn file_section(
    base: Seq<char>,
    f: LoadedFile,
    with_info: bool,
) -> Seq<char> {
    match file_language(f.path@) {
        None => seq![],
        Some(lang) => {
            let shown = shown_path(f.path@, base);
            let info = if with_info {
                Some(f.info)
            } else {
                None
            };
            if lang == markdown_tag() {
                markdown_section(shown, f.content@, info)
            } else {
                code_section(shown, lang, f.content@, info)
            }
        },
    }
}

/// The sections of the first `n` files, in order.
pub open spec fn sections_upto(
    base: Seq<char>,
    files: Seq<LoadedFile>,
    with_info: bool,
    n: int,
) -> Seq<char>
    decreases n,
{
    if n <= 0 {
        seq![]
    } else {
        sections_upto(base, files, with_info, n - 1) + file_section(
            base,
            files[n - 1],
            with_info,
        )
    }
}

/// The paths of the first `n` files that have a section, in order.
pub open spec fn rendered_upto(
    files: Seq<LoadedFile>,
    n: int,
) -> Seq<Seq<char>>
    decreases n,
{
    if n <= 0 {
        seq![]
    } else if file_language(files[n - 1].path@) is Some {
        rendered_upto(files, n - 1).push(files[n - 1].path@)
    } else {
        rendered_upto(files, n - 1)
    }
}

/// The directory tree block, where the settings ask for it.
pub open spec fn tree_part(s: Settings, tree: Seq<DirEntry>) -> Seq<char> {
    if s.include_directory_tree {
        "```\n"@ + tree_text(s.input_dir@, tree, texts(s.ignore_patterns@)) + "```\n\n"@
    } else {
        seq![]
    }
}

/// The table of contents block, where the settings ask for it.
pub open spec fn toc_part(
    s: Settings,
    files: Seq<LoadedFile>,
) -> Seq<char> {
    if s.include_toc {
        "## Table of Contents\n\n"@ + toc_text(
            rendered_upto(files, files.len() as int),
            s.input_dir@,
        ) + "\n\n"@
    } else {
        seq![]
    }
}

/// The document: the tree block, the table of contents, then every section.
pub open spec fn document(
    s: Settings,
    tree: Seq<DirEntry>,
    files: Seq<LoadedFile>,
) -> Seq<char> {
    tree_part(s, tree) + toc_part(s, files) + sections_upto(
        s.input_dir@,
        files,
        s.include_file_info,
        files.len() as int,
    )
}

/// Generates the complete Markdown document from the settings, the entries of
/// the input directory (for its tree) and the collected files, in their order.
pub fn generate_markdown(
    settings: &Settings,
    extensions: &SupportedExtensions,
    tree: &Vec<DirEntry>,
    files: &Vec<LoadedFile>,
) -> (r: String)
    ensures
        r@ == document(*settings, tree@, files@),
{
    let ghost base = settings.input_dir@;
    let ghost with_info = settings.include_file_info;
    let mut body = String::new();
    let mut shown_paths: Vec<String> = Vec::new();
    let mut i: usize = 0;
    while i < files.len()
        invariant
            i <= files.len(),
            base == settings.input_dir@,
            with_info == settings.include_file_info,
            body@ == sections_upto(base, files@, with_info, i as int),
            texts(shown_paths@) == rendered_upto(files@, i as int),
        decreases files.len() - i,
    {
        let f = &files[i];
        match language_for_path(extensions, f.path.as_str()) {
            Some(lang) => {
                let shown = display_path(f.path.as_str(), settings.input_dir.as_str());
                let info = if settings.include_file_info {
                    Some(f.info)
                } else {
                    None
                };
                let is_markdown = String::from_str(lang) == String::from_str("markdown");
                let section = if is_markdown {
                    render_markdown_section(shown.as_str(), f.content.as_str(), info)
                } else {
                    render_code_section(shown.as_str(), lang, f.content.as_str(), info)
                };
                push_str(&mut body, section.as_str());
                let ghost before = shown_paths@;
                shown_paths.push(f.path.clone());
                assert(texts(shown_paths@) =~= texts(before).push(f.path@));
            },
            None => {
                assert(body@ =~= sections_upto(base, files@, with_info, i + 1));
            },
        }
        i = i + 1;
    }
    let mut r = String::new();
    if settings.include_directory_tree {
        push_str(&mut r, "```\n");
        let text = build_directory_tree(
            settings.input_dir.as_str(),
            tree,
            &settings.ignore_patterns,
        );
        push_str(&mut r, text.as_str());
        push_str(&mut r, "```\n\n");
    }
    assert(r@ =~= tree_part(*settings, tree@));
    let ghost head = r@;
    if settings.include_toc {
        push_str(&mut r, "## Table of Contents\n\n");
        let toc = build_table_of_contents(&shown_paths, settings.input_dir.as_str());
        push_str(&mut r, toc.as_str());
        push_str(&mut r, "\n\n");
    }
    assert(r@ =~= head + toc_part(*settings, files@));
    push_str(&mut r, body.as_str());
    assert(r@ =~= document(*settings, tree@, files@));
    r
}

} // verus!
