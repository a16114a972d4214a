//! The registry that maps a file extension to the language tag of its fence.
use vstd::prelude::*;
use vstd::string::StringExecFns;

verus! {

/// The registry's contents: (extension without the dot, language tag).
pub open spec fn extension_table() -> Seq<(Seq<char>, Seq<char>)> {
    seq![
            ("rs"@, "rust"@),
            ("py"@, "python"@),
            ("java"@, "java"@),
            ("c"@, "c"@),
            ("h"@, "c"@),
            ("cpp"@, "cpp"@),
            ("cc"@, "cpp"@),
            ("cxx"@, "cpp"@),
            ("hpp"@, "cpp"@),
            ("cs"@, "csharp"@),
            ("js"@, "javascript"@),
            ("ts"@, "typescript"@),
            ("go"@, "go"@),
            ("rb"@, "ruby"@),
            ("php"@, "php"@),
            ("swift"@, "swift"@),
            ("kt"@, "kotlin"@),
            ("scala"@, "scala"@),
            ("hs"@, "haskell"@),
            ("lua"@, "lua"@),
            ("sh"@, "bash"@),
            ("bash"@, "bash"@),
            ("pl"@, "perl"@),
            ("r"@, "r"@),
            ("m"@, "matlab"@),
            ("mm"@, "objectivec"@),
            ("html"@, "html"@),
            ("htm"@, "html"@),
            ("css"@, "css"@),
            ("xml"@, "xml"@),
            ("json"@, "json"@),
            ("yaml"@, "yaml"@),
            ("yml"@, "yaml"@),
            ("toml"@, "toml"@),
            ("make"@, "makefile"@),
            ("cmake"@, "cmake"@),
            ("gd"@, "gdscript"@),
            ("md"@, "markdown"@),
            ("txt"@, ""@)
    ]
}

/// The tag of the first entry of `table` from index `i` on whose extension is `ext`.
pub open spec fn lookup_from(table: Seq<(Seq<char>, Seq<char>)>, ext: Seq<char>, i: int) -> Option<
    Seq<char>,
>
    decreases table.len() - i,
{
    if i < 0 || i >= table.len() {
        None
    } else if table[i].0 == ext {
        Some(table[i].1)
    } else {
        lookup_from(table, ext, i + 1)
    }
}

/// The language tag that the registry gives to `ext`; exact and case-sensitive.
pub open spec fn language_of(ext: Seq<char>) -> Option<Seq<char>> {
    lookup_from(extension_table(), ext, 0)
}

/// The tag that selects Markdown rendering instead of a fenced block.
pub open spec fn markdown_tag() -> Seq<char> {
    "markdown"@
}

/// Maps file extensions to syntax highlighting languages.
pub struct SupportedExtensions {
    entries: Vec<(String, String)>,
}

impl SupportedExtensions {
    /// The registry holds exactly the built-in table.
    #[verifier::type_invariant]
    spec fn holds_table(&self) -> bool {
        self.entries@.map_values(|e: (String, String)| (e.0@, e.1@)) == extension_table()
    }

    /// The registry's entries: (extension, language tag), in order.
    pub closed spec fn table(&self) -> Seq<(Seq<char>, Seq<char>)> {
        self.entries@.map_values(|e: (String, String)| (e.0@, e.1@))
    }

    /// The registry of every supported extension.
    pub fn new() -> (r: Self)
        ensures
            r.table() == extension_table(),
    {
        let mut entries: Vec<(String, String)> = Vec::new();
        entries.push((String::from_str("rs"), String::from_str("rust")));
        entries.push((String::from_str("py"), String::from_str("python")));
        entries.push((String::from_str("java"), String::from_str("java")));
        entries.push((String::from_str("c"), String::from_str("c")));
        entries.push((String::from_str("h"), String::from_str("c")));
        entries.push((String::from_str("cpp"), String::from_str("cpp")));
        entries.push((String::from_str("cc"), String::from_str("cpp")));
        entries.push((String::from_str("cxx"), String::from_str("cpp")));
        entries.push((String::from_str("hpp"), String::from_str("cpp")));
        entries.push((String::from_str("cs"), String::from_str("csharp")));
        entries.push((String::from_str("js"), String::from_str("javascript")));
        entries.push((String::from_str("ts"), String::from_str("typescript")));
        entries.push((String::from_str("go"), String::from_str("go")));
        entries.push((String::from_str("rb"), String::from_str("ruby")));
        entries.push((String::from_str("php"), String::from_str("php")));
        entries.push((String::from_str("swift"), String::from_str("swift")));
        entries.push((String::from_str("kt"), String::from_str("kotlin")));
        entries.push((String::from_str("scala"), String::from_str("scala")));
        entries.push((String::from_str("hs"), String::from_str("haskell")));
        entries.push((String::from_str("lua"), String::from_str("lua")));
        entries.push((String::from_str("sh"), String::from_str("bash")));
        entries.push((String::from_str("bash"), String::from_str("bash")));
        entries.push((String::from_str("pl"), String::from_str("perl")));
        entries.push((String::from_str("r"), String::from_str("r")));
        entries.push((String::from_str("m"), String::from_str("matlab")));
        entries.push((String::from_str("mm"), String::from_str("objectivec")));
        entries.push((String::from_str("html"), String::from_str("html")));
        entries.push((String::from_str("htm"), String::from_str("html")));
        entries.push((String::from_str("css"), String::from_str("css")));
        entries.push((String::from_str("xml"), String::from_str("xml")));
        entries.push((String::from_str("json"), String::from_str("json")));
        entries.push((String::from_str("yaml"), String::from_str("yaml")));
        entries.push((String::from_str("yml"), String::from_str("yaml")));
        entries.push((String::from_str("toml"), String::from_str("toml")));
        entries.push((String::from_str("make"), String::from_str("makefile")));
        entries.push((String::from_str("cmake"), String::from_str("cmake")));
        entries.push((String::from_str("gd"), String::from_str("gdscript")));
        entries.push((String::from_str("md"), String::from_str("markdown")));
        entries.push((String::from_str("txt"), String::from_str("")));
        assert(entries@.map_values(|e: (String, String)| (e.0@, e.1@)) =~= extension_table());
        SupportedExtensions { entries }
    }

    /// The language tag for `extension`, if the registry knows it.
    pub fn get_language(&self, extension: &str) -> (r: Option<&str>)
        ensures
            r matches Some(t) ==> language_of(extension@) == Some(t@),
            r is None <==> language_of(extension@) is None,
    {
        proof {
            use_type_invariant(self);
        }
        let ghost table = self.entries@.map_values(|e: (String, String)| (e.0@, e.1@));
        let key = String::from_str(extension);
        let mut i: usize = 0;
        while i < self.entries.len()
            invariant
                i <= self.entries.len(),
                key@ == extension@,
                table == self.entries@.map_values(|e: (String, String)| (e.0@, e.1@)),
                table == extension_table(),
                lookup_from(table, extension@, 0) == lookup_from(table, extension@, i as int),
            decreases self.entries.len() - i,
        {
            if self.entries[i].0 == key {
                return Some(self.entries[i].1.as_str());
            }
            i = i + 1;
        }
        None
    }
}

} // verus!
