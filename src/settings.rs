//! The run's settings, merged from invocation arguments and stored defaults.
use vstd::prelude::*;

verus! {

/// What one invocation asks for.
pub struct Args {
    /// Input directory to scan for code files.
    pub input_dir: String,
    /// Output Markdown file path; standard output where absent.
    pub output: Option<String>,
    /// Glob patterns to ignore.
    pub ignore: Vec<String>,
    /// Include a table of contents.
    pub toc: bool,
    /// Include file metadata (size, last modified).
    pub file_info: bool,
    /// Include the directory tree structure.
    pub directory_tree: bool,
}

/// The stored defaults.
pub struct Config {
    pub ignore_patterns: Vec<String>,
    pub default_output: Option<String>,
    pub include_directory_tree: bool,
    pub include_toc: bool,
    pub include_file_info: bool,
}

impl Default for Config {
    fn default() -> (r: Self)
        ensures
            r.ignore_patterns@.len() == 0,
            r.default_output is None,
            !r.include_directory_tree,
            !r.include_toc,
            !r.include_file_info,
    {
        Config {
            ignore_patterns: Vec::new(),
            default_output: None,
            include_directory_tree: false,
            include_toc: false,
            include_file_info: false,
        }
    }
}

/// The resolved configuration of one run.
pub struct Settings {
    pub input_dir: String,
    pub output_path: Option<String>,
    pub ignore_patterns: Vec<String>,
    pub include_toc: bool,
    pub include_file_info: bool,
    pub include_directory_tree: bool,
}

impl Settings {
    /// Merges the two sources: the arguments' patterns come first, then the
    /// stored ones; the argument's output path wins over the stored one; each
    /// toggle is on where either source turns it on.
    pub fn from_args_and_config(args: Args, config: Config) -> (r: Settings)
        ensures
            r.input_dir == args.input_dir,
            r.ignore_patterns@ == args.ignore@ + config.ignore_patterns@,
            r.output_path == (match args.output {
                Some(o) => Some(o),
                None => config.default_output,
            }),
            r.include_toc == (args.toc || config.include_toc),
            r.include_file_info == (args.file_info || config.include_file_info),
            r.include_directory_tree == (args.directory_tree || config.include_directory_tree),
    {
        let mut ignore_patterns = args.ignore;
        let mut stored = config.ignore_patterns;
        ignore_patterns.append(&mut stored);
        let output_path = match args.output {
            Some(o) => Some(o),
            None => config.default_output,
        };
        Settings {
            input_dir: args.input_dir,
            output_path,
            ignore_patterns,
            include_toc: args.toc || config.include_toc,
            include_file_info: args.file_info || config.include_file_info,
            include_directory_tree: args.directory_tree || config.include_directory_tree,
        }
    }
}

} // verus!
