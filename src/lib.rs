//! Turns a snapshot of a source directory into one Markdown document:
//! fenced code sections, shifted Markdown headers, a table of contents and a
//! directory tree, each stated and proved over sequences of characters.
pub mod text;
pub mod extensions;
pub mod ignore;
pub mod paths;
pub mod headers;
pub mod toc;
pub mod stamp;
pub mod section;
pub mod tree;
pub mod settings;
pub mod collect;
pub mod document;
pub mod listing;
