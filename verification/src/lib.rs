//! A small keyboard-driven scrap-note library: a directory-backed note store,
//! a substring filter over note names, and the selector/editor/shell state
//! machines that coordinate the two-pane user interface.

use vstd::prelude::*;

pub mod editor;
pub mod item;
pub mod json;
pub mod parse;
pub mod percent;
pub mod routes;
pub mod selector;
pub mod shell;
pub mod store;
pub mod text;

verus! {

/// Configuration of the server: the directory notes are stored in.
pub struct Config {
    pub file_directory: String,
}

impl Config {
    /// The compiled-in default note directory.
    pub fn default() -> (r: Config)
        ensures
            r.file_directory@ == "/home/inab/tmp/note"@,
    {
        Config { file_directory: "/home/inab/tmp/note".to_owned() }
    }
}

} // verus!
