//! A project detector and status-line renderer: given a working directory's
//! contents, the output of a tool-version probe, and the text of a project
//! file, it decides whether the project is present and renders a templated
//! status line from the two version values.

use vstd::prelude::*;

pub mod chars;
pub mod config;
pub mod format;
pub mod module;
pub mod render;
pub mod runtime;
pub mod version;

verus! {

/// A single piece of rendered output: a run of text with an optional style.
#[derive(Clone, Debug, PartialEq, Eq)]
pub struct Segment {
    pub text: String,
    pub style: Option<String>,
}

/// What one evaluation sees of its surroundings, as plain values: the host
/// gathers them (directory listing, tool-version probe, project-file read)
/// and hands them in; the evaluation itself is a pure function of them.
pub struct Context {
    /// The names of the files in the working directory.
    pub file_names: Vec<String>,
    /// What the tool-version probe (`adam --version`) captured on its
    /// standard output; absent when the command could not be run or
    /// failed.
    pub tool_output: Option<String>,
    /// The text of the project file `.adam.toml`; absent when it is
    /// missing or unreadable.
    pub project_file: Option<String>,
}

/// Mathematical form of the evaluation's surroundings.
pub struct CtxV {
    pub files: Seq<Seq<char>>,
    pub tool_output: Option<Seq<char>>,
    pub project_file: Option<Seq<char>>,
}

impl View for Context {
    type V = CtxV;

    open spec fn view(&self) -> CtxV {
        CtxV {
            files: crate::config::strings_view(self.file_names@),
            tool_output: crate::config::opt_view(self.tool_output),
            project_file: crate::config::opt_view(self.project_file),
        }
    }
}

} // verus!
