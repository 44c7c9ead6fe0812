//! The families of shells and what is found in their startup files.

use vstd::prelude::*;

verus! {

/// A family of shells with one syntax for setting `PATH`.
#[derive(Debug, Clone, Copy, PartialEq, Eq, Structural)]
pub enum ShellType {
    Zsh,
    Bash,
    Fish,
    Tcsh,
    Ksh,
    Generic,
}

/// The kind of statement by which a startup file sets or extends `PATH`.
#[derive(Debug, Clone, Copy, PartialEq, Eq, Structural)]
pub enum ModificationType {
    /// A plain assignment, `export PATH=...`.
    Assignment,
    /// An addition to the current value, `PATH=$PATH:...`.
    Addition,
    /// An array of directories, `path=(...)` or `path+=(...)`.
    ArrayModification,
    /// `setenv PATH ...` or `set path = (...)`.
    SetEnv,
    /// `fish_add_path ...` or `set -gx PATH ...`.
    FishPath,
}

/// A statement about `PATH`, as found in a text: where it begins, what it
/// says and of which kind it is.
pub struct Declaration {
    /// The number of its first line, counted from 1.
    pub line: int,
    /// Its lines as they are shown, without the carriage return of a line
    /// end, with a line break between each two.
    pub text: Seq<char>,
    /// Its kind.
    pub kind: ModificationType,
}

/// A statement about `PATH` found in the text of a startup file.
#[derive(Debug, Clone)]
pub struct PathModification {
    /// The number of its first line, counted from 1.
    pub line_number: usize,
    /// Its lines as they are shown, without the carriage return of a line
    /// end, with a line break between each two.
    pub content: String,
    /// Its kind.
    pub modification_type: ModificationType,
}

impl View for PathModification {
    type V = Declaration;

    open spec fn view(&self) -> Declaration {
        Declaration {
            line: self.line_number as int,
            text: self.content@,
            kind: self.modification_type,
        }
    }
}

/// The statements of a vector, each by its view.
pub open spec fn declared(v: Seq<PathModification>) -> Seq<Declaration> {
    Seq::new(v.len(), |i: int| v[i]@)
}

} // verus!
