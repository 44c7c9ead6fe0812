//! The choice of a shell family from the name of the running shell.

use vstd::prelude::*;
use crate::text::{chars_of, contains, contains_text};
use crate::utils::shell::types::ShellType;

verus! {

/// The family of the shell whose program is `shell`: the first of zsh,
/// bash, fish, tcsh or csh and ksh whose name stands in it, and the plain
/// POSIX shell where none does.
pub open spec fn family_of(shell: Seq<char>) -> ShellType {
    if contains_text(shell, "zsh"@) {
        ShellType::Zsh
    } else if contains_text(shell, "bash"@) {
        ShellType::Bash
    } else if contains_text(shell, "fish"@) {
        ShellType::Fish
    } else if contains_text(shell, "tcsh"@) || contains_text(shell, "csh"@) {
        ShellType::Tcsh
    } else if contains_text(shell, "ksh"@) {
        ShellType::Ksh
    } else {
        ShellType::Generic
    }
}

/// The family of the shell whose program is `shell`.
pub fn detect(shell: &str) -> (family: ShellType)
    ensures
        family == family_of(shell@),
{
    let s = chars_of(shell);
    if contains(&s, &chars_of("zsh")) {
        ShellType::Zsh
    } else if contains(&s, &chars_of("bash")) {
        ShellType::Bash
    } else if contains(&s, &chars_of("fish")) {
        ShellType::Fish
    } else if contains(&s, &chars_of("tcsh")) || contains(&s, &chars_of("csh")) {
        ShellType::Tcsh
    } else if contains(&s, &chars_of("ksh")) {
        ShellType::Ksh
    } else {
        ShellType::Generic
    }
}

} // verus!
