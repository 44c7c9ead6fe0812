//! Management of the shell `PATH`: locating the statements that set it in a
//! shell startup file, rewriting them in place, and the small pieces of state
//! that go with backups and validation.
//!
//! The heart of the library is [`utils::shell::rewrite`]: given the text of a
//! startup file and a list of directories, it writes a fresh statement in the
//! place of the first statement about `PATH`, removes the others and keeps
//! every other line. What holds of every rewrite is proved in
//! [`utils::shell::laws`], [`utils::shell::roundtrip`] and
//! [`utils::shell::remains`].

pub mod backup;
pub mod commands;
pub mod outside;
pub mod text;
pub mod text_facts;
pub mod utils;
