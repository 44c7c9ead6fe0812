//! Which parts of the user's configuration are backed up before a change.

use vstd::prelude::*;
use crate::outside::{lowercased, to_lowercase};
use crate::text::{chars_of, push_all, same, string_of};

verus! {

/// What is backed up before `PATH` is modified.
#[derive(Debug, Clone, Copy, PartialEq, Eq, Structural)]
pub enum BackupMode {
    /// Both `PATH` and the shell configuration file.
    Both,
    /// Only the entries of `PATH`.
    PathOnly,
    /// Only the shell configuration file.
    ShellOnly,
}

impl Default for BackupMode {
    fn default() -> (mode: Self)
        ensures
            mode == BackupMode::Both,
    {
        BackupMode::Both
    }
}

/// The mode that a lowercase word names, if it names one.
pub open spec fn mode_named(word: Seq<char>) -> Option<BackupMode> {
    if word == "both"@ {
        Some(BackupMode::Both)
    } else if word == "path"@ {
        Some(BackupMode::PathOnly)
    } else if word == "shell"@ {
        Some(BackupMode::ShellOnly)
    } else {
        None
    }
}

impl BackupMode {
    /// The word that names this mode.
    pub open spec fn name(self) -> Seq<char> {
        match self {
            BackupMode::Both => "both"@,
            BackupMode::PathOnly => "path"@,
            BackupMode::ShellOnly => "shell"@,
        }
    }

    /// The mode that follows this one when the user switches: from both to
    /// `PATH` only, and between `PATH` only and shell only.
    pub open spec fn toggled(self) -> BackupMode {
        match self {
            BackupMode::Both => BackupMode::PathOnly,
            BackupMode::PathOnly => BackupMode::ShellOnly,
            BackupMode::ShellOnly => BackupMode::PathOnly,
        }
    }

    /// Whether `PATH` is backed up in this mode.
    pub fn should_backup_path(&self) -> (yes: bool)
        ensures
            yes == (*self == BackupMode::Both || *self == BackupMode::PathOnly),
    {
        match self {
            BackupMode::Both => true,
            BackupMode::PathOnly => true,
            BackupMode::ShellOnly => false,
        }
    }

    /// Whether the shell configuration is backed up in this mode.
    pub fn should_backup_shell(&self) -> (yes: bool)
        ensures
            yes == (*self == BackupMode::Both || *self == BackupMode::ShellOnly),
    {
        match self {
            BackupMode::Both => true,
            BackupMode::PathOnly => false,
            BackupMode::ShellOnly => true,
        }
    }

    /// The mode that follows this one when the user switches.
    pub fn toggle(&self) -> (next: Self)
        ensures
            next == self.toggled(),
    {
        match self {
            BackupMode::Both => BackupMode::PathOnly,
            BackupMode::PathOnly => BackupMode::ShellOnly,
            BackupMode::ShellOnly => BackupMode::PathOnly,
        }
    }

    /// The word that names this mode.
    pub fn to_string(&self) -> (word: String)
        ensures
            word@ == self.name(),
    {
        match self {
            BackupMode::Both => string_of(&chars_of("both")),
            BackupMode::PathOnly => string_of(&chars_of("path")),
            BackupMode::ShellOnly => string_of(&chars_of("shell")),
        }
    }

    /// The mode that the lowercase word `word` names. Any other word is
    /// refused with a message that quotes `given`, the word as the user
    /// wrote it.
    pub fn from_lowercase(word: &str, given: &str) -> (mode: Result<Self, String>)
        ensures
            match mode_named(word@) {
                Some(m) => mode == Ok::<Self, String>(m),
                None => mode is Err && mode->Err_0@ == "Invalid backup mode: "@ + given@,
            },
    {
        let w = chars_of(word);
        if same(&w, &chars_of("both")) {
            Ok(BackupMode::Both)
        } else if same(&w, &chars_of("path")) {
            Ok(BackupMode::PathOnly)
        } else if same(&w, &chars_of("shell")) {
            Ok(BackupMode::ShellOnly)
        } else {
            let mut message = chars_of("Invalid backup mode: ");
            push_all(&mut message, &chars_of(given));
            Err(string_of(&message))
        }
    }

    /// The mode that `given` names, whatever the case of its letters.
    pub fn parse(given: &str) -> (mode: Result<Self, String>)
        ensures
            match mode_named(lowercased(given@)) {
                Some(m) => mode == Ok::<Self, String>(m),
                None => mode is Err && mode->Err_0@ == "Invalid backup mode: "@ + given@,
            },
    {
        let word = to_lowercase(given);
        BackupMode::from_lowercase(word.as_str(), given)
    }
}

impl std::str::FromStr for BackupMode {
    type Err = String;

    fn from_str(s: &str) -> (mode: Result<Self, String>)
        ensures
            match mode_named(lowercased(s@)) {
                Some(m) => mode == Ok::<Self, String>(m),
                None => mode is Err && mode->Err_0@ == "Invalid backup mode: "@ + s@,
            },
    {
        BackupMode::parse(s)
    }
}

/// The answer to a request for another mode.
#[derive(Debug, Clone, Copy, PartialEq, Eq, Structural)]
pub enum ModeChangeResult {
    /// The mode can change to the one held here.
    Changed(BackupMode),
    /// The request conflicts with the current mode and needs the user's
    /// word.
    NeedsConfirmation { current: BackupMode, requested: BackupMode },
}

/// The current backup mode and its changes.
#[derive(Debug)]
pub struct BackupModeManager {
    current_mode: BackupMode,
}

impl Default for BackupModeManager {
    fn default() -> (manager: Self)
        ensures
            manager.mode() == BackupMode::Both,
    {
        BackupModeManager { current_mode: BackupMode::Both }
    }
}

impl BackupModeManager {
    /// The mode this manager is in.
    pub closed spec fn mode(&self) -> BackupMode {
        self.current_mode
    }

    /// What a request for `new_mode` is answered in the mode `current`: it
    /// is granted where it changes nothing or where everything was backed
    /// up so far, and needs confirmation otherwise.
    pub open spec fn answer(current: BackupMode, new_mode: BackupMode) -> ModeChangeResult {
        if current == new_mode || current == BackupMode::Both {
            ModeChangeResult::Changed(new_mode)
        } else {
            ModeChangeResult::NeedsConfirmation { current, requested: new_mode }
        }
    }

    /// A manager in the default mode.
    pub fn new() -> (manager: Self)
        ensures
            manager.mode() == BackupMode::Both,
    {
        BackupModeManager { current_mode: BackupMode::Both }
    }

    /// The mode this manager is in.
    pub fn current_mode(&self) -> (mode: BackupMode)
        ensures
            mode == self.mode(),
    {
        self.current_mode
    }

    /// Answers a request for `new_mode` without changing the mode.
    pub fn request_mode_change(&self, new_mode: BackupMode) -> (result: ModeChangeResult)
        ensures
            result == Self::answer(self.mode(), new_mode),
    {
        if self.current_mode == new_mode {
            return ModeChangeResult::Changed(new_mode);
        }
        if self.current_mode == BackupMode::Both {
            ModeChangeResult::Changed(new_mode)
        } else {
            ModeChangeResult::NeedsConfirmation { current: self.current_mode, requested: new_mode }
        }
    }

    /// Changes to `new_mode`.
    pub fn confirm_mode_change(&mut self, new_mode: BackupMode)
        ensures
            final(self).mode() == new_mode,
    {
        self.current_mode = new_mode;
    }

    /// Changes to the default mode.
    pub fn reset_to_default(&mut self)
        ensures
            final(self).mode() == BackupMode::Both,
    {
        self.current_mode = BackupMode::Both;
    }

    /// Changes to the mode that follows the current one.
    pub fn toggle_mode(&mut self)
        ensures
            final(self).mode() == old(self).mode().toggled(),
    {
        self.current_mode = self.current_mode.toggle();
    }
}

} // verus!
