//! Backups of the value of `PATH`: what one holds, how its file is named and
//! where it is kept.

use vstd::prelude::*;
use crate::outside::{is_name_time, local_time};
use crate::text::{chars_of, push_all, string_of};
use crate::utils::shell::handlers::{join_path, path_in};

verus! {

/// A backup of `PATH`.
#[derive(Debug)]
pub struct Backup {
    /// When the backup was made: year, month, day, hour, minute and second
    /// in digits, fourteen of them for a year of four.
    pub timestamp: String,
    /// The whole value of `PATH` at that time.
    pub path: String,
}

/// Where backups are kept.
#[derive(Debug)]
pub struct BackupSettings {
    dir: Option<String>,
}

impl BackupSettings {
    /// The directory chosen for backups, if one was chosen.
    pub closed spec fn chosen(&self) -> Option<Seq<char>> {
        match self.dir {
            Some(d) => Some(d@),
            None => None,
        }
    }

    /// Settings with no directory chosen.
    pub fn new() -> (settings: Self)
        ensures
            settings.chosen() is None,
    {
        BackupSettings { dir: None }
    }
}

/// Chooses `dir` as the directory for backups.
pub fn set_backup_dir(settings: &mut BackupSettings, dir: String)
    ensures
        final(settings).chosen() == Some(dir@),
{
    settings.dir = Some(dir);
}

/// The directory for backups: the one chosen, or `.pathmaster/backups` in
/// the home directory `home` where none was chosen.
pub fn get_backup_dir(settings: &BackupSettings, home: &str) -> (dir: String)
    ensures
        dir@ == match settings.chosen() {
            Some(d) => d,
            None => path_in(home@, ".pathmaster/backups"@),
        },
{
    match &settings.dir {
        Some(d) => d.clone(),
        None => join_path(home, ".pathmaster/backups"),
    }
}

/// The name of the file that holds the backup made at `timestamp`.
pub open spec fn file_name_for(timestamp: Seq<char>) -> Seq<char> {
    "backup_"@ + timestamp + ".json"@
}

/// The name of the file that holds the backup made at `timestamp`.
pub fn backup_file_name(timestamp: &str) -> (name: String)
    ensures
        name@ == file_name_for(timestamp@),
{
    let mut out = chars_of("backup_");
    push_all(&mut out, &chars_of(timestamp));
    push_all(&mut out, &chars_of(".json"));
    string_of(&out)
}

/// A backup of `path`, the value of `PATH`, made at the time of the call.
pub fn create_backup(path: &str) -> (backup: Backup)
    ensures
        backup.path@ == path@,
        is_name_time(backup.timestamp@),
{
    Backup { timestamp: local_time("%Y%m%d%H%M%S"), path: string_of(&chars_of(path)) }
}

} // verus!
