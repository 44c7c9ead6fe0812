use pathmaster::backup::store::{
    backup_file_name, create_backup, get_backup_dir, set_backup_dir, BackupSettings,
};
use pathmaster::utils::path_scanner::{format_results, PathLocation, PathScanner};

#[test]
fn scanner_finds_the_lines_that_mention_path() {
    let content = "\n#!/bin/bash\nexport PATH=\"/usr/local/bin:$PATH\"\npath+=('/home/user/bin')\n";
    let scanner = PathScanner::new();
    let results = scanner.scan_text("test.sh", content, false);
    assert_eq!(results.len(), 2);
    assert_eq!(results[0].line_number, 3);
    assert_eq!(results[0].content, "export PATH=\"/usr/local/bin:$PATH\"");
    assert_eq!(results[0].file, "test.sh");
    assert!(!results[0].requires_sudo);
    assert_eq!(results[1].line_number, 4);
    assert_eq!(results[1].content, "path+=('/home/user/bin')");
}

#[test]
fn scanner_knows_four_ways() {
    let scanner = PathScanner::new();
    let content = "PATH=/a\nexport PATH\nsetenv PATH /a\npath+=(/a)\npath=(/a)\nfish_add_path /a\n";
    let results = scanner.scan_text("/etc/profile", content, true);
    let lines: Vec<usize> = results.iter().map(|r| r.line_number).collect();
    assert_eq!(lines, vec![1, 2, 3, 4]);
    assert!(results.iter().all(|r| r.requires_sudo));
}

#[test]
fn report_has_two_headings() {
    assert_eq!(
        format_results(&[]),
        "System-level files (requires sudo):\n\nUser-level files:\n"
    );
}

#[test]
fn report_lists_each_finding_under_its_heading() {
    let locations = vec![
        PathLocation {
            file: "/home/u/.bashrc".to_string(),
            line_number: 12,
            content: "  export PATH=/a  ".to_string(),
            requires_sudo: false,
        },
        PathLocation {
            file: "/etc/profile".to_string(),
            line_number: 3,
            content: "PATH=/b".to_string(),
            requires_sudo: true,
        },
        PathLocation {
            file: "/home/u/.zshrc".to_string(),
            line_number: 1050,
            content: "\tpath+=(/c)".to_string(),
            requires_sudo: false,
        },
    ];
    assert_eq!(
        format_results(&locations),
        "System-level files (requires sudo):\n/etc/profile:3 - PATH=/b\n\nUser-level files:\n/home/u/.bashrc:12 - export PATH=/a\n/home/u/.zshrc:1050 - path+=(/c)\n"
    );
}

#[test]
fn backup_files_are_named_by_their_time() {
    assert_eq!(
        backup_file_name("20240321120000"),
        "backup_20240321120000.json"
    );
}

#[test]
fn backup_directory_is_the_chosen_one_or_in_the_home() {
    let mut settings = BackupSettings::new();
    assert_eq!(
        get_backup_dir(&settings, "/home/u"),
        "/home/u/.pathmaster/backups"
    );
    assert_eq!(get_backup_dir(&settings, "/"), "/.pathmaster/backups");
    set_backup_dir(&mut settings, "/tmp/b".to_string());
    assert_eq!(get_backup_dir(&settings, "/home/u"), "/tmp/b");
}

#[test]
fn backup_holds_path_and_a_time_of_fourteen_digits() {
    let backup = create_backup("/usr/bin:/usr/local/bin");
    assert_eq!(backup.path, "/usr/bin:/usr/local/bin");
    assert_eq!(backup.timestamp.len(), 14);
    assert!(backup.timestamp.chars().all(|c| c.is_ascii_digit()));
}

#[test]
fn scanner_shows_lines_without_their_carriage_return() {
    let scanner = PathScanner::new();
    let results = scanner.scan_text("f", "x\r\nexport PATH=/a\r\nPATH=/b\r", false);
    assert_eq!(results.len(), 2);
    assert_eq!(results[0].content, "export PATH=/a");
    assert_eq!(results[1].content, "PATH=/b\r");
}

#[test]
fn backup_time_ends_in_digits() {
    let backup = create_backup("");
    assert!(backup.timestamp.len() >= 14);
    assert!(backup.timestamp.chars().last().unwrap().is_ascii_digit());
}
