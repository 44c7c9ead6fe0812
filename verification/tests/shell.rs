use pathmaster::utils::shell::factory::detect;
use pathmaster::utils::shell::handlers::{
    config_location_for, default_config_location, join_path, BashHandler, FishHandler, GenericHandler, KshHandler,
    ShellHandler, TcshHandler, ZshHandler,
};
use pathmaster::utils::shell::types::ShellType;
use pathmaster::utils::shell::{detect_shell_config, update_shell_config, ShellConfig};

#[test]
fn shells_are_told_by_name_in_order() {
    assert_eq!(detect("/bin/zsh"), ShellType::Zsh);
    assert_eq!(detect("/bin/bash"), ShellType::Bash);
    assert_eq!(detect("/usr/local/bin/fish"), ShellType::Fish);
    assert_eq!(detect("/bin/tcsh"), ShellType::Tcsh);
    assert_eq!(detect("/bin/csh"), ShellType::Tcsh);
    assert_eq!(detect("/bin/ksh"), ShellType::Ksh);
    assert_eq!(detect("/bin/other"), ShellType::Generic);
    assert_eq!(detect("/bin/sh"), ShellType::Generic);
    assert_eq!(detect(""), ShellType::Generic);
    // the first name in the order decides
    assert_eq!(detect("/opt/bash/bin/zsh"), ShellType::Zsh);
    assert_eq!(detect("/opt/fish/bin/bash"), ShellType::Bash);
}

#[test]
fn each_family_has_its_startup_file() {
    assert_eq!(default_config_location(ShellType::Bash, "/home/u"), "/home/u/.bashrc");
    assert_eq!(default_config_location(ShellType::Zsh, "/home/u"), "/home/u/.zshrc");
    assert_eq!(
        default_config_location(ShellType::Fish, "/home/u"),
        "/home/u/.config/fish/config.fish"
    );
    assert_eq!(default_config_location(ShellType::Tcsh, "/home/u"), "/home/u/.tcshrc");
    assert_eq!(default_config_location(ShellType::Ksh, "/home/u"), "/home/u/.kshrc");
    assert_eq!(default_config_location(ShellType::Generic, "/home/u"), "/home/u/.profile");
}

#[test]
fn paths_are_joined_with_one_slash() {
    assert_eq!(join_path("/home/u", ".bashrc"), "/home/u/.bashrc");
    assert_eq!(join_path("/home/u/", ".bashrc"), "/home/u/.bashrc");
    assert_eq!(join_path("/", ".bashrc"), "/.bashrc");
    assert_eq!(join_path("", ".bashrc"), ".bashrc");
}

#[test]
fn handlers_know_family_and_file() {
    let h = BashHandler::in_home("/h");
    assert_eq!(h.get_shell_type(), ShellType::Bash);
    assert_eq!(h.get_config_path(), "/h/.bashrc");
    let h = ZshHandler::in_home("/h");
    assert_eq!(h.get_shell_type(), ShellType::Zsh);
    assert_eq!(h.get_config_path(), "/h/.zshrc");
    let h = FishHandler::in_home("/h");
    assert_eq!(h.get_shell_type(), ShellType::Fish);
    assert_eq!(h.get_config_path(), "/h/.config/fish/config.fish");
    let h = TcshHandler::in_home("/h");
    assert_eq!(h.get_shell_type(), ShellType::Tcsh);
    assert_eq!(h.get_config_path(), "/h/.tcshrc");
    let h = KshHandler::in_home("/h");
    assert_eq!(h.get_shell_type(), ShellType::Ksh);
    assert_eq!(h.get_config_path(), "/h/.kshrc");
    let h = GenericHandler::in_home("/h");
    assert_eq!(h.get_shell_type(), ShellType::Generic);
    assert_eq!(h.get_config_path(), "/h/.profile");
}

#[test]
fn handler_for_the_current_user_points_into_a_home() {
    assert!(BashHandler::new().get_config_path().ends_with(".bashrc"));
    assert!(KshHandler::new().get_config_path().ends_with(".kshrc"));
    assert!(FishHandler::new()
        .get_config_path()
        .ends_with(".config/fish/config.fish"));
}

#[test]
fn handler_locates_statements() {
    let found = ZshHandler::in_home("/h").detect_path_modifications("x\npath=(/a)\n");
    assert_eq!(found.len(), 1);
    assert_eq!(found[0].line_number, 2);
    assert_eq!(found[0].content, "path=(/a)");
}

#[test]
fn handler_reads_without_changing_plain_directories() {
    let entries = KshHandler::in_home("/h").parse_path_entries("export PATH=/a:/b:/c d/e\n");
    assert_eq!(
        entries,
        vec!["/a".to_string(), "/b".to_string(), "/c d/e".to_string()]
    );
}

#[test]
fn handler_writes_directories_expanded() {
    let h = BashHandler::in_home("/h");
    let text = h.format_path_export(&["~/bin".to_string(), "/a".to_string()]);
    assert!(!text.contains('~'));
    assert!(text.ends_with("/bin:/a\""));
    let out = h.update_path_in_config("x\n", &["~/bin".to_string()]);
    assert!(!out.contains('~'));
    assert!(out.starts_with("x\n# Updated by pathmaster on "));
    assert!(out.ends_with("/bin\"\n"));
}

#[test]
fn handler_expands_a_leading_tilde() {
    let entries = BashHandler::in_home("/h").parse_path_entries("export PATH=~/bin:/a/~b\n");
    assert_eq!(entries.len(), 2);
    assert!(entries[0].ends_with("/bin"));
    assert_ne!(entries[0], "~/bin");
    assert_eq!(entries[1], "/a/~b");
}

#[test]
fn written_time_is_made_of_digits() {
    let text = GenericHandler::in_home("/h").format_path_export(&["/a".to_string()]);
    let lines: Vec<&str> = text.lines().collect();
    assert_eq!(lines.len(), 2);
    let stamp = lines[0].strip_prefix("# Updated by pathmaster on ").unwrap();
    assert!(!stamp.contains('%'));
    assert_eq!(stamp.len(), 19);
    assert!(stamp
        .chars()
        .all(|c| c.is_ascii_digit() || c == '-' || c == ':' || c == ' '));
    assert_eq!(stamp.chars().filter(|c| c.is_ascii_digit()).count(), 14);
    assert_eq!(lines[1], "export PATH=\"/a\"");
}

#[test]
fn update_goes_by_the_shell() {
    let entries = vec!["/a".to_string()];
    let out = update_shell_config("/bin/zsh", "x\npath=(/old)\ny\n", &entries);
    assert!(out.starts_with("x\npath+=(\n  \"/a\"\n)\nexport PATH\n# Updated by pathmaster on "));
    assert!(out.ends_with("\ny\n"));
    let out = update_shell_config("/bin/dash", "x\nexport PATH=/old\ny\n", &entries);
    assert!(out.starts_with("x\n# Updated by pathmaster on "));
    assert!(out.ends_with("\nexport PATH=\"/a\"\ny\n"));
    assert!(!out.contains("/old"));
}

#[test]
fn shell_config_detects_and_names_its_backup() {
    let config = ShellConfig::new("/bin/zsh", "/home/u");
    assert_eq!(*config.shell_type(), ShellType::Zsh);
    assert_eq!(config.config_path(), "/home/u/.zshrc");
    assert_eq!(
        config.backup_path("20240321120000"),
        "/home/u/.zshrc.bak_20240321120000"
    );
    let config = ShellConfig::new("/bin/other", "/home/u");
    assert_eq!(*config.shell_type(), ShellType::Generic);
    assert_eq!(config.config_path(), "/home/u/.profile");
    let (family, path) = detect_shell_config("/bin/bash", "/");
    assert_eq!(family, ShellType::Bash);
    assert_eq!(path, "/.bashrc");
}

#[test]
fn shell_config_rewrites_in_its_syntax() {
    let config = ShellConfig::new("/bin/bash", "/home/u");
    let out = config.updated_content(
        "export PATH=/old/path\n",
        &["/usr/bin".to_string(), "/usr/local/bin".to_string()],
        "2024-03-21 12:00:00",
    );
    assert_eq!(
        out,
        "# Updated by pathmaster on 2024-03-21 12:00:00\nexport PATH=\"/usr/bin:/usr/local/bin\"\n"
    );
}

#[test]
fn startup_file_is_looked_for_in_the_root_without_a_home() {
    assert_eq!(config_location_for(ShellType::Bash, None), "/.bashrc");
    assert_eq!(
        config_location_for(ShellType::Fish, None),
        "/.config/fish/config.fish"
    );
    assert_eq!(
        config_location_for(ShellType::Zsh, Some("/home/u")),
        "/home/u/.zshrc"
    );
}

#[test]
fn handler_finds_zsh_arrays_first() {
    let found = ZshHandler::in_home("/h")
        .detect_path_modifications("export PATH=/a\npath=(/b)\n");
    assert_eq!(found.len(), 2);
    assert_eq!(found[0].line_number, 2);
    assert_eq!(found[0].content, "path=(/b)");
    assert_eq!(found[1].line_number, 1);
    assert_eq!(found[1].content, "export PATH=/a");
}

#[test]
fn handler_reads_what_it_wrote_up_to_expansion() {
    for entries in [
        vec!["/usr/bin".to_string(), "/usr/local/bin".to_string()],
        vec!["~/bin".to_string(), "/opt/x".to_string()],
    ] {
        let h = TcshHandler::in_home("/h");
        assert_eq!(h.parse_path_entries(&h.format_path_export(&entries)).len(), 2);
        let h = ZshHandler::in_home("/h");
        let read = h.parse_path_entries(&h.format_path_export(&entries));
        assert_eq!(read.len(), 2);
        assert_eq!(read[1], entries[1]);
        assert!(read[0].ends_with("/bin"));
        assert!(!read[0].starts_with('~'));
    }
}
