use pathmaster::backup::mode::{BackupMode, BackupModeManager, ModeChangeResult};

#[test]
fn test_backup_mode_defaults() {
    assert_eq!(BackupMode::default(), BackupMode::Both);
    assert_eq!(BackupModeManager::new().current_mode(), BackupMode::Both);
}

#[test]
fn test_backup_flags() {
    let mode = BackupMode::Both;
    assert!(mode.should_backup_path());
    assert!(mode.should_backup_shell());

    let mode = BackupMode::PathOnly;
    assert!(mode.should_backup_path());
    assert!(!mode.should_backup_shell());

    let mode = BackupMode::ShellOnly;
    assert!(!mode.should_backup_path());
    assert!(mode.should_backup_shell());
}

#[test]
fn test_mode_toggle() {
    assert_eq!(BackupMode::Both.toggle(), BackupMode::PathOnly);
    assert_eq!(BackupMode::PathOnly.toggle(), BackupMode::ShellOnly);
    assert_eq!(BackupMode::ShellOnly.toggle(), BackupMode::PathOnly);
}

#[test]
fn test_mode_change_requests() {
    let manager = BackupModeManager::new();

    // From Both to PathOnly should work directly
    match manager.request_mode_change(BackupMode::PathOnly) {
        ModeChangeResult::Changed(mode) => assert_eq!(mode, BackupMode::PathOnly),
        _ => panic!("Expected direct mode change"),
    }

    // Change manager to PathOnly for next test
    let mut manager = BackupModeManager::new();
    manager.confirm_mode_change(BackupMode::PathOnly);

    // From PathOnly to ShellOnly should need confirmation
    match manager.request_mode_change(BackupMode::ShellOnly) {
        ModeChangeResult::NeedsConfirmation { current, requested } => {
            assert_eq!(current, BackupMode::PathOnly);
            assert_eq!(requested, BackupMode::ShellOnly);
        }
        _ => panic!("Expected confirmation request"),
    }
}

#[test]
fn test_mode_parsing() {
    assert_eq!("both".parse::<BackupMode>().unwrap(), BackupMode::Both);
    assert_eq!("path".parse::<BackupMode>().unwrap(), BackupMode::PathOnly);
    assert_eq!(
        "shell".parse::<BackupMode>().unwrap(),
        BackupMode::ShellOnly
    );
    assert!("invalid".parse::<BackupMode>().is_err());
}

#[test]
fn test_mode_display() {
    assert_eq!(BackupMode::Both.to_string(), "both");
    assert_eq!(BackupMode::PathOnly.to_string(), "path");
    assert_eq!(BackupMode::ShellOnly.to_string(), "shell");
}

#[test]
fn mode_parsing_ignores_case() {
    assert_eq!(BackupMode::parse("BOTH"), Ok(BackupMode::Both));
    assert_eq!(BackupMode::parse("Path"), Ok(BackupMode::PathOnly));
    assert_eq!(BackupMode::parse("sHeLL"), Ok(BackupMode::ShellOnly));
}

#[test]
fn mode_parsing_error_quotes_the_word_as_given() {
    assert_eq!(
        BackupMode::parse("Invalid"),
        Err("Invalid backup mode: Invalid".to_string())
    );
    assert_eq!(
        BackupMode::parse(""),
        Err("Invalid backup mode: ".to_string())
    );
    assert_eq!(
        BackupMode::from_lowercase("paths", "PATHS"),
        Err("Invalid backup mode: PATHS".to_string())
    );
}

#[test]
fn from_lowercase_takes_the_word_literally() {
    assert_eq!(BackupMode::from_lowercase("both", "x"), Ok(BackupMode::Both));
    assert!(BackupMode::from_lowercase("BOTH", "BOTH").is_err());
}

#[test]
fn mode_change_is_granted_when_nothing_changes() {
    let mut manager = BackupModeManager::new();
    manager.confirm_mode_change(BackupMode::ShellOnly);
    assert_eq!(
        manager.request_mode_change(BackupMode::ShellOnly),
        ModeChangeResult::Changed(BackupMode::ShellOnly)
    );
    assert_eq!(
        manager.request_mode_change(BackupMode::Both),
        ModeChangeResult::NeedsConfirmation {
            current: BackupMode::ShellOnly,
            requested: BackupMode::Both
        }
    );
    // a request changes nothing by itself
    assert_eq!(manager.current_mode(), BackupMode::ShellOnly);
}

#[test]
fn manager_toggles_and_resets() {
    let mut manager = BackupModeManager::new();
    manager.toggle_mode();
    assert_eq!(manager.current_mode(), BackupMode::PathOnly);
    manager.toggle_mode();
    assert_eq!(manager.current_mode(), BackupMode::ShellOnly);
    manager.toggle_mode();
    assert_eq!(manager.current_mode(), BackupMode::PathOnly);
    manager.reset_to_default();
    assert_eq!(manager.current_mode(), BackupMode::Both);
}
