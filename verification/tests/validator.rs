use pathmaster::commands::validator::{validate_entries, PathValidation};
use tempfile::TempDir;

#[test]
fn test_validation_struct() {
    let mut validation = PathValidation::new();
    let temp_dir = TempDir::new().unwrap();

    // Test with valid directory
    let valid = temp_dir.path().to_owned();
    validation.add_path(valid.to_string_lossy().into_owned(), valid.is_dir());
    assert_eq!(validation.existing_dirs.len(), 1);
    assert_eq!(validation.missing_dirs.len(), 0);

    // Test with invalid directory
    let invalid = temp_dir.path().join("nonexistent");
    validation.add_path(invalid.to_string_lossy().into_owned(), invalid.is_dir());
    assert_eq!(validation.existing_dirs.len(), 1);
    assert_eq!(validation.missing_dirs.len(), 1);
}

#[test]
fn test_total_dirs() {
    let mut validation = PathValidation::new();
    assert_eq!(validation.total_dirs(), 0);

    validation.existing_dirs.push("/valid".to_string());
    validation.missing_dirs.push("/invalid".to_string());
    assert_eq!(validation.total_dirs(), 2);
}

#[test]
fn add_path_files_each_directory_on_its_side() {
    let mut validation = PathValidation::new();
    validation.add_path("/a".to_string(), true);
    validation.add_path("/b".to_string(), false);
    validation.add_path("/c".to_string(), true);
    assert_eq!(validation.existing_dirs, vec!["/a".to_string(), "/c".to_string()]);
    assert_eq!(validation.missing_dirs, vec!["/b".to_string()]);
    assert_eq!(validation.total_dirs(), 3);
}

#[test]
fn validate_entries_passes_over_empty_names() {
    let dirs = vec![
        "/usr/bin".to_string(),
        "".to_string(),
        "/gone".to_string(),
        "/bin".to_string(),
    ];
    let exists = vec![true, true, false, true];
    let validation = validate_entries(&dirs, &exists);
    assert_eq!(
        validation.existing_dirs,
        vec!["/usr/bin".to_string(), "/bin".to_string()]
    );
    assert_eq!(validation.missing_dirs, vec!["/gone".to_string()]);
}

#[test]
fn validate_entries_of_nothing_is_empty() {
    let validation = validate_entries(&Vec::new(), &Vec::new());
    assert_eq!(validation.total_dirs(), 0);
}
