use pathmaster::utils::shell::handlers::{
    BashHandler, GenericHandler, ShellHandler, TcshHandler,
};
use std::path::Path;

#[test]
fn test_bash_path_parsing() {
    let handler = BashHandler::new();
    let content = r#"
# Some config
export PATH="/usr/bin:/usr/local/bin"
PATH=$PATH:~/bin
"#;

    let entries = handler.parse_path_entries(content);
    assert_eq!(entries.len(), 3);
    assert!(entries.iter().any(|p| Path::new(p).ends_with("usr/bin")));
    assert!(entries.iter().any(|p| Path::new(p).ends_with("usr/local/bin")));
}

#[test]
fn test_bash_path_formatting() {
    let handler = BashHandler::new();
    let entries = vec!["/usr/bin".to_string(), "/usr/local/bin".to_string()];

    let formatted = handler.format_path_export(&entries);
    assert!(formatted.contains("export PATH=\""));
    assert!(formatted.contains("/usr/bin:/usr/local/bin"));
}

#[test]
fn test_generic_path_parsing() {
    let handler = GenericHandler::new();
    let content = r#"
# Some config
PATH=/usr/bin:/usr/local/bin
export PATH=/usr/bin:/home/user/bin
"#;

    let entries = handler.parse_path_entries(content);
    assert_eq!(entries.len(), 2);
    assert!(entries.iter().any(|p| Path::new(p).ends_with("usr/bin")));
    assert!(entries.iter().any(|p| Path::new(p).ends_with("home/user/bin")));
}

#[test]
fn test_tcsh_path_parsing() {
    let handler = TcshHandler::new();
    let content = r#"
# Some config
setenv PATH /usr/bin:/usr/local/bin
set path = (/usr/bin /usr/local/bin ~/bin)
"#;

    let entries = handler.parse_path_entries(content);
    assert_eq!(entries.len(), 5); // 2 from setenv + 3 from set path
    assert!(entries.iter().any(|p| Path::new(p).ends_with("usr/bin")));
    assert!(entries.iter().any(|p| Path::new(p).ends_with("usr/local/bin")));
}

#[test]
fn test_tcsh_path_formatting() {
    let handler = TcshHandler::new();
    let entries = vec!["/usr/bin".to_string(), "/usr/local/bin".to_string()];

    let formatted = handler.format_path_export(&entries);
    assert!(formatted.contains("set path = ("));
    assert!(formatted.contains("setenv PATH"));
}

#[test]
fn test_bash_in_place_update() {
    let handler = BashHandler::new();

    let content = r#"
# Header comment
# Some other configuration
export EDITOR=vim

# PATH configuration
export PATH="/usr/bin:/old/path"

# More configuration below
alias ls='ls --color=auto'
"#;

    let new_entries = vec!["/usr/bin".to_string(), "/usr/local/bin".to_string()];
    let updated_content = handler.update_path_in_config(content, &new_entries);

    // Verify the PATH was updated in-place
    let lines: Vec<&str> = updated_content.lines().collect();

    // Find where the PATH declaration is in the updated content
    let mut path_line_index = 0;
    for (i, line) in lines.iter().enumerate() {
        if line.contains("export PATH=") && !line.contains("DISABLED") {
            path_line_index = i;
            break;
        }
    }

    // The comment of the writer stands where the statement stood, at index
    // 6, and the assignment on the line behind it
    assert!(lines[6].starts_with("# Updated by pathmaster on "));
    assert_eq!(path_line_index, 7, "PATH should remain at the same position");
    assert_eq!(lines[7], "export PATH=\"/usr/bin:/usr/local/bin\"");

    // Check that PATH is still between the EDITOR and alias lines
    let editor_line_index = lines
        .iter()
        .position(|&line| line.contains("export EDITOR="))
        .unwrap();
    let alias_line_index = lines
        .iter()
        .position(|&line| line.contains("alias ls="))
        .unwrap();

    assert!(
        editor_line_index < path_line_index,
        "PATH should be after EDITOR line"
    );
    assert!(
        path_line_index < alias_line_index,
        "PATH should be before alias line"
    );

    // Check content
    assert!(!updated_content.contains("/old/path"));
    assert!(updated_content.contains("/usr/bin"));
    assert!(updated_content.contains("/usr/local/bin"));
    assert!(updated_content.contains("# Updated by pathmaster on"));
    assert_eq!(lines.len(), 11);
    assert!(updated_content.ends_with("alias ls='ls --color=auto'\n"));
}
