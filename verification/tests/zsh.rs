use pathmaster::utils::shell::handlers::{ShellHandler, ZshHandler};
use std::path::Path;

#[test]
fn test_zsh_path_parsing() {
    let handler = ZshHandler::new();

    let content = r#"
# Some config
path=(/usr/bin /usr/local/bin ~/bin)
# Other config
"#;

    let entries = handler.parse_path_entries(content);
    assert_eq!(entries.len(), 3);
    assert!(entries.iter().any(|p| Path::new(p).ends_with("usr/bin")));
    assert!(entries.iter().any(|p| Path::new(p).ends_with("usr/local/bin")));
}

#[test]
fn test_zsh_multiline_path_parsing() {
    let handler = ZshHandler::new();

    let content = r#"
# Some config
path+=(
  "$HOME/bin"
  "$HOME/.local/bin"
  "/usr/local/bin"
)
# Other config
"#;

    let entries = handler.parse_path_entries(content);
    assert_eq!(entries.len(), 3);
    assert!(entries.iter().any(|p| p.contains("bin")));
    assert!(entries.iter().any(|p| p.contains(".local/bin")));
    assert!(entries.iter().any(|p| p.contains("/usr/local/bin")));
}

#[test]
fn test_zsh_path_formatting() {
    let handler = ZshHandler::new();
    let entries = vec!["/usr/bin".to_string(), "/usr/local/bin".to_string()];

    let formatted = handler.format_path_export(&entries);
    assert!(formatted.contains("path+=("));
    assert!(formatted.contains("export PATH"));
    assert!(formatted.contains("/usr/bin"));
    assert!(formatted.contains("/usr/local/bin"));
    // Check for multi-line format
    assert!(formatted.contains("\n"));
}

#[test]
fn test_zsh_in_place_update() {
    let handler = ZshHandler::new();

    let content = r#"
# ZSH configuration
setopt AUTO_CD

# Shell options
HISTSIZE=1000
SAVEHIST=1000

# Path configuration
path=(/usr/bin /old/path /usr/sbin) && export PATH

# Aliases
alias ls='ls --color=auto'
"#;

    let new_entries = vec!["/usr/bin".to_string(), "/usr/local/bin".to_string()];
    let updated_content = handler.update_path_in_config(content, &new_entries);

    // Verify that the original non-path content is preserved
    assert!(updated_content.contains("# ZSH configuration"));
    assert!(updated_content.contains("setopt AUTO_CD"));
    assert!(updated_content.contains("HISTSIZE=1000"));

    // Verify that original path= declarations are removed
    assert!(
        !updated_content.contains("path=(/usr/bin /old/path /usr/sbin)"),
        "Original path declaration should be removed"
    );

    // Verify our new path+=() declaration is added
    assert!(
        updated_content.contains("path+=("),
        "New path+=() declaration should be added"
    );

    // Check that PATH declarations come before aliases
    let lines: Vec<&str> = updated_content.lines().collect();
    let new_path_index = lines
        .iter()
        .position(|&line| line.contains("path+=("))
        .unwrap();
    let alias_index = lines
        .iter()
        .position(|&line| line.contains("alias ls='ls --color=auto'"))
        .unwrap();

    // Check that the new path declaration is before the aliases
    assert!(
        new_path_index < alias_index,
        "PATH declarations should be before aliases"
    );

    // Check content
    assert!(updated_content.contains("/usr/bin"));
    assert!(updated_content.contains("/usr/local/bin"));
    assert!(updated_content.contains("# Updated by pathmaster on"));

    // Check that the new path+=() is inserted at the position of the original path
    // First find where the Path configuration comment is
    let path_comment_idx = lines
        .iter()
        .position(|&line| line.contains("# Path configuration"))
        .unwrap();

    // Ensure the new path+=( is close to this comment
    assert!(
        new_path_index - path_comment_idx <= 2,
        "New path declaration should be near the Path configuration comment"
    );
}

#[test]
fn test_preserve_first_line() {
    let handler = ZshHandler::new();

    // This specifically tests for the bug where the first line would be missing
    let content = r#"export ZSH="$HOME/.oh-my-zsh"

# Initialize the path array with unique entries
typeset -U path

# Append directories to the path array
path+=(
  "$HOME/Applications"
  "$HOME/bin"
)

# Export PATH from path array
export PATH"#;

    let new_entries = vec!["/usr/bin".to_string(), "/usr/local/bin".to_string()];
    let updated_content = handler.update_path_in_config(content, &new_entries);

    // The first line should still be there
    let first_line = updated_content.lines().next().unwrap();
    assert!(
        first_line.contains("export ZSH="),
        "First line should be preserved"
    );

    // The original path+=() block should be removed
    assert!(
        !updated_content.contains("$HOME/Applications"),
        "Original path entries should be removed"
    );

    // Our new path+=() should be added
    assert!(updated_content.contains("/usr/bin"));
    assert!(updated_content.contains("/usr/local/bin"));

    // Verify that the typeset -U path line is preserved
    assert!(
        updated_content.contains("typeset -U path"),
        "The typeset line should be preserved"
    );
}

#[test]
fn test_multiline_path_structure_preservation() {
    let handler = ZshHandler::new();

    // This tests handling of multi-line path+= structure
    let content = r#"# Initialize the path array with unique entries
typeset -U path

# Append directories to the path array
path+=(
  "$HOME/Applications"
  "$HOME/Applications/bin"
  "$HOME/Applications/scripts"
  "$HOME/.local/bin"
)

# Export PATH from path array
export PATH"#;

    let new_entries = vec!["/usr/bin".to_string(), "/usr/local/bin".to_string()];
    let updated_content = handler.update_path_in_config(content, &new_entries);

    // The structural elements should be preserved
    assert!(
        updated_content.contains("typeset -U path"),
        "typeset -U path should be preserved"
    );
    assert!(
        updated_content.contains("# Append directories to the path array"),
        "Comments should be preserved"
    );

    // The original path+= block should be removed
    assert!(
        !updated_content.contains("$HOME/Applications"),
        "Original path entries should be removed"
    );
    assert!(
        !updated_content.contains("$HOME/Applications/bin"),
        "Original path entries should be removed"
    );

    // Verify new content has our export PATH line
    assert!(
        updated_content.contains("# Export PATH from path array\nexport PATH"),
        "Should contain our formatted export PATH line"
    );

    // Verify that our update contains the new paths
    assert!(
        updated_content.contains("/usr/bin"),
        "New path entries should be added"
    );
    assert!(
        updated_content.contains("/usr/local/bin"),
        "New path entries should be added"
    );

    // Verify multi-line format
    assert!(
        updated_content.contains("path+=("),
        "Should use path+=( format"
    );

    // Verify that the new path+= is inserted at the position of the original one
    let lines: Vec<&str> = updated_content.lines().collect();
    let path_comment_idx = lines
        .iter()
        .position(|&line| line.contains("# Append directories to the path array"))
        .unwrap();
    let new_path_idx = lines
        .iter()
        .position(|&line| line.contains("path+=("))
        .unwrap();

    assert_eq!(
        path_comment_idx + 1,
        new_path_idx,
        "New path+=( should be right after the comment"
    );
}

#[test]
fn test_real_world_oh_my_zsh_config() {
    let handler = ZshHandler::new();

    // This simulates a real .zshrc from oh-my-zsh
    let content = r#"export ZSH="$HOME/.oh-my-zsh"

# Initialize the path array with unique entries
typeset -U path

# Append directories to the path array
path+=(
  "$HOME/Applications"
  "$HOME/Applications/bin"
  "$HOME/Applications/scripts"
  "$HOME/.local/bin"
)

# Ensure unique path entries
typeset -U path

# Export PATH from path array
export PATH

# Set oh-my-zsh update mode
zstyle ':omz:update' mode auto # update automatically without asking"#;

    let new_entries = vec![
        "/usr/bin".to_string(),
        "/usr/local/bin".to_string(),
        "/usr/local/sbin".to_string(),
    ];

    let updated_content = handler.update_path_in_config(content, &new_entries);

    // Test for first line preservation
    let first_line = updated_content.lines().next().unwrap();
    assert_eq!(
        first_line, "export ZSH=\"$HOME/.oh-my-zsh\"",
        "First line should be exactly preserved"
    );

    // Test that original path+= sections are removed
    assert!(
        !updated_content.contains("$HOME/Applications"),
        "Original path entries should be removed"
    );
    assert!(
        !updated_content.contains("$HOME/Applications/bin"),
        "Original path entries should be removed"
    );

    // Test for our new path+=() section with proper multi-line format
    assert!(updated_content.contains("\"/usr/bin\""));
    assert!(updated_content.contains("\"/usr/local/bin\""));
    assert!(updated_content.contains("\"/usr/local/sbin\""));

    // Verify new content has our export PATH line
    assert!(
        updated_content.contains("# Export PATH from path array\nexport PATH"),
        "Should contain our export PATH line"
    );

    // Test that all other non-path sections are preserved
    assert!(
        updated_content.contains("zstyle ':omz:update' mode auto"),
        "Content after PATH sections should be preserved"
    );

    // Test that typeset -U path lines are preserved
    assert!(
        updated_content.contains("typeset -U path"),
        "typeset -U path line should be preserved"
    );

    // Verify that the new path+= block is inserted in the right place
    let lines: Vec<&str> = updated_content.lines().collect();
    let path_comment_idx = lines
        .iter()
        .position(|&line| line.contains("# Append directories to the path array"))
        .unwrap();
    let new_path_idx = lines
        .iter()
        .position(|&line| line.contains("path+=("))
        .unwrap();

    assert!(
        new_path_idx > path_comment_idx && new_path_idx <= path_comment_idx + 2,
        "New path+=( should be near the path comment"
    );
}
