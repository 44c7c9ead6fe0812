use pathmaster::text::chars_of;
use pathmaster::utils::path_scanner::PathScanner;
use pathmaster::utils::shell::handlers::{bash, fish, tcsh, zsh};
use regex::Regex;

const LINES: [&str; 40] = [
    "",
    " ",
    "# a comment",
    "export PATH=/usr/bin",
    "export PATH=\"/usr/bin:/usr/local/bin\"",
    "  export   PATH='/a'  ",
    "export\tPATH=/a",
    "exportPATH=/a",
    "export PATHS=/a",
    "export MANPATH=/a",
    "export PATH",
    "PATH=$PATH:/a",
    "PATH=\"$PATH:/a\"",
    "PATH=/a:$PATH",
    "  PATH=$PATH:~/bin # more",
    "MYPATH=$PATH:/a",
    "# export PATH=/commented",
    "if true; then export PATH=/x; fi",
    "alias p='echo $PATH'",
    "fish_add_path /a",
    "  fish_add_path   ~/b  ",
    "fish_add_path",
    "# fish_add_path /c",
    "set -gx PATH /a $PATH",
    "set -gx  PATH /a",
    "set -e PATH",
    "set -x PATH /a",
    "setenv PATH /a:/b",
    "setenv   PATH /a",
    "setenvPATH /a",
    "setenv PATHX /a",
    "setenv EDITOR vi",
    "set path = (/a /b)",
    "set path=(/a)",
    "set  path  = ( /a )",
    "set paths = (/a)",
    "set mypath = (/a)",
    "path+=('/home/user/bin')",
    "path=(/a /b)",
    "# Updated by pathmaster on 2024-03-21 12:00:00",
];

#[test]
fn bash_statements_are_what_the_pattern_matches() {
    let pattern = Regex::new(r"(export\s+PATH=|PATH=\$PATH:)").unwrap();
    for line in LINES {
        assert_eq!(
            bash::is_declaration(&chars_of(line)),
            pattern.is_match(line),
            "{:?}",
            line
        );
    }
}

#[test]
fn fish_statements_are_what_the_pattern_matches() {
    let pattern = Regex::new(r"(fish_add_path|set -gx PATH)").unwrap();
    for line in LINES {
        assert_eq!(
            fish::is_declaration(&chars_of(line)),
            pattern.is_match(line),
            "{:?}",
            line
        );
    }
}

#[test]
fn tcsh_statements_are_what_the_pattern_matches() {
    let pattern = Regex::new(r"(setenv\s+PATH|set\s+path\s*=)").unwrap();
    for line in LINES {
        assert_eq!(
            tcsh::is_declaration(&chars_of(line)),
            pattern.is_match(line),
            "{:?}",
            line
        );
    }
}

#[test]
fn zsh_exports_are_what_the_pattern_matches() {
    let pattern = Regex::new(r"export PATH=").unwrap();
    for line in LINES {
        let lines = vec![chars_of(line)];
        let is_array = line.trim().starts_with("path=(") || line.trim().starts_with("path+=(");
        if !is_array {
            assert_eq!(
                zsh::span_at(&lines, 0) == 1,
                pattern.is_match(line),
                "{:?}",
                line
            );
        }
    }
}

#[test]
fn scanner_marks_what_the_pattern_matches() {
    let pattern = Regex::new(r"(PATH=|export PATH|setenv PATH|path\+=)").unwrap();
    let scanner = PathScanner::new();
    for line in LINES {
        assert_eq!(
            scanner.is_match(&chars_of(line)),
            pattern.is_match(line),
            "{:?}",
            line
        );
    }
}

#[test]
fn bash_values_are_what_the_pattern_captures() {
    let pattern = Regex::new(r#"export\s+PATH=["']?([^"']+)["']?"#).unwrap();
    for line in [
        "export PATH=/usr/bin",
        "export PATH=\"/usr/bin:/usr/local/bin\"",
        "export PATH='/a:/b'",
        "export   PATH=/a:/b:/c",
        "if true; then export PATH=\"/x:/y\"; fi",
        "export PATH=\"$HOME/bin:$PATH\"",
    ] {
        let captured = pattern.captures(line.trim()).unwrap().get(1).unwrap().as_str();
        let expected: Vec<String> = captured.split(':').map(|p| p.to_string()).collect();
        let found: Vec<String> = bash::entries_of_line(&chars_of(line))
            .iter()
            .map(|e| e.iter().collect())
            .collect();
        assert_eq!(found, expected, "{:?}", line);
    }
}
