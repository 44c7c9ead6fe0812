use pathmaster::utils::shell::rewrite::{
    extract_entries, locate_declarations, render_declaration, rewrite,
};
use pathmaster::utils::shell::types::{ModificationType, ShellType};

const STAMP: &str = "2024-03-21 12:00:00";
const NOTE: &str = "# Updated by pathmaster on 2024-03-21 12:00:00";

fn dirs(names: &[&str]) -> Vec<String> {
    names.iter().map(|n| n.to_string()).collect()
}

#[test]
fn anchor_stays_between_its_neighbours() {
    let out = rewrite(
        ShellType::Zsh,
        "A\nB\npath=(/x /y)\nC\nD\n",
        &dirs(&["/usr/bin"]),
        STAMP,
    );
    assert_eq!(
        out,
        format!("A\nB\npath+=(\n  \"/usr/bin\"\n)\nexport PATH\n{}\nC\nD\n", NOTE)
    );
}

#[test]
fn text_without_a_statement_gets_one_at_its_end() {
    let out = rewrite(
        ShellType::Bash,
        "# just comments\n",
        &dirs(&["/usr/bin", "/usr/local/bin"]),
        STAMP,
    );
    assert_eq!(
        out,
        format!(
            "# just comments\n{}\nexport PATH=\"/usr/bin:/usr/local/bin\"\n",
            NOTE
        )
    );
}

#[test]
fn text_without_final_newline_gets_a_separator_and_stays_open() {
    let out = rewrite(ShellType::Bash, "alias a=b", &dirs(&["/x"]), STAMP);
    assert_eq!(out, format!("alias a=b\n{}\nexport PATH=\"/x\"", NOTE));
}

#[test]
fn empty_text_gets_the_statement_behind_a_line_break() {
    let out = rewrite(ShellType::Bash, "", &dirs(&["/x"]), STAMP);
    assert_eq!(out, format!("\n{}\nexport PATH=\"/x\"", NOTE));
    let again = rewrite(ShellType::Bash, &out, &dirs(&["/y"]), STAMP);
    assert_eq!(again, format!("\n{}\n{}\nexport PATH=\"/y\"", NOTE, NOTE));
}

#[test]
fn text_of_one_line_break_keeps_its_empty_line() {
    let out = rewrite(ShellType::Bash, "\n", &dirs(&["/x"]), STAMP);
    assert_eq!(out, format!("\n{}\nexport PATH=\"/x\"\n", NOTE));
}

#[test]
fn stale_statements_collapse_to_one() {
    let content = "export PATH=/a\nfoo\nexport PATH=/b\nbar\nPATH=$PATH:/c\n";
    let out = rewrite(ShellType::Bash, content, &dirs(&["/x", "/y"]), STAMP);
    assert_eq!(out, format!("{}\nexport PATH=\"/x:/y\"\nfoo\nbar\n", NOTE));
    let found = locate_declarations(ShellType::Bash, &out);
    assert_eq!(found.len(), 1);
    assert_eq!(found[0].line_number, 2);
    assert_eq!(found[0].content, "export PATH=\"/x:/y\"");
    assert_eq!(found[0].modification_type, ModificationType::Assignment);
}

#[test]
fn empty_list_gives_an_empty_value() {
    assert_eq!(
        render_declaration(ShellType::Bash, &[], STAMP),
        format!("{}\nexport PATH=\"\"", NOTE)
    );
    assert_eq!(
        render_declaration(ShellType::Ksh, &[], STAMP),
        format!("{}\nexport PATH=\"\"", NOTE)
    );
    assert_eq!(
        render_declaration(ShellType::Generic, &[], STAMP),
        format!("{}\nexport PATH=\"\"", NOTE)
    );
    assert_eq!(
        render_declaration(ShellType::Zsh, &[], STAMP),
        format!("path+=(\n)\nexport PATH\n{}", NOTE)
    );
    assert_eq!(
        render_declaration(ShellType::Fish, &[], STAMP),
        format!("{}\nset -e PATH", NOTE)
    );
    assert_eq!(
        render_declaration(ShellType::Tcsh, &[], STAMP),
        format!("{}\nset path = ()\nsetenv PATH ", NOTE)
    );
    for shell in [
        ShellType::Bash,
        ShellType::Zsh,
        ShellType::Fish,
        ShellType::Tcsh,
    ] {
        let text = render_declaration(shell, &[], STAMP);
        assert_eq!(extract_entries(shell, &text), Vec::<String>::new());
    }
}

#[test]
fn rendering_in_each_syntax() {
    let e = dirs(&["/usr/bin", "/usr/local/bin"]);
    assert_eq!(
        render_declaration(ShellType::Bash, &e, STAMP),
        format!("{}\nexport PATH=\"/usr/bin:/usr/local/bin\"", NOTE)
    );
    assert_eq!(
        render_declaration(ShellType::Zsh, &e, STAMP),
        format!(
            "path+=(\n  \"/usr/bin\"\n  \"/usr/local/bin\"\n)\nexport PATH\n{}",
            NOTE
        )
    );
    assert_eq!(
        render_declaration(ShellType::Fish, &e, STAMP),
        format!(
            "{}\nset -e PATH\nfish_add_path /usr/bin\nfish_add_path /usr/local/bin",
            NOTE
        )
    );
    assert_eq!(
        render_declaration(ShellType::Tcsh, &e, STAMP),
        format!(
            "{}\nset path = (/usr/bin /usr/local/bin)\nsetenv PATH /usr/bin:/usr/local/bin",
            NOTE
        )
    );
}

#[test]
fn what_is_written_is_read_back() {
    let e = dirs(&["/usr/bin", "/opt/my-tools/bin", "$HOME/.cargo/bin"]);
    for shell in [
        ShellType::Bash,
        ShellType::Ksh,
        ShellType::Generic,
        ShellType::Zsh,
        ShellType::Fish,
        ShellType::Tcsh,
    ] {
        let text = render_declaration(shell, &e, STAMP);
        assert_eq!(extract_entries(shell, &text), e);
    }
}

#[test]
fn rewriting_twice_names_the_directories_once() {
    let e = dirs(&["/a", "/b"]);
    let contents = [
        (ShellType::Bash, "# c\nexport PATH=\"/old:/older\"\nPATH=$PATH:/more\nalias x=y\n"),
        (ShellType::Zsh, "# c\npath=(/old /older)\nexport PATH=\"/z:$PATH\"\npath+=(\n  \"/q\"\n)\nalias x=y"),
        (ShellType::Fish, "fish_add_path /old\nset -gx PATH /a $PATH\nalias x=y\n"),
        (ShellType::Tcsh, "setenv PATH /old\nset path = (/old /older)\n"),
        (ShellType::Generic, ""),
    ];
    for (shell, content) in contents {
        let once = rewrite(shell, content, &e, STAMP);
        assert_eq!(extract_entries(shell, &once), e);
        let twice = rewrite(shell, &once, &e, "2025-01-01 08:30:00");
        assert_eq!(extract_entries(shell, &twice), e);
    }
}

#[test]
fn other_lines_are_kept_verbatim_and_in_order() {
    let content = "#!/bin/sh\n\n  indented  \nexport PATH=/a\n\texport EDITOR=vi\nPATH=$PATH:/b\n# end\n";
    let out = rewrite(ShellType::Generic, content, &dirs(&["/x"]), STAMP);
    let kept: Vec<&str> = out
        .lines()
        .filter(|l| *l != NOTE && *l != "export PATH=\"/x\"")
        .collect();
    assert_eq!(
        kept,
        vec!["#!/bin/sh", "", "  indented  ", "\texport EDITOR=vi", "# end"]
    );
    assert_eq!(
        out,
        format!(
            "#!/bin/sh\n\n  indented  \n{}\nexport PATH=\"/x\"\n\texport EDITOR=vi\n# end\n",
            NOTE
        )
    );
}

#[test]
fn carriage_returns_stay_with_their_lines() {
    let out = rewrite(
        ShellType::Bash,
        "a\r\nexport PATH=/o\r\nb\r\n",
        &dirs(&["/x"]),
        STAMP,
    );
    assert_eq!(out, format!("a\r\n{}\nexport PATH=\"/x\"\nb\r\n", NOTE));
}

#[test]
fn a_removed_last_line_leaves_the_empty_line_before_it() {
    let out = rewrite(
        ShellType::Bash,
        "export PATH=/a\n\nexport PATH=/b",
        &dirs(&["/x"]),
        STAMP,
    );
    assert_eq!(out, format!("{}\nexport PATH=\"/x\"\n\n", NOTE));
    assert_eq!(out.lines().count(), 3);
}

#[test]
fn zsh_block_is_removed_as_one_unit() {
    let content = "a\npath+=(\n  \"/one\"\n  '/two'\n\n   )  \nb\npath+=(/three)\nc\n";
    let found = locate_declarations(ShellType::Zsh, content);
    assert_eq!(found.len(), 2);
    assert_eq!(found[0].line_number, 2);
    assert_eq!(found[0].content, "path+=(\n  \"/one\"\n  '/two'\n\n   )  ");
    assert_eq!(
        found[0].modification_type,
        ModificationType::ArrayModification
    );
    assert_eq!(found[1].line_number, 8);
    assert_eq!(found[1].content, "path+=(/three)");
    assert_eq!(
        extract_entries(ShellType::Zsh, content),
        dirs(&["/one", "/two", "/three"])
    );
    let out = rewrite(ShellType::Zsh, content, &dirs(&["/x"]), STAMP);
    assert_eq!(
        out,
        format!("a\npath+=(\n  \"/x\"\n)\nexport PATH\n{}\nb\nc\n", NOTE)
    );
}

#[test]
fn zsh_block_without_an_end_is_no_statement() {
    let content = "a\nb\npath+=(\n  \"/one\"\n";
    assert_eq!(locate_declarations(ShellType::Zsh, content).len(), 0);
    assert_eq!(
        extract_entries(ShellType::Zsh, content),
        Vec::<String>::new()
    );
    let out = rewrite(ShellType::Zsh, content, &dirs(&["/x"]), STAMP);
    assert!(out.starts_with(content));
}

#[test]
fn zsh_kinds_and_order() {
    // arrays and blocks are found first, exports behind them
    let content = "export PATH=\"/a:/b\"\npath=(/c /d) && export PATH\n";
    let found = locate_declarations(ShellType::Zsh, content);
    assert_eq!(found.len(), 2);
    assert_eq!(found[0].line_number, 2);
    assert_eq!(found[0].content, "path=(/c /d) && export PATH");
    assert_eq!(
        found[0].modification_type,
        ModificationType::ArrayModification
    );
    assert_eq!(found[1].line_number, 1);
    assert_eq!(found[1].content, "export PATH=\"/a:/b\"");
    assert_eq!(found[1].modification_type, ModificationType::Assignment);
    assert_eq!(
        extract_entries(ShellType::Zsh, content),
        dirs(&["/a", "/b", "/c", "/d"])
    );
}

#[test]
fn posix_statements_and_their_kinds() {
    let content = "x\nexport   PATH=/a:/b\n  PATH=$PATH:/c  \nexportPATH=/no\nMYPATH=/no\n# export PATH=/d\n";
    let found = locate_declarations(ShellType::Bash, content);
    assert_eq!(found.len(), 3);
    assert_eq!(found[0].line_number, 2);
    assert_eq!(found[0].modification_type, ModificationType::Assignment);
    assert_eq!(found[1].line_number, 3);
    assert_eq!(found[1].content, "  PATH=$PATH:/c  ");
    assert_eq!(found[1].modification_type, ModificationType::Addition);
    assert_eq!(found[2].line_number, 6);
    assert_eq!(
        extract_entries(ShellType::Bash, content),
        dirs(&["/a", "/b", "/c", "/d"])
    );
}

#[test]
fn empty_values_name_nothing() {
    for content in [
        "export PATH=\n",
        "export PATH=\"\"\n",
        "export PATH=\"   \"\n",
        "export PATH=''\n",
        "export PATH=   \n",
        "PATH=$PATH:\n",
    ] {
        assert_eq!(
            extract_entries(ShellType::Bash, content),
            Vec::<String>::new()
        );
        assert_eq!(locate_declarations(ShellType::Bash, content).len(), 1);
    }
    assert_eq!(
        extract_entries(ShellType::Zsh, "path=()\npath=(   )\n"),
        Vec::<String>::new()
    );
    assert_eq!(
        extract_entries(ShellType::Tcsh, "set path = ()\nsetenv PATH\nsetenv PATH   \n"),
        Vec::<String>::new()
    );
    assert_eq!(
        extract_entries(ShellType::Fish, "fish_add_path\nfish_add_path   \n"),
        Vec::<String>::new()
    );
}

#[test]
fn fish_statements() {
    let content = "# c\nfish_add_path /a\n  fish_add_path   ~/b  \nset -gx PATH /c $PATH\nset -e PATH\n";
    let found = locate_declarations(ShellType::Fish, content);
    assert_eq!(found.len(), 3);
    assert_eq!(found[0].line_number, 2);
    assert_eq!(found[2].line_number, 4);
    assert_eq!(found[2].modification_type, ModificationType::FishPath);
    assert_eq!(
        extract_entries(ShellType::Fish, content),
        dirs(&["/a", "~/b"])
    );
    let out = rewrite(ShellType::Fish, content, &dirs(&["/x", "/y"]), STAMP);
    assert_eq!(
        out,
        format!(
            "# c\n{}\nset -e PATH\nfish_add_path /x\nfish_add_path /y\nset -e PATH\n",
            NOTE
        )
    );
}

#[test]
fn tcsh_statements() {
    let content = "# c\nsetenv PATH /a:/b # old\nset  path=( /c   /d )\nsetenv EDITOR vi\n";
    let found = locate_declarations(ShellType::Tcsh, content);
    assert_eq!(found.len(), 2);
    assert_eq!(found[0].modification_type, ModificationType::SetEnv);
    assert_eq!(
        extract_entries(ShellType::Tcsh, content),
        dirs(&["/a", "/b", "/c", "/d"])
    );
    let out = rewrite(ShellType::Tcsh, content, &dirs(&["/x", "/y"]), STAMP);
    assert_eq!(
        out,
        format!(
            "# c\n{}\nset path = (/x /y)\nsetenv PATH /x:/y\nsetenv EDITOR vi\n",
            NOTE
        )
    );
}

#[test]
fn line_numbers_count_from_one() {
    let found = locate_declarations(ShellType::Bash, "export PATH=/a");
    assert_eq!(found.len(), 1);
    assert_eq!(found[0].line_number, 1);
    assert_eq!(found[0].content, "export PATH=/a");
    assert_eq!(locate_declarations(ShellType::Bash, "").len(), 0);
}

#[test]
fn directories_with_blanks_are_read_back_where_the_syntax_allows() {
    let e = dirs(&["/Applications/My App/bin", "/opt/it's/bin"]);
    let text = render_declaration(ShellType::Zsh, &e, STAMP);
    assert_eq!(extract_entries(ShellType::Zsh, &text), e);
    let text = render_declaration(ShellType::Fish, &e, STAMP);
    assert_eq!(extract_entries(ShellType::Fish, &text), e);
    let e = dirs(&["/Applications/My App/bin", "/usr/bin"]);
    let text = render_declaration(ShellType::Bash, &e, STAMP);
    assert_eq!(extract_entries(ShellType::Bash, &text), e);
}

#[test]
fn a_colon_in_a_directory_splits_it_when_read() {
    let text = render_declaration(ShellType::Bash, &dirs(&["/a:b"]), STAMP);
    assert_eq!(extract_entries(ShellType::Bash, &text), dirs(&["/a", "b"]));
}

#[test]
fn block_and_export_together_give_way_to_one_statement() {
    let content = "# head\npath+=(\n  \"/a\"\n)\nexport PATH=\"/b:$PATH\"\n# tail\n";
    let found = locate_declarations(ShellType::Zsh, content);
    assert_eq!(found.len(), 2);
    assert_eq!(found[0].line_number, 2);
    assert_eq!(found[1].line_number, 5);
    let out = rewrite(ShellType::Zsh, content, &dirs(&["/x"]), STAMP);
    assert_eq!(
        out,
        format!("# head\npath+=(\n  \"/x\"\n)\nexport PATH\n{}\n# tail\n", NOTE)
    );
    assert_eq!(locate_declarations(ShellType::Zsh, &out).len(), 1);
}

#[test]
fn a_line_that_is_array_and_export_counts_as_array() {
    let found = locate_declarations(ShellType::Zsh, "path=(/a) && export PATH=$PATH\n");
    assert_eq!(found.len(), 1);
    assert_eq!(
        found[0].modification_type,
        ModificationType::ArrayModification
    );
    assert_eq!(
        extract_entries(ShellType::Zsh, "path=(/a) && export PATH=$PATH\n"),
        dirs(&["/a"])
    );
}

#[test]
fn arrays_of_other_names_are_left_alone() {
    let content = "fpath=(~/.zfunc $fpath)\nexport MANPATH=/usr/share/man\ntypeset -U path\n";
    assert_eq!(locate_declarations(ShellType::Zsh, content).len(), 0);
    let out = rewrite(ShellType::Zsh, content, &dirs(&["/x"]), STAMP);
    assert!(out.starts_with(content));
}

#[test]
fn an_open_block_before_the_first_statement_takes_the_written_one_in() {
    // the block that line 1 opens is never closed, so it is no statement;
    // once the written block stands behind it, its closing line closes both
    let content = "path+=(\n  \"/lost\"\nexport PATH=/old\n";
    assert_eq!(locate_declarations(ShellType::Zsh, content).len(), 1);
    let out = rewrite(ShellType::Zsh, content, &dirs(&["/x"]), STAMP);
    assert_eq!(
        out,
        format!("path+=(\n  \"/lost\"\npath+=(\n  \"/x\"\n)\nexport PATH\n{}\n", NOTE)
    );
    assert_eq!(
        extract_entries(ShellType::Zsh, &out),
        dirs(&["/lost", "path+=(", "/x"])
    );
}

#[test]
fn line_breaks_in_a_directory_do_not_touch_the_other_lines() {
    let out = rewrite(
        ShellType::Bash,
        "a\nexport PATH=/o\nb\n",
        &dirs(&["/x\n/y"]),
        STAMP,
    );
    assert_eq!(out, format!("a\n{}\nexport PATH=\"/x\n/y\"\nb\n", NOTE));
}

#[test]
fn zsh_arrays_are_found_before_exports() {
    let content = "export PATH=/a\npath=(/b)\nexport PATH=/c\npath+=(\n  /d\n)\n";
    let found = locate_declarations(ShellType::Zsh, content);
    let lines: Vec<usize> = found.iter().map(|m| m.line_number).collect();
    assert_eq!(lines, vec![2, 4, 1, 3]);
    assert_eq!(found[0].content, "path=(/b)");
    assert_eq!(found[1].content, "path+=(\n  /d\n)");
    assert_eq!(found[2].content, "export PATH=/a");
    // the directories are read by line, and the rewrite starts at the
    // earliest line
    assert_eq!(
        extract_entries(ShellType::Zsh, content),
        dirs(&["/a", "/b", "/c", "/d"])
    );
    let out = rewrite(ShellType::Zsh, content, &dirs(&["/x"]), STAMP);
    assert_eq!(
        out,
        format!("path+=(\n  \"/x\"\n)\nexport PATH\n{}\n", NOTE)
    );
}

#[test]
fn statement_text_is_the_line_without_its_carriage_return() {
    let content = "a\r\nexport PATH=/a\r\nPATH=$PATH:/b\r";
    let found = locate_declarations(ShellType::Bash, content);
    assert_eq!(found.len(), 2);
    assert_eq!(found[0].line_number, 2);
    assert_eq!(found[0].content, "export PATH=/a");
    // a last line that no line break ends stands as it is
    assert_eq!(found[1].line_number, 3);
    assert_eq!(found[1].content, "PATH=$PATH:/b\r");
    for (i, m) in found.iter().enumerate() {
        assert_eq!(m.content, content.lines().nth(m.line_number - 1).unwrap(), "{}", i);
    }
    assert_eq!(
        extract_entries(ShellType::Bash, content),
        dirs(&["/a", "/b"])
    );
    let block = "x\r\npath+=(\r\n  \"/a\"\r\n)\r\ny\r\n";
    let found = locate_declarations(ShellType::Zsh, block);
    assert_eq!(found.len(), 1);
    assert_eq!(found[0].content, "path+=(\n  \"/a\"\n)");
}

#[test]
fn what_stands_between_quotes_is_read_as_written() {
    assert_eq!(
        extract_entries(ShellType::Bash, "export PATH=\"/a \"\n"),
        dirs(&["/a "])
    );
    assert_eq!(
        extract_entries(ShellType::Bash, "export PATH=\" /a:/b \"\n"),
        dirs(&[" /a", "/b "])
    );
    // without a closing quote the value ends where the line does
    assert_eq!(
        extract_entries(ShellType::Bash, "export PATH=/a:/b   \n"),
        dirs(&["/a", "/b"])
    );
    let e = dirs(&["/a ", " /b"]);
    let text = render_declaration(ShellType::Generic, &e, STAMP);
    assert_eq!(extract_entries(ShellType::Generic, &text), e);
    let once = rewrite(ShellType::Generic, "export PATH=/o\n", &e, STAMP);
    let twice = rewrite(ShellType::Generic, &once, &e, STAMP);
    assert_eq!(extract_entries(ShellType::Generic, &twice), e);
}

#[test]
fn tcsh_array_and_variable_written_together_are_one_statement() {
    let text = render_declaration(ShellType::Tcsh, &dirs(&["/x", "/y"]), STAMP);
    let found = locate_declarations(ShellType::Tcsh, &text);
    assert_eq!(found.len(), 1);
    assert_eq!(found[0].line_number, 2);
    assert_eq!(found[0].content, "set path = (/x /y)\nsetenv PATH /x:/y");
    assert_eq!(found[0].modification_type, ModificationType::SetEnv);
    assert_eq!(extract_entries(ShellType::Tcsh, &text), dirs(&["/x", "/y"]));
    // other directories, another order or another line between: two statements
    for content in [
        "set path = (/x /y)\nsetenv PATH /x:/z\n",
        "set path = (/x /y)\nsetenv PATH /y:/x\n",
        "set path = (/x /y)\n\nsetenv PATH /x:/y\n",
        "setenv PATH /x:/y\nset path = (/x /y)\n",
    ] {
        assert_eq!(locate_declarations(ShellType::Tcsh, content).len(), 2, "{:?}", content);
        assert_eq!(extract_entries(ShellType::Tcsh, content).len(), 4, "{:?}", content);
    }
    let out = rewrite(
        ShellType::Tcsh,
        "a\nset path = (/o)\nsetenv PATH /o\nb\n",
        &dirs(&["/x"]),
        STAMP,
    );
    assert_eq!(
        out,
        format!("a\n{}\nset path = (/x)\nsetenv PATH /x\nb\n", NOTE)
    );
}
