//! The lines of startup files that mention `PATH`, and a report of them.

use vstd::prelude::*;
use crate::text::{
    chars_of, contains, contains_text, copy_row, decimal, push_all, rows, shown_lines,
    split_shown_lines, string_of, trim, trimmed, write_decimal,
};

verus! {

/// A line that mentions `PATH`, and where it stands.
#[derive(Debug)]
pub struct PathLocation {
    /// The path of the file.
    pub file: String,
    /// The number of the line, counted from 1.
    pub line_number: usize,
    /// The line.
    pub content: String,
    /// Whether the file belongs to the system, so that only the
    /// administrator can change it.
    pub requires_sudo: bool,
}

/// What is known of a line that mentions `PATH`.
pub struct Finding {
    pub file: Seq<char>,
    pub line_number: int,
    pub content: Seq<char>,
    pub requires_sudo: bool,
}

impl View for PathLocation {
    type V = Finding;

    open spec fn view(&self) -> Finding {
        Finding {
            file: self.file@,
            line_number: self.line_number as int,
            content: self.content@,
            requires_sudo: self.requires_sudo,
        }
    }
}

/// The findings of a vector, each by its view.
pub open spec fn findings(v: Seq<PathLocation>) -> Seq<Finding> {
    Seq::new(v.len(), |i: int| v[i]@)
}

/// Whether `line` mentions `PATH` in one of the ways shells set it:
/// `PATH=`, `export PATH`, `setenv PATH` or `path+=`.
pub open spec fn mentions_path(line: Seq<char>) -> bool {
    contains_text(line, "PATH="@) || contains_text(line, "export PATH"@) || contains_text(
        line,
        "setenv PATH"@,
    ) || contains_text(line, "path+="@)
}

/// The findings in the first `n` lines of `ls`, the lines of the file
/// `file`.
pub open spec fn found_in(file: Seq<char>, ls: Seq<Seq<char>>, sudo: bool, n: int) -> Seq<Finding>
    decreases n,
{
    if n <= 0 {
        Seq::empty()
    } else if mentions_path(ls[n - 1]) {
        found_in(file, ls, sudo, n - 1).push(
            Finding { file, line_number: n, content: ls[n - 1], requires_sudo: sudo },
        )
    } else {
        found_in(file, ls, sudo, n - 1)
    }
}

/// The report of `locs`: under one heading the lines of system files, under
/// another those of the user's files.
pub open spec fn formatted(locs: Seq<Finding>) -> Seq<char> {
    "System-level files (requires sudo):\n"@ + report_lines(locs, true) + "\nUser-level files:\n"@
        + report_lines(locs, false)
}

/// The line of the report for `loc`: file, line number and the line without
/// the white space round it.
pub open spec fn report_line(loc: Finding) -> Seq<char> {
    loc.file + seq![':'] + decimal(loc.line_number as nat) + " - "@ + trimmed(loc.content) + seq![
        '\n',
    ]
}

/// The lines of the report for those of `locs` whose files belong to the
/// system, or for the others.
pub open spec fn report_lines(locs: Seq<Finding>, sudo: bool) -> Seq<char>
    decreases locs.len(),
{
    if locs.len() == 0 {
        Seq::empty()
    } else if locs.last().requires_sudo == sudo {
        report_lines(locs.drop_last(), sudo) + report_line(locs.last())
    } else {
        report_lines(locs.drop_last(), sudo)
    }
}

/// The ways in which a line can mention `PATH`.
pub open spec fn known_patterns() -> Seq<Seq<char>> {
    seq!["PATH="@, "export PATH"@, "setenv PATH"@, "path+="@]
}

/// Finds the lines that mention `PATH`.
pub struct PathScanner {
    patterns: Vec<Vec<char>>,
}

impl PathScanner {
    /// Whether this scanner looks for the known patterns.
    pub closed spec fn ready(&self) -> bool {
        rows(self.patterns@) == known_patterns()
    }

    /// A scanner for the known patterns.
    pub fn new() -> (scanner: Self)
        ensures
            scanner.ready(),
    {
        let mut patterns: Vec<Vec<char>> = Vec::new();
        patterns.push(chars_of("PATH="));
        patterns.push(chars_of("export PATH"));
        patterns.push(chars_of("setenv PATH"));
        patterns.push(chars_of("path+="));
        assert(rows(patterns@) =~= known_patterns());
        PathScanner { patterns }
    }

    /// Whether `line` mentions `PATH`.
    pub fn is_match(&self, line: &Vec<char>) -> (b: bool)
        requires
            self.ready(),
        ensures
            b == mentions_path(line@),
    {
        let ghost known = rows(self.patterns@);
        assert(known.len() == 4);
        assert(known[0] == "PATH="@ && known[1] == "export PATH"@ && known[2] == "setenv PATH"@
            && known[3] == "path+="@);
        contains(line, &self.patterns[0]) || contains(line, &self.patterns[1]) || contains(
            line,
            &self.patterns[2],
        ) || contains(line, &self.patterns[3])
    }

    /// The lines of `content`, the text of the file `file`, that mention
    /// `PATH`, in order, each as it is shown: without the carriage return
    /// of its line end.
    pub fn scan_text(&self, file: &str, content: &str, requires_sudo: bool) -> (out: Vec<
        PathLocation,
    >)
        requires
            self.ready(),
        ensures
            findings(out@) == found_in(
                file@,
                shown_lines(content@),
                requires_sudo,
                shown_lines(content@).len() as int,
            ),
    {
        let text = chars_of(content);
        let lines = split_shown_lines(&text);
        let name = chars_of(file);
        let ghost ls = rows(lines@);
        let mut out: Vec<PathLocation> = Vec::new();
        let mut i: usize = 0;
        assert(findings(out@) =~= found_in(file@, ls, requires_sudo, 0));
        while i < lines.len()
            invariant
                i <= lines.len(),
                ls == rows(lines@),
                name@ == file@,
                self.ready(),
                findings(out@) == found_in(file@, ls, requires_sudo, i as int),
            decreases lines.len() - i,
        {
            if self.is_match(&lines[i]) {
                let found = PathLocation {
                    file: string_of(&name),
                    line_number: i + 1,
                    content: string_of(&copy_row(&lines, i)),
                    requires_sudo,
                };
                let ghost before = findings(out@);
                out.push(found);
                assert(findings(out@) =~= before.push(found@));
            }
            i += 1;
        }
        out
    }
}

/// Appends to `out` the lines of the report for those of `locations` whose
/// files belong to the system, or for the others.
fn push_report_lines(out: &mut Vec<char>, locations: &[PathLocation], sudo: bool)
    ensures
        final(out)@ == old(out)@ + report_lines(findings(locations@), sudo),
{
    let ghost all = findings(locations@);
    let mut i: usize = 0;
    assert(all.take(0) =~= Seq::<Finding>::empty());
    assert(out@ =~= old(out)@ + report_lines(all.take(0), sudo));
    while i < locations.len()
        invariant
            i <= locations.len(),
            all == findings(locations@),
            out@ == old(out)@ + report_lines(all.take(i as int), sudo),
        decreases locations.len() - i,
    {
        let loc = &locations[i];
        proof {
            assert(all.take(i + 1).drop_last() =~= all.take(i as int));
            assert(all.take(i + 1).last() == loc@);
        }
        if loc.requires_sudo == sudo {
            let ghost before = out@;
            push_all(out, &chars_of(loc.file.as_str()));
            out.push(':');
            push_all(out, &write_decimal(loc.line_number));
            push_all(out, &chars_of(" - "));
            push_all(out, &trim(&chars_of(loc.content.as_str())));
            out.push('\n');
            assert(out@ =~= before + report_line(loc@));
            assert(out@ =~= old(out)@ + report_lines(all.take(i + 1), sudo));
        }
        i += 1;
    }
    assert(all.take(locations.len() as int) =~= all);
}

/// The report of `locations`: under one heading the lines of system files,
/// under another those of the user's files, each with its file, its number
/// and its text without the white space round it.
pub fn format_results(locations: &[PathLocation]) -> (out: String)
    ensures
        out@ == formatted(findings(locations@)),
{
    let mut out = chars_of("System-level files (requires sudo):\n");
    push_report_lines(&mut out, locations, true);
    push_all(&mut out, &chars_of("\nUser-level files:\n"));
    push_report_lines(&mut out, locations, false);
    string_of(&out)
}

} // verus!
