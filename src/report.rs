//! The report of a finished search, as a sequence of lines.
use vstd::prelude::*;
use crate::scan::{Match, SearchEngine};
use crate::config::Config;
use crate::filter::texts;
use crate::text::{decimal, push_decimal, push_str};

verus! {

/// The texts of `v` with `sep` between each two.
pub open spec fn join_with(v: Seq<Seq<char>>, sep: Seq<char>) -> Seq<char>
    decreases v.len(),
{
    if v.len() == 0 {
        Seq::empty()
    } else if v.len() == 1 {
        v[0]
    } else {
        join_with(v.drop_last(), sep) + sep + v.last()
    }
}

/// The lines that open the report.
pub open spec fn header_lines(c: Config) -> Seq<Seq<char>> {
    seq!["Searching for \""@ + c.search_text@ + "\" in "@ + c.path@ + " and all subfolders..."@]
        + (if c.case_sensitive {
        seq!["Case-sensitive search enabled"@]
    } else {
        Seq::empty()
    }) + seq!["Extensions: "@ + join_with(c.ext_texts(), ", "@), Seq::empty()]
}

/// The report line of each match, in order.
pub open spec fn match_lines(ms: Seq<Match>, show: bool) -> Seq<Seq<char>> {
    ms.map_values(|m: Match| m.format_spec(show))
}

/// The lines that list the matches, or say there are none.
pub open spec fn result_lines(ms: Seq<Match>, files: nat, show: bool) -> Seq<Seq<char>> {
    if ms.len() == 0 {
        seq!["No matches found."@]
    } else {
        seq![
            "Found "@ + decimal(ms.len()) + " matches in "@ + decimal(files) + " files:"@,
            Seq::empty(),
        ] + match_lines(ms, show)
    }
}

/// The summary line, after a blank one.
pub open spec fn summary_lines(matches: nat, files: nat) -> Seq<Seq<char>> {
    seq![
        Seq::empty(),
        "Summary: "@ + decimal(files) + " files searched, "@ + decimal(matches) + " matches found"@,
    ]
}

/// The errors, each indented by two spaces, under a heading; nothing where there are none.
pub open spec fn error_lines(errors: Seq<Seq<char>>) -> Seq<Seq<char>> {
    if errors.len() == 0 {
        Seq::empty()
    } else {
        seq![Seq::empty(), "Errors encountered:"@] + errors.map_values(|e: Seq<char>| "  "@ + e)
    }
}

/// The whole report of a search.
pub open spec fn report_spec(c: Config, ms: Seq<Match>, files: nat, errors: Seq<Seq<char>>) -> Seq<
    Seq<char>,
> {
    header_lines(c) + result_lines(ms, files, c.show_line_content) + summary_lines(ms.len(), files)
        + error_lines(errors)
}

/// `Results have been written to: <path>`
pub open spec fn notice_text(path: Seq<char>) -> Seq<char> {
    "Results have been written to: "@ + path
}

/// The report depends on the search only through the texts of its options,
/// its matches, its count of files and its errors: the same run gives the same bytes.
pub proof fn lemma_report_deterministic(
    c1: Config,
    c2: Config,
    ms: Seq<Match>,
    files: nat,
    errors: Seq<Seq<char>>,
)
    requires
        c1.search_text@ == c2.search_text@,
        c1.path@ == c2.path@,
        c1.ext_texts() == c2.ext_texts(),
        c1.case_sensitive == c2.case_sensitive,
        c1.show_line_content == c2.show_line_content,
    ensures
        report_spec(c1, ms, files, errors) == report_spec(c2, ms, files, errors),
{
    assert(header_lines(c1) =~= header_lines(c2));
}

/// Appends a line to the report.
fn add_line(lines: &mut Vec<String>, s: String)
    ensures
        texts(final(lines)@) == texts(old(lines)@).push(s@),
{
    let ghost before = lines@;
    lines.push(s);
    assert(texts(lines@) =~= texts(before).push(s@));
}

/// A string of the text `t`.
fn owned(t: &str) -> (r: String)
    ensures
        r@ == t@,
{
    let mut out = String::new();
    push_str(&mut out, t);
    out
}

/// The texts of `v` joined with `sep`.
pub fn join_strings(v: &Vec<String>, sep: &str) -> (r: String)
    ensures
        r@ == join_with(texts(v@), sep@),
{
    let mut out = String::new();
    let mut i: usize = 0;
    while i < v.len()
        invariant
            i <= v@.len(),
            out@ == join_with(texts(v@).subrange(0, i as int), sep@),
        decreases v@.len() - i,
    {
        let ghost t = texts(v@);
        assert(t.subrange(0, i + 1).drop_last() =~= t.subrange(0, i as int));
        if i > 0 {
            push_str(&mut out, sep);
        } else {
            assert(out@ =~= Seq::<char>::empty());
        }
        push_str(&mut out, v[i].as_str());
        i += 1;
    }
    assert(texts(v@).subrange(0, v@.len() as int) =~= texts(v@));
    out
}

/// The line that tells where the report went.
pub fn written_notice(path: &str) -> (r: String)
    ensures
        r@ == notice_text(path@),
{
    let mut out = owned("Results have been written to: ");
    push_str(&mut out, path);
    out
}

impl<'a> SearchEngine<'a> {
    /// The report of this search, line by line: header, matches or their
    /// absence, summary, and the errors met.
    pub fn render_report(&self) -> (r: Vec<String>)
        ensures
            texts(r@) == report_spec(
                *self.config,
                self.matches@,
                self.files_searched as nat,
                texts(self.errors@),
            ),
    {
        let c = self.config;
        let mut lines: Vec<String> = Vec::new();
        let mut s = owned("Searching for \"");
        push_str(&mut s, c.search_text.as_str());
        push_str(&mut s, "\" in ");
        push_str(&mut s, c.path.as_str());
        push_str(&mut s, " and all subfolders...");
        add_line(&mut lines, s);
        if c.case_sensitive {
            add_line(&mut lines, owned("Case-sensitive search enabled"));
        }
        let mut s = owned("Extensions: ");
        let joined = join_strings(&c.extensions, ", ");
        push_str(&mut s, joined.as_str());
        add_line(&mut lines, s);
        add_line(&mut lines, String::new());
        assert(texts(lines@) =~= header_lines(*c));
        let ghost head = texts(lines@);
        let m_count = self.matches.len();
        if m_count == 0 {
            add_line(&mut lines, owned("No matches found."));
        } else {
            let mut s = owned("Found ");
            push_decimal(&mut s, m_count);
            push_str(&mut s, " matches in ");
            push_decimal(&mut s, self.files_searched);
            push_str(&mut s, " files:");
            add_line(&mut lines, s);
            add_line(&mut lines, String::new());
            let ghost before = texts(lines@);
            let mut i: usize = 0;
            while i < m_count
                invariant
                    m_count == self.matches@.len(),
                    i <= m_count,
                    texts(lines@) == before + match_lines(self.matches@, c.show_line_content).subrange(
                        0,
                        i as int,
                    ),
                decreases m_count - i,
            {
                let line = self.matches[i].format_output(c);
                add_line(&mut lines, line);
                assert(match_lines(self.matches@, c.show_line_content).subrange(0, i + 1)
                    =~= match_lines(self.matches@, c.show_line_content).subrange(0, i as int).push(
                    line@,
                ));
                i += 1;
            }
            assert(match_lines(self.matches@, c.show_line_content).subrange(0, m_count as int)
                =~= match_lines(self.matches@, c.show_line_content));
        }
        assert(texts(lines@) =~= head + result_lines(
            self.matches@,
            self.files_searched as nat,
            c.show_line_content,
        ));
        let ghost mid = texts(lines@);
        add_line(&mut lines, String::new());
        let mut s = owned("Summary: ");
        push_decimal(&mut s, self.files_searched);
        push_str(&mut s, " files searched, ");
        push_decimal(&mut s, m_count);
        push_str(&mut s, " matches found");
        add_line(&mut lines, s);
        assert(texts(lines@) =~= mid + summary_lines(m_count as nat, self.files_searched as nat));
        let ghost low = texts(lines@);
        let e_count = self.errors.len();
        if e_count > 0 {
            add_line(&mut lines, String::new());
            add_line(&mut lines, owned("Errors encountered:"));
            let ghost before = texts(lines@);
            let ghost indented = texts(self.errors@).map_values(|e: Seq<char>| "  "@ + e);
            let mut i: usize = 0;
            while i < e_count
                invariant
                    e_count == self.errors@.len(),
                    i <= e_count,
                    indented == texts(self.errors@).map_values(|e: Seq<char>| "  "@ + e),
                    texts(lines@) == before + indented.subrange(0, i as int),
                decreases e_count - i,
            {
                let mut s = owned("  ");
                push_str(&mut s, self.errors[i].as_str());
                add_line(&mut lines, s);
                assert(indented.subrange(0, i + 1) =~= indented.subrange(0, i as int).push(s@));
                i += 1;
            }
            assert(indented.subrange(0, e_count as int) =~= indented);
        }
        assert(texts(lines@) =~= low + error_lines(texts(self.errors@)));
        lines
    }
}

} // verus!
