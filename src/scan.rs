//! The scanner's state: matches, the count of searched files, and recoverable errors.
use vstd::prelude::*;
use crate::config::Config;
use crate::filter::{extension_listed, file_extension, file_name_of};
use crate::text::{
    chars_of, contains_chars, decimal, lowercase, push_char, push_decimal, push_str, trim_chars,
    trim_spec,
};

verus! {

/// One line of one file that holds the needle.
pub struct Match {
    pub file_path: String,
    /// 1-based.
    pub line_number: usize,
    /// The line as read, kept only when lines are shown.
    pub line_content: Option<String>,
}

impl Match {
    pub fn new(file_path: String, line_number: usize, line_content: Option<String>) -> (r: Match)
        ensures
            r == (Match { file_path, line_number, line_content }),
    {
        Match { file_path, line_number, line_content }
    }

    /// The report line of this match.
    pub open spec fn format_spec(&self, show: bool) -> Seq<char> {
        let head = self.file_path@ + " (Line "@ + decimal(self.line_number as nat) + ")"@;
        match self.line_content {
            Some(c) => if show {
                head + ": "@ + trim_spec(c@)
            } else {
                head
            },
            None => head,
        }
    }

    /// `<path> (Line <n>)`, followed by `: <trimmed line>` where lines are shown
    /// and this match kept its line.
    pub fn format_output(&self, config: &Config) -> (r: String)
        ensures
            r@ == self.format_spec(config.show_line_content),
    {
        let mut out = self.file_path.clone();
        push_str(&mut out, " (Line ");
        push_decimal(&mut out, self.line_number);
        push_str(&mut out, ")");
        if config.show_line_content {
            if let Some(c) = &self.line_content {
                push_str(&mut out, ": ");
                let t = trim_chars(&chars_of(c.as_str()));
                let mut i: usize = 0;
                let ghost base = out@;
                while i < t.len()
                    invariant
                        i <= t@.len(),
                        out@ == base + t@.subrange(0, i as int),
                    decreases t@.len() - i,
                {
                    push_char(&mut out, t[i]);
                    proof {
                        assert(t@.subrange(0, i + 1) =~= t@.subrange(0, i as int).push(t@[i as int]));
                    }
                    i += 1;
                }
                assert(t@.subrange(0, t@.len() as int) =~= t@);
            }
        }
        out
    }
}

/// A file that is being read line by line.
pub struct FileScan {
    pub path: String,
    /// The needle as compared with this file's lines.
    pub needle: Vec<char>,
    /// The number of lines read so far.
    pub lines_read: usize,
    /// The lines read so far.
    pub lines: Ghost<Seq<String>>,
    /// How many matches the search held when this file was opened.
    pub start: Ghost<nat>,
}

/// The matches that the lines of the file at `path` give, in order.
pub open spec fn file_matches(c: Config, path: String, lines: Seq<String>) -> Seq<Match>
    decreases lines.len(),
{
    if lines.len() == 0 {
        Seq::empty()
    } else {
        let prev = file_matches(c, path, lines.drop_last());
        if c.line_matches(lines.last()@) {
            prev.push(
                Match {
                    file_path: path,
                    line_number: lines.len() as usize,
                    line_content: if c.show_line_content {
                        Some(lines.last())
                    } else {
                        None
                    },
                },
            )
        } else {
            prev
        }
    }
}

/// The number of lines that hold the needle.
pub open spec fn matching_count(c: Config, lines: Seq<String>) -> nat
    decreases lines.len(),
{
    if lines.len() == 0 {
        0
    } else {
        matching_count(c, lines.drop_last()) + if c.line_matches(lines.last()@) {
            1nat
        } else {
            0nat
        }
    }
}

/// Over a whole file: each line that holds the needle gives exactly one
/// match, numbered by its place from 1 and in the order of the lines, with the
/// file's path and, where lines are shown, the line as read; no other line
/// gives one. So there are as many matches as matching lines, never more than
/// lines, and none for an empty file.
pub proof fn lemma_file_matches(c: Config, path: String, lines: Seq<String>)
    requires
        lines.len() < usize::MAX,
    ensures
        file_matches(c, path, lines).len() == matching_count(c, lines),
        matching_count(c, lines) <= lines.len(),
        lines.len() == 0 ==> file_matches(c, path, lines).len() == 0,
        forall|i: int|
            0 <= i < file_matches(c, path, lines).len() ==> {
                let m = #[trigger] file_matches(c, path, lines)[i];
                &&& m.file_path == path
                &&& 1 <= m.line_number <= lines.len()
                &&& c.line_matches(lines[m.line_number - 1]@)
                &&& m.line_content == (if c.show_line_content {
                    Some(lines[m.line_number - 1])
                } else {
                    None
                })
            },
        forall|i: int, j: int|
            0 <= i < j < file_matches(c, path, lines).len() ==> (#[trigger] file_matches(
                c,
                path,
                lines,
            )[i]).line_number < (#[trigger] file_matches(c, path, lines)[j]).line_number,
        forall|k: int|
            0 <= k < lines.len() && c.line_matches(lines[k]@) ==> exists|i: int|
                0 <= i < file_matches(c, path, lines).len() && (#[trigger] file_matches(
                    c,
                    path,
                    lines,
                )[i]).line_number == k + 1,
    decreases lines.len(),
{
    if lines.len() > 0 {
        let prev_lines = lines.drop_last();
        lemma_file_matches(c, path, prev_lines);
        let prev = file_matches(c, path, prev_lines);
        let all = file_matches(c, path, lines);
        assert forall|i: int| 0 <= i < prev.len() implies all[i] == prev[i] by {}
        assert forall|k: int| 0 <= k < prev_lines.len() implies prev_lines[k] == lines[k] by {}
        assert forall|k: int| 0 <= k < lines.len() && c.line_matches(lines[k]@) implies exists|
            i: int,
        | 0 <= i < all.len() && (#[trigger] all[i]).line_number == k + 1 by {
            if k < lines.len() - 1 {
                assert(prev_lines[k] == lines[k]);
                let i = choose|i: int| 0 <= i < prev.len() && (#[trigger] prev[i]).line_number == k + 1;
                assert(all[i] == prev[i]);
            } else {
                assert(all[all.len() - 1].line_number == k + 1);
            }
        }
    }
}

/// Where the first line holds the needle, the file's first match is on line 1.
pub proof fn lemma_first_line_match(c: Config, path: String, lines: Seq<String>)
    requires
        0 < lines.len() < usize::MAX,
        c.line_matches(lines[0]@),
    ensures
        file_matches(c, path, lines).len() > 0,
        file_matches(c, path, lines)[0].line_number == 1,
        file_matches(c, path, lines)[0].file_path == path,
{
    lemma_file_matches(c, path, lines);
    let fm = file_matches(c, path, lines);
    let i = choose|i: int| 0 <= i < fm.len() && (#[trigger] fm[i]).line_number == 1;
    if i > 0 {
        assert(fm[0].line_number < fm[i].line_number);
    }
}

/// Where only line `j` holds the needle, however long it is, the file gives
/// exactly one match, on line `j`.
pub proof fn lemma_single_matching_line(c: Config, path: String, lines: Seq<String>, j: int)
    requires
        lines.len() < usize::MAX,
        1 <= j <= lines.len(),
        c.line_matches(lines[j - 1]@),
        forall|k: int| 0 <= k < lines.len() && k != j - 1 ==> !c.line_matches(#[trigger] lines[k]@),
    ensures
        file_matches(c, path, lines).len() == 1,
        file_matches(c, path, lines)[0].line_number == j,
        file_matches(c, path, lines)[0].file_path == path,
{
    lemma_file_matches(c, path, lines);
    let fm = file_matches(c, path, lines);
    let i = choose|i: int| 0 <= i < fm.len() && (#[trigger] fm[i]).line_number == j;
    if fm.len() > 1 {
        let other = if i == 0 { 1int } else { 0int };
        assert(fm[other].line_number != fm[i].line_number);
        assert(c.line_matches(lines[fm[other].line_number - 1]@));
    }
}

/// The state of one search.
pub struct SearchEngine<'a> {
    pub config: &'a Config,
    /// In the order they were found.
    pub matches: Vec<Match>,
    pub files_searched: usize,
    /// In the order they came.
    pub errors: Vec<String>,
    /// For each match, the line it was found on.
    pub matched_lines: Ghost<Seq<Seq<char>>>,
    /// How many lines were read over all files.
    pub lines_seen: Ghost<nat>,
    /// The files opened, in order.
    pub opened: Ghost<Seq<Seq<char>>>,
}

/// `Could not read directory <dir>: <reason>`
pub open spec fn dir_error_text(dir: Seq<char>, reason: Seq<char>) -> Seq<char> {
    "Could not read directory "@ + dir + ": "@ + reason
}

/// `Could not read entry in <dir>: <reason>`
pub open spec fn entry_error_text(dir: Seq<char>, reason: Seq<char>) -> Seq<char> {
    "Could not read entry in "@ + dir + ": "@ + reason
}

/// `Could not open file <path>: <reason>`
pub open spec fn open_error_text(path: Seq<char>, reason: Seq<char>) -> Seq<char> {
    "Could not open file "@ + path + ": "@ + reason
}

/// `Could not read line <n> in file <path>: <reason>`
pub open spec fn line_error_text(n: nat, path: Seq<char>, reason: Seq<char>) -> Seq<char> {
    "Could not read line "@ + decimal(n) + " in file "@ + path + ": "@ + reason
}

/// `<a><b><c><d>` as one string.
fn join3(a: &str, b: &str, c: &str, d: &str) -> (r: String)
    ensures
        r@ == a@ + b@ + c@ + d@,
{
    let mut out = String::new();
    push_str(&mut out, a);
    push_str(&mut out, b);
    push_str(&mut out, c);
    push_str(&mut out, d);
    assert(out@ =~= a@ + b@ + c@ + d@);
    out
}

impl FileScan {
    /// The scan belongs to a file that the search accepts, and compares with its needle.
    pub open spec fn wf(&self, engine: &SearchEngine) -> bool {
        &&& engine.config.accepts(self.path@)
        &&& engine.opened@.contains(self.path@)
        &&& self.needle@ == engine.config.needle_spec()
        &&& self.lines_read == self.lines@.len()
        &&& self.start@ <= engine.matches@.len()
        &&& engine.matches@.subrange(self.start@ as int, engine.matches@.len() as int)
            == file_matches(*engine.config, self.path, self.lines@)
    }
}

impl<'a> SearchEngine<'a> {
    /// Every match lies in an accepted file, on a line from 1 on that holds the
    /// needle, and keeps that line where it keeps one; no more matches than lines read.
    pub open spec fn wf(&self) -> bool {
        &&& self.matched_lines@.len() == self.matches@.len()
        &&& self.matches@.len() <= self.lines_seen@
        &&& self.files_searched == self.opened@.len()
        &&& forall|i: int|
            0 <= i < self.matches@.len() ==> {
                let m = #[trigger] self.matches@[i];
                &&& m.line_number >= 1
                &&& self.config.accepts(m.file_path@)
                &&& self.opened@.contains(m.file_path@)
                &&& self.config.line_matches(self.matched_lines@[i])
                &&& (m.line_content matches Some(c) ==> c@ == self.matched_lines@[i])
                &&& (self.config.show_line_content <==> m.line_content is Some)
            }
    }

    /// Every reported match lies in a file that was opened and whose extension is listed, is
    /// numbered from 1, and stands for a line that holds the needle once case
    /// is normalized; there are never more matches than lines read.
    pub proof fn lemma_match_sound(&self, i: int)
        requires
            self.wf(),
            0 <= i < self.matches@.len(),
        ensures
            self.matches@[i].line_number >= 1,
            self.config.accepts(self.matches@[i].file_path@),
            self.opened@.contains(self.matches@[i].file_path@),
            self.files_searched == self.opened@.len(),
            self.config.line_matches(self.matched_lines@[i]),
            self.matches@.len() <= self.lines_seen@,
    {
    }

    /// A search that has found nothing yet.
    pub fn new(config: &'a Config) -> (r: SearchEngine<'a>)
        ensures
            r.config == config,
            r.matches@.len() == 0,
            r.files_searched == 0,
            r.errors@.len() == 0,
            r.lines_seen@ == 0,
            r.opened@.len() == 0,
            r.wf(),
    {
        SearchEngine {
            config,
            matches: Vec::new(),
            files_searched: 0,
            errors: Vec::new(),
            matched_lines: Ghost(Seq::empty()),
            lines_seen: Ghost(0),
            opened: Ghost(Seq::empty()),
        }
    }

    /// Whether the file at `path` has an accepted extension: the text after
    /// the last dot of its name, dot included, equals a listed one up to ASCII case.
    pub fn should_search_file(&self, path: &str) -> (r: bool)
        ensures
            r == self.config.accepts(path@),
    {
        let name = file_name_of(&chars_of(path));
        match file_extension(&name) {
            Some(e) => {
                let mut dotted: Vec<char> = Vec::new();
                dotted.push('.');
                let mut i: usize = 0;
                while i < e.len()
                    invariant
                        i <= e@.len(),
                        dotted@ == seq!['.'] + e@.subrange(0, i as int),
                    decreases e@.len() - i,
                {
                    dotted.push(e[i]);
                    proof {
                        assert(e@.subrange(0, i + 1) =~= e@.subrange(0, i as int).push(e@[i as int]));
                    }
                    i += 1;
                }
                assert(e@.subrange(0, e@.len() as int) =~= e@);
                extension_listed(&self.config.extensions, &dotted)
            },
            None => false,
        }
    }

    /// Records that the file at `path` was opened, and starts reading it.
    pub fn start_file(&mut self, path: String) -> (scan: FileScan)
        requires
            old(self).wf(),
            old(self).config.accepts(path@),
            old(self).files_searched < usize::MAX,
        ensures
            final(self).wf(),
            final(self).files_searched == old(self).files_searched + 1,
            final(self).config == old(self).config,
            final(self).matches == old(self).matches,
            final(self).errors == old(self).errors,
            final(self).lines_seen == old(self).lines_seen,
            final(self).opened@ == old(self).opened@.push(path@),
            scan.path == path,
            scan.lines_read == 0,
            scan.lines@.len() == 0,
            scan.start@ == final(self).matches@.len(),
            scan.wf(final(self)),
    {
        self.files_searched = self.files_searched + 1;
        self.opened = Ghost(self.opened@.push(path@));
        assert forall|i: int| 0 <= i < self.matches@.len() implies self.opened@.contains(
            #[trigger] self.matches@[i].file_path@,
        ) by {
            let k = choose|k: int| 0 <= k < old(self).opened@.len() && old(self).opened@[k]
                == self.matches@[i].file_path@;
            assert(self.opened@[k] == old(self).opened@[k]);
        }
        assert(self.opened@[self.opened@.len() - 1] == path@);
        let needle = if self.config.case_sensitive {
            chars_of(self.config.search_text.as_str())
        } else {
            let low = lowercase(self.config.search_text.as_str());
            chars_of(low.as_str())
        };
        let scan = FileScan {
            path,
            needle,
            lines_read: 0,
            lines: Ghost(Seq::empty()),
            start: Ghost(self.matches@.len()),
        };
        assert(self.matches@.subrange(scan.start@ as int, self.matches@.len() as int) =~= Seq::<
            Match,
        >::empty());
        scan
    }

    /// Tests the next line of the file under `scan`, and records a match where
    /// it holds the needle.
    pub fn scan_line(&mut self, scan: &mut FileScan, line: String)
        requires
            old(self).wf(),
            old(scan).wf(old(self)),
            old(scan).lines_read < usize::MAX,
        ensures
            final(self).wf(),
            final(scan).path == old(scan).path,
            final(scan).needle == old(scan).needle,
            final(scan).lines_read == old(scan).lines_read + 1,
            final(scan).lines@ == old(scan).lines@.push(line),
            final(scan).start == old(scan).start,
            final(scan).wf(final(self)),
            final(self).config == old(self).config,
            final(self).files_searched == old(self).files_searched,
            final(self).errors == old(self).errors,
            final(self).lines_seen@ == old(self).lines_seen@ + 1,
            final(self).opened == old(self).opened,
            if old(self).config.line_matches(line@) {
                final(self).matches@ == old(self).matches@.push(
                    Match {
                        file_path: old(scan).path,
                        line_number: (old(scan).lines_read + 1) as usize,
                        line_content: if old(self).config.show_line_content {
                            Some(line)
                        } else {
                            None
                        },
                    },
                )
            } else {
                final(self).matches == old(self).matches
            },
    {
        let ghost old_matches = self.matches@;
        let ghost old_lines = scan.lines@;
        scan.lines_read = scan.lines_read + 1;
        scan.lines = Ghost(scan.lines@.push(line));
        assert(scan.lines@.drop_last() =~= old_lines);
        self.lines_seen = Ghost(self.lines_seen@ + 1);
        let hay = if self.config.case_sensitive {
            chars_of(line.as_str())
        } else {
            let low = lowercase(line.as_str());
            chars_of(low.as_str())
        };
        if contains_chars(&hay, &scan.needle) {
            let ghost text = line@;
            let content = if self.config.show_line_content {
                Some(line)
            } else {
                None
            };
            let m = Match::new(scan.path.clone(), scan.lines_read, content);
            let ghost m_copy = m;
            self.matches.push(m);
            self.matched_lines = Ghost(self.matched_lines@.push(text));
            assert forall|i: int| 0 <= i < self.matches@.len() implies {
                let m = #[trigger] self.matches@[i];
                &&& m.line_number >= 1
                &&& self.config.accepts(m.file_path@)
                &&& self.opened@.contains(m.file_path@)
                &&& self.config.line_matches(self.matched_lines@[i])
                &&& (m.line_content matches Some(c) ==> c@ == self.matched_lines@[i])
                &&& (self.config.show_line_content <==> m.line_content is Some)
            } by {
                if i < self.matches@.len() - 1 {
                    assert(self.matches@[i] == old(self).matches@[i]);
                    assert(self.matched_lines@[i] == old(self).matched_lines@[i]);
                }
            }
            assert(self.matches@.subrange(scan.start@ as int, self.matches@.len() as int)
                =~= old_matches.subrange(scan.start@ as int, old_matches.len() as int).push(m_copy));
        }
    }

    /// Records that the file under `scan` could not give its next line; reading it stops.
    pub fn line_error(&mut self, scan: &FileScan, reason: &str)
        requires
            scan.lines_read < usize::MAX,
        ensures
            final(self).config == old(self).config,
            final(self).matches == old(self).matches,
            final(self).files_searched == old(self).files_searched,
            final(self).matched_lines == old(self).matched_lines,
            final(self).lines_seen == old(self).lines_seen,
            final(self).opened == old(self).opened,
            final(self).errors@ == old(self).errors@.push(final(self).errors@.last()),
            final(self).errors@.last()@ == line_error_text(
                (scan.lines_read + 1) as nat,
                scan.path@,
                reason@,
            ),
    {
        let mut out = String::new();
        push_str(&mut out, "Could not read line ");
        push_decimal(&mut out, scan.lines_read + 1);
        push_str(&mut out, " in file ");
        push_str(&mut out, scan.path.as_str());
        push_str(&mut out, ": ");
        push_str(&mut out, reason);
        assert(out@ =~= line_error_text((scan.lines_read + 1) as nat, scan.path@, reason@));
        self.errors.push(out);
    }

    /// Records that the file at `path` could not be opened.
    pub fn open_error(&mut self, path: &str, reason: &str)
        ensures
            final(self).config == old(self).config,
            final(self).matches == old(self).matches,
            final(self).files_searched == old(self).files_searched,
            final(self).matched_lines == old(self).matched_lines,
            final(self).lines_seen == old(self).lines_seen,
            final(self).opened == old(self).opened,
            final(self).errors@ == old(self).errors@.push(final(self).errors@.last()),
            final(self).errors@.last()@ == open_error_text(path@, reason@),
    {
        self.errors.push(join3("Could not open file ", path, ": ", reason));
    }

    /// Records that the directory `dir` could not be listed.
    pub fn dir_error(&mut self, dir: &str, reason: &str)
        ensures
            final(self).config == old(self).config,
            final(self).matches == old(self).matches,
            final(self).files_searched == old(self).files_searched,
            final(self).matched_lines == old(self).matched_lines,
            final(self).lines_seen == old(self).lines_seen,
            final(self).opened == old(self).opened,
            final(self).errors@ == old(self).errors@.push(final(self).errors@.last()),
            final(self).errors@.last()@ == dir_error_text(dir@, reason@),
    {
        self.errors.push(join3("Could not read directory ", dir, ": ", reason));
    }

    /// Records that an entry of the directory `dir` could not be read.
    pub fn entry_error(&mut self, dir: &str, reason: &str)
        ensures
            final(self).config == old(self).config,
            final(self).matches == old(self).matches,
            final(self).files_searched == old(self).files_searched,
            final(self).matched_lines == old(self).matched_lines,
            final(self).lines_seen == old(self).lines_seen,
            final(self).opened == old(self).opened,
            final(self).errors@ == old(self).errors@.push(final(self).errors@.last()),
            final(self).errors@.last()@ == entry_error_text(dir@, reason@),
    {
        self.errors.push(join3("Could not read entry in ", dir, ": ", reason));
    }
}

} // verus!
