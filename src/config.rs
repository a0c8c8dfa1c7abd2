//! Turning the command-line tokens into a `Config`.
use vstd::prelude::*;
use crate::filter::{base_name, ext_listed, extension_of, texts};
use crate::text::{
    chars_of, lemma_trim_padded, lower_of, push_char, push_str, seq_contains, string_of, trim_chars,
    trim_spec, white_space,
};

verus! {

/// The help text, also shown after some errors.
pub const USAGE: &'static str = "kemet - File Content Search Utility

USAGE:
    kemet -s <search_text> [OPTIONS]

OPTIONS:
    -p, --path <PATH>           Directory to search (default: current directory)
    -s, --search <TEXT>         Text to search for (required)
    -e, --extensions <EXT>      Comma-separated file extensions (default: txt,json,cs,sql,config,rs,py,js,ts,html,css,xml)
    -o, --output <FILE>         Output file path (if not provided, results shown on console)
    -c, --case-sensitive        Enable case-sensitive search
    -l, --show-lines           Show matching line content
    -h, --help                 Show this help message

EXAMPLES:
    kemet -s \"function\"
    kemet -p /home/user/code -s \"TODO\" -e \"rs,py,js\"
    kemet -s \"Error\" -c -l
    kemet -s \"function\" -o results.txt";

/// An immutable description of one search.
pub struct Config {
    /// The directory the search starts from.
    pub path: String,
    /// The text searched for.
    pub search_text: String,
    /// Accepted extensions, each written with its leading dot.
    pub extensions: Vec<String>,
    pub case_sensitive: bool,
    pub show_line_content: bool,
    /// Where the report goes; `None` stands for standard output.
    pub output_file: Option<String>,
}

impl Config {
    /// The needle is not blank, and the extensions are dotted and not empty.
    pub open spec fn wf(&self) -> bool {
        &&& trim_spec(self.search_text@).len() > 0
        &&& dotted_list(self.ext_texts())
    }

    /// The accepted extensions as texts.
    pub open spec fn ext_texts(&self) -> Seq<Seq<char>> {
        texts(self.extensions@)
    }

    /// The needle as it is compared: lowercased unless the search is case-sensitive.
    pub open spec fn needle_spec(&self) -> Seq<char> {
        if self.case_sensitive {
            self.search_text@
        } else {
            lower_of(self.search_text@)
        }
    }

    /// A line as it is compared.
    pub open spec fn hay_spec(&self, line: Seq<char>) -> Seq<char> {
        if self.case_sensitive {
            line
        } else {
            lower_of(line)
        }
    }

    /// Whether a line holds the needle, after case normalization.
    pub open spec fn line_matches(&self, line: Seq<char>) -> bool {
        seq_contains(self.hay_spec(line), self.needle_spec())
    }

    /// Whether the file at this path is searched.
    pub open spec fn accepts(&self, path: Seq<char>) -> bool {
        match extension_of(base_name(path)) {
            Some(e) => ext_listed(self.ext_texts(), seq!['.'] + e),
            None => false,
        }
    }
}

/// The options as read from the command line, before the root is checked.
pub struct ParsedArgs {
    pub path: Option<String>,
    pub search_text: Option<String>,
    pub extensions: Option<Vec<String>>,
    pub case_sensitive: bool,
    pub show_line_content: bool,
    pub output_file: Option<String>,
}

/// What a `ParsedArgs` holds, as texts.
pub struct ArgsView {
    pub path: Option<Seq<char>>,
    pub search_text: Option<Seq<char>>,
    pub extensions: Option<Seq<Seq<char>>>,
    pub case_sensitive: bool,
    pub show_line_content: bool,
    pub output_file: Option<Seq<char>>,
}

/// The text of an optional string.
pub open spec fn opt_text(o: Option<String>) -> Option<Seq<char>> {
    match o {
        Some(s) => Some(s@),
        None => None,
    }
}

impl ParsedArgs {
    pub open spec fn view(&self) -> ArgsView {
        ArgsView {
            path: opt_text(self.path),
            search_text: opt_text(self.search_text),
            extensions: match self.extensions {
                Some(v) => Some(texts(v@)),
                None => None,
            },
            case_sensitive: self.case_sensitive,
            show_line_content: self.show_line_content,
            output_file: opt_text(self.output_file),
        }
    }
}

/// Every entry is a dotted extension, and there is at least one.
pub open spec fn dotted_list(v: Seq<Seq<char>>) -> bool {
    &&& v.len() > 0
    &&& forall|i: int| 0 <= i < v.len() ==> (#[trigger] v[i]).len() > 0 && v[i][0] == '.'
}

impl ArgsView {
    /// Given values are not blank, and given extensions are dotted.
    pub open spec fn valid(&self) -> bool {
        &&& (self.path matches Some(p) ==> trim_spec(p).len() > 0)
        &&& (self.search_text matches Some(t) ==> trim_spec(t).len() > 0)
        &&& (self.output_file matches Some(o) ==> trim_spec(o).len() > 0)
        &&& (self.extensions matches Some(e) ==> dotted_list(e))
    }
}

/// No option given yet.
pub open spec fn no_args() -> ArgsView {
    ArgsView {
        path: None,
        search_text: None,
        extensions: None,
        case_sensitive: false,
        show_line_content: false,
        output_file: None,
    }
}

/// The pieces of `s` between commas.
pub open spec fn split_commas(s: Seq<char>) -> Seq<Seq<char>>
    decreases s.len(),
{
    if s.len() == 0 {
        seq![Seq::empty()]
    } else {
        let r = split_commas(s.drop_last());
        if s.last() == ',' {
            r.push(Seq::empty())
        } else {
            r.update(r.len() - 1, r.last().push(s.last()))
        }
    }
}

/// An extension token trimmed, with a leading dot added where it has none.
pub open spec fn normalize_ext(t: Seq<char>) -> Seq<char> {
    let u = trim_spec(t);
    if u.len() > 0 && u[0] == '.' {
        u
    } else {
        seq!['.'] + u
    }
}

/// The extensions listed in a comma-separated value.
pub open spec fn ext_list(v: Seq<char>) -> Seq<Seq<char>> {
    norm_all(split_commas(v))
}

/// Each token normalized.
pub open spec fn norm_all(ts: Seq<Seq<char>>) -> Seq<Seq<char>> {
    ts.map_values(|t: Seq<char>| normalize_ext(t))
}

/// `Missing value for <name>`
pub open spec fn missing_text(name: Seq<char>) -> Seq<char> {
    "Missing value for "@ + name
}

/// `Empty <name> provided`
pub open spec fn empty_text(name: Seq<char>) -> Seq<char> {
    "Empty "@ + name + " provided"@
}

/// `Unknown argument: <tok>`, a blank line, and the help text.
pub open spec fn unknown_text(tok: Seq<char>) -> Seq<char> {
    "Unknown argument: "@ + tok + "\n\n"@ + USAGE@
}

/// The value that follows the flag at `i`: missing, blank, or given.
pub open spec fn value_after(args: Seq<Seq<char>>, i: int, name: Seq<char>) -> Result<
    Seq<char>,
    Seq<char>,
> {
    if i + 1 < args.len() {
        if trim_spec(args[i + 1]).len() == 0 {
            Err(empty_text(name))
        } else {
            Ok(args[i + 1])
        }
    } else {
        Err(missing_text(name))
    }
}

/// The flag at `i` takes a value.
pub open spec fn takes_value(a: Seq<char>) -> bool {
    a == "-p"@ || a == "--path"@ || a == "-s"@ || a == "--search"@ || a == "-e"@ || a
        == "--extensions"@ || a == "-o"@ || a == "--output"@
}

/// The name a value-taking flag uses in its messages.
pub open spec fn value_name(a: Seq<char>) -> Seq<char> {
    if a == "-p"@ || a == "--path"@ {
        "path"@
    } else if a == "-s"@ || a == "--search"@ {
        "search text"@
    } else if a == "-e"@ || a == "--extensions"@ {
        "extensions"@
    } else {
        "output file"@
    }
}

/// `acc` with the value `v` of the flag `a` stored.
pub open spec fn store_value(acc: ArgsView, a: Seq<char>, v: Seq<char>) -> ArgsView {
    if a == "-p"@ || a == "--path"@ {
        ArgsView { path: Some(v), ..acc }
    } else if a == "-s"@ || a == "--search"@ {
        ArgsView { search_text: Some(v), ..acc }
    } else if a == "-e"@ || a == "--extensions"@ {
        ArgsView { extensions: Some(ext_list(v)), ..acc }
    } else {
        ArgsView { output_file: Some(v), ..acc }
    }
}

/// The options read from `args[i..]`, on top of `acc`; flags may come in any order.
pub open spec fn parse_from(args: Seq<Seq<char>>, i: int, acc: ArgsView) -> Result<
    ArgsView,
    Seq<char>,
>
    decreases args.len() - i,
{
    if i < 0 || i >= args.len() {
        Ok(acc)
    } else {
        let a = args[i];
        if takes_value(a) {
            match value_after(args, i, value_name(a)) {
                Ok(v) => parse_from(args, i + 2, store_value(acc, a, v)),
                Err(e) => Err(e),
            }
        } else if a == "-c"@ || a == "--case-sensitive"@ {
            parse_from(args, i + 1, ArgsView { case_sensitive: true, ..acc })
        } else if a == "-l"@ || a == "--show-lines"@ {
            parse_from(args, i + 1, ArgsView { show_line_content: true, ..acc })
        } else if a == "-h"@ || a == "--help"@ {
            Err(USAGE@)
        } else {
            Err(unknown_text(a))
        }
    }
}

/// The options that a full token vector (program name first) asks for.
pub open spec fn parse_spec(args: Seq<Seq<char>>) -> Result<ArgsView, Seq<char>> {
    parse_from(args, 1, no_args())
}

/// Two texts are equal.
fn same_text(a: &[char], b: &str) -> (r: bool)
    ensures
        r == (a@ == b@),
{
    let bc = chars_of(b);
    if a.len() != bc.len() {
        return false;
    }
    let mut i: usize = 0;
    while i < a.len()
        invariant
            bc@ == b@,
            a@.len() == b@.len(),
            i <= a@.len(),
            forall|j: int| 0 <= j < i ==> a@[j] == b@[j],
        decreases a@.len() - i,
    {
        if a[i] != bc[i] {
            assert(a@[i as int] != b@[i as int]);
            return false;
        }
        i += 1;
    }
    assert(a@ =~= b@);
    true
}

/// A string of `t` trimmed, with a leading dot added where it has none.
pub fn normalize_extension(t: &[char]) -> (r: String)
    ensures
        r@ == normalize_ext(t@),
{
    let u = trim_chars(t);
    if u.len() > 0 && u[0] == '.' {
        string_of(&u)
    } else {
        let mut out = String::new();
        push_char(&mut out, '.');
        let mut i: usize = 0;
        while i < u.len()
            invariant
                i <= u@.len(),
                out@ == seq!['.'] + u@.subrange(0, i as int),
            decreases u@.len() - i,
        {
            push_char(&mut out, u[i]);
            proof {
                assert(u@.subrange(0, i + 1) =~= u@.subrange(0, i as int).push(u@[i as int]));
            }
            i += 1;
        }
        assert(u@.subrange(0, u@.len() as int) =~= u@);
        out
    }
}

proof fn lemma_split_nonempty(s: Seq<char>)
    ensures
        split_commas(s).len() >= 1,
    decreases s.len(),
{
    if s.len() > 0 {
        lemma_split_nonempty(s.drop_last());
    }
}

/// An extension may be given with or without its dot and with whitespace
/// around it: `rs`, `.rs` and `  rs  ` become the same entry, so they select
/// the same files.
pub proof fn lemma_extension_forms(u: Seq<char>, w1: Seq<char>, w2: Seq<char>)
    requires
        u.len() > 0,
        u[0] != '.',
        !white_space(u[0]),
        !white_space(u.last()),
        forall|i: int| 0 <= i < w1.len() ==> white_space(#[trigger] w1[i]),
        forall|i: int| 0 <= i < w2.len() ==> white_space(#[trigger] w2[i]),
    ensures
        normalize_ext(seq!['.'] + u) == normalize_ext(u),
        normalize_ext(w1 + u + w2) == normalize_ext(u),
        normalize_ext(u) == seq!['.'] + u,
{
    let e = Seq::<char>::empty();
    lemma_trim_padded(e, u, e);
    assert(e + u + e =~= u);
    lemma_trim_padded(w1, u, w2);
    let d = seq!['.'] + u;
    assert(d.last() == u.last());
    lemma_trim_padded(e, d, e);
    assert(e + d + e =~= d);
}

proof fn lemma_split_no_comma(s: Seq<char>)
    requires
        forall|i: int| 0 <= i < s.len() ==> s[i] != ',',
    ensures
        split_commas(s) == seq![s],
    decreases s.len(),
{
    if s.len() == 0 {
        assert(s =~= Seq::<char>::empty());
    } else {
        let t = s.drop_last();
        assert forall|i: int| 0 <= i < t.len() implies t[i] != ',' by {
            assert(t[i] == s[i]);
        }
        lemma_split_no_comma(t);
        assert(t.push(s.last()) =~= s);
        assert(seq![t].update(0, t.push(s.last())) =~= seq![s]);
    }
}

/// Searches that list the same extension as `rs`, `.rs` or `  rs  ` accept
/// the same files.
pub proof fn lemma_extension_forms_filter(
    c1: &Config,
    c2: &Config,
    c3: &Config,
    u: Seq<char>,
    w1: Seq<char>,
    w2: Seq<char>,
    path: Seq<char>,
)
    requires
        u.len() > 0,
        u[0] != '.',
        !white_space(u[0]),
        !white_space(u.last()),
        forall|i: int| 0 <= i < u.len() ==> u[i] != ',',
        forall|i: int| 0 <= i < w1.len() ==> white_space(#[trigger] w1[i]),
        forall|i: int| 0 <= i < w2.len() ==> white_space(#[trigger] w2[i]),
        c1.ext_texts() == ext_list(u),
        c2.ext_texts() == ext_list(seq!['.'] + u),
        c3.ext_texts() == ext_list(w1 + u + w2),
    ensures
        c1.accepts(path) == c2.accepts(path),
        c2.accepts(path) == c3.accepts(path),
{
    lemma_extension_forms(u, w1, w2);
    let d = seq!['.'] + u;
    let p = w1 + u + w2;
    assert forall|i: int| 0 <= i < d.len() implies d[i] != ',' by {
        if i > 0 {
            assert(d[i] == u[i - 1]);
        }
    }
    assert forall|i: int| 0 <= i < p.len() implies p[i] != ',' by {
        if i < w1.len() {
            assert(p[i] == w1[i] && white_space(w1[i]));
        } else if i < w1.len() + u.len() {
            assert(p[i] == u[i - w1.len()]);
        } else {
            assert(p[i] == w2[i - w1.len() - u.len()] && white_space(w2[i - w1.len() - u.len()]));
        }
    }
    lemma_split_no_comma(u);
    lemma_split_no_comma(d);
    lemma_split_no_comma(p);
    assert(ext_list(u) =~= seq![normalize_ext(u)]);
    assert(ext_list(d) =~= seq![normalize_ext(d)]);
    assert(ext_list(p) =~= seq![normalize_ext(p)]);
}

/// The comma-separated extensions of `v`, each trimmed and dotted.
pub fn parse_extensions(v: &str) -> (r: Vec<String>)
    ensures
        texts(r@) == ext_list(v@),
        dotted_list(texts(r@)),
{
    let s = chars_of(v);
    let mut out: Vec<String> = Vec::new();
    let mut cur: Vec<char> = Vec::new();
    let mut i: usize = 0;
    proof {
        assert(s@.subrange(0, 0) =~= Seq::<char>::empty());
    }
    while i < s.len()
        invariant
            i <= s@.len(),
            split_commas(s@.subrange(0, i as int)).len() >= 1,
            cur@ == split_commas(s@.subrange(0, i as int)).last(),
            texts(out@) == norm_all(split_commas(s@.subrange(0, i as int)).drop_last()),
        decreases s@.len() - i,
    {
        let ghost pre = split_commas(s@.subrange(0, i as int));
        assert(s@.subrange(0, i + 1).drop_last() =~= s@.subrange(0, i as int));
        let ghost old_out = out@;
        if s[i] == ',' {
            let piece = normalize_extension(&cur);
            out.push(piece);
            assert(texts(out@) =~= texts(old_out).push(piece@));
            assert(norm_all(pre) =~= norm_all(pre.drop_last()).push(normalize_ext(pre.last())));
            cur = Vec::new();
            assert(split_commas(s@.subrange(0, i + 1)) == pre.push(Seq::empty()));
            assert(pre.push(Seq::empty()).drop_last() =~= pre);
            assert(pre =~= pre.drop_last().push(pre.last()));
        } else {
            cur.push(s[i]);
            assert(split_commas(s@.subrange(0, i + 1)) == pre.update(
                pre.len() - 1,
                pre.last().push(s@[i as int]),
            ));
            assert(pre.update(pre.len() - 1, pre.last().push(s@[i as int])).drop_last()
                =~= pre.drop_last());
        }
        i += 1;
    }
    let ghost old_out = out@;
    let piece = normalize_extension(&cur);
    out.push(piece);
    assert(texts(out@) =~= texts(old_out).push(piece@));
    let ghost all = split_commas(s@.subrange(0, s@.len() as int));
    assert(s@.subrange(0, s@.len() as int) =~= s@);
    assert(all =~= all.drop_last().push(all.last()));
    assert(norm_all(all) =~= norm_all(all.drop_last()).push(normalize_ext(all.last())));
    assert(texts(out@) =~= ext_list(v@));
    proof {
        lemma_split_nonempty(v@);
        assert forall|i: int| 0 <= i < texts(out@).len() implies (#[trigger] texts(out@)[i]).len()
            > 0 && texts(out@)[i][0] == '.' by {
            let t = split_commas(v@)[i];
            let u = trim_spec(t);
            assert(texts(out@)[i] == normalize_ext(t));
            if !(u.len() > 0 && u[0] == '.') {
                assert((seq!['.'] + u)[0] == '.');
            }
        }
    }
    out
}

/// The extensions searched where none are given.
pub open spec fn default_exts() -> Seq<Seq<char>> {
    seq![
        ".txt"@,
        ".json"@,
        ".cs"@,
        ".sql"@,
        ".config"@,
        ".rs"@,
        ".py"@,
        ".js"@,
        ".ts"@,
        ".html"@,
        ".css"@,
        ".xml"@,
    ]
}

/// The root asked for, where one is; blank, `.` and `*` stand for the current directory.
pub open spec fn requested_root(p: Option<Seq<char>>) -> Option<Seq<char>> {
    match p {
        Some(s) => if trim_spec(s).len() > 0 && s != "."@ && s != "*"@ {
            Some(s)
        } else {
            None
        },
        None => None,
    }
}

/// The `Config` that parsed options and a checked root give, or the error.
pub open spec fn config_spec(a: ArgsView, root: Seq<char>, exists: bool, is_dir: bool) -> Result<
    (),
    Seq<char>,
> {
    if !exists {
        Err("Path does not exist: "@ + root)
    } else if !is_dir {
        Err("Path is not a directory: "@ + root)
    } else if a.search_text is None {
        Err("Search text is required\n\n"@ + USAGE@)
    } else {
        Ok(())
    }
}

fn text_string(t: &str) -> (r: String)
    ensures
        r@ == t@,
{
    let mut out = String::new();
    push_str(&mut out, t);
    out
}

fn default_extensions() -> (r: Vec<String>)
    ensures
        texts(r@) == default_exts(),
        dotted_list(default_exts()),
{
    proof {
        reveal_strlit(".txt");
        reveal_strlit(".json");
        reveal_strlit(".cs");
        reveal_strlit(".sql");
        reveal_strlit(".config");
        reveal_strlit(".rs");
        reveal_strlit(".py");
        reveal_strlit(".js");
        reveal_strlit(".ts");
        reveal_strlit(".html");
        reveal_strlit(".css");
        reveal_strlit(".xml");
    }
    let mut v: Vec<String> = Vec::new();
    v.push(text_string(".txt"));
    v.push(text_string(".json"));
    v.push(text_string(".cs"));
    v.push(text_string(".sql"));
    v.push(text_string(".config"));
    v.push(text_string(".rs"));
    v.push(text_string(".py"));
    v.push(text_string(".js"));
    v.push(text_string(".ts"));
    v.push(text_string(".html"));
    v.push(text_string(".css"));
    v.push(text_string(".xml"));
    assert(texts(v@) =~= default_exts());
    v
}

impl Config {
    /// Reads the options from the tokens (program name first). Fails with the
    /// help text where help is asked for, and with the message of the first
    /// missing, blank or unknown value.
    pub fn parse_args(args: &Vec<String>) -> (r: Result<ParsedArgs, String>)
        ensures
            match r {
                Ok(p) => parse_spec(texts(args@)) == Ok::<ArgsView, Seq<char>>(p.view()) && p.view().valid(),
                Err(e) => parse_spec(texts(args@)) == Err::<ArgsView, Seq<char>>(e@),
            },
    {
        let ghost all = texts(args@);
        let mut p = ParsedArgs {
            path: None,
            search_text: None,
            extensions: None,
            case_sensitive: false,
            show_line_content: false,
            output_file: None,
        };
        let mut i: usize = 1;
        while i < args.len()
            invariant
                i <= args@.len() + 1,
                all == texts(args@),
                parse_spec(all) == parse_from(all, i as int, p.view()),
                p.view().valid(),
            decreases args@.len() - i,
        {
            let a = chars_of(args[i].as_str());
            assert(all[i as int] == a@);
            let is_path = same_text(&a, "-p") || same_text(&a, "--path");
            let is_search = same_text(&a, "-s") || same_text(&a, "--search");
            let is_ext = same_text(&a, "-e") || same_text(&a, "--extensions");
            let is_out = same_text(&a, "-o") || same_text(&a, "--output");
            if is_path || is_search || is_ext || is_out {
                let name = if is_path {
                    "path"
                } else if is_search {
                    "search text"
                } else if is_ext {
                    "extensions"
                } else {
                    "output file"
                };
                assert(name@ == value_name(a@));
                let ghost at = i as int;
                let ghost old_view = p.view();
                match Config::get_next_arg(args.as_slice(), &mut i, name) {
                    Ok(Some(v)) => {
                        assert(value_after(all, at, value_name(a@)) == Ok::<Seq<char>, Seq<char>>(
                            v@,
                        ));
                        if is_path {
                            p.path = Some(v);
                        } else if is_search {
                            p.search_text = Some(v);
                        } else if is_ext {
                            p.extensions = Some(parse_extensions(v.as_str()));
                        } else {
                            p.output_file = Some(v);
                        }
                        assert(p.view() =~= store_value(old_view, a@, v@));
                    },
                    Ok(None) => {
                        return Err(Config::usage());
                    },
                    Err(e) => {
                        return Err(e);
                    },
                }
            } else if same_text(&a, "-c") || same_text(&a, "--case-sensitive") {
                p.case_sensitive = true;
                i = i + 1;
            } else if same_text(&a, "-l") || same_text(&a, "--show-lines") {
                p.show_line_content = true;
                i = i + 1;
            } else if same_text(&a, "-h") || same_text(&a, "--help") {
                return Err(Config::usage());
            } else {
                let mut e = String::new();
                push_str(&mut e, "Unknown argument: ");
                push_str(&mut e, args[i].as_str());
                push_str(&mut e, "\n\n");
                push_str(&mut e, USAGE);
                return Err(e);
            }
        }
        Ok(p)
    }

    /// The root the options ask for; `None` where the current directory is meant.
    pub fn resolve_path(path: &Option<String>) -> (r: Option<String>)
        ensures
            opt_text(r) == requested_root(opt_text(*path)),
    {
        match path {
            Some(p) => {
                let c = chars_of(p.as_str());
                let t = trim_chars(&c);
                if t.len() > 0 && !same_text(&c, ".") && !same_text(&c, "*") {
                    Some(p.clone())
                } else {
                    None
                }
            },
            None => None,
        }
    }

    /// The configuration for a root that does (`exists`) or does not exist and
    /// is (`is_dir`) or is not a directory; fails on an unusable root, then on
    /// a missing search text. The extensions default to the usual source and text kinds.
    pub fn new(parsed: ParsedArgs, root: String, exists: bool, is_dir: bool) -> (r: Result<
        Config,
        String,
    >)
        ensures
            match r {
                Ok(c) => {
                    &&& config_spec(parsed.view(), root@, exists, is_dir) is Ok
                    &&& c.path == root
                    &&& parsed.search_text == Some(c.search_text)
                    &&& c.ext_texts() == match parsed.view().extensions {
                        Some(e) => e,
                        None => default_exts(),
                    }
                    &&& c.case_sensitive == parsed.case_sensitive
                    &&& c.show_line_content == parsed.show_line_content
                    &&& c.output_file == parsed.output_file
                },
                Err(e) => config_spec(parsed.view(), root@, exists, is_dir) == Err::<(), Seq<char>>(
                    e@,
                ),
            },
    {
        if !exists {
            let mut e = text_string("Path does not exist: ");
            push_str(&mut e, root.as_str());
            return Err(e);
        }
        if !is_dir {
            let mut e = text_string("Path is not a directory: ");
            push_str(&mut e, root.as_str());
            return Err(e);
        }
        let search_text = match parsed.search_text {
            Some(t) => t,
            None => {
                let mut e = text_string("Search text is required\n\n");
                push_str(&mut e, USAGE);
                return Err(e);
            },
        };
        let extensions = match parsed.extensions {
            Some(v) => v,
            None => default_extensions(),
        };
        Ok(
            Config {
                path: root,
                search_text,
                extensions,
                case_sensitive: parsed.case_sensitive,
                show_line_content: parsed.show_line_content,
                output_file: parsed.output_file,
            },
        )
    }

    /// The help text.
    pub fn usage() -> (r: String)
        ensures
            r@ == USAGE@,
    {
        let mut out = String::new();
        push_str(&mut out, USAGE);
        out
    }

    /// Reads the value after the flag at `*i` and moves `*i` past both; fails
    /// where the value is missing or blank.
    pub fn get_next_arg(args: &[String], i: &mut usize, arg_name: &str) -> (r: Result<
        Option<String>,
        String,
    >)
        ensures
            *old(i) + 1 < args@.len() ==> *final(i) == *old(i) + 2,
            *old(i) + 1 >= args@.len() ==> *final(i) == *old(i),
            match r {
                Ok(v) => v matches Some(s) && value_after(texts(args@), *old(i) as int, arg_name@)
                    == Ok::<Seq<char>, Seq<char>>(s@),
                Err(e) => value_after(texts(args@), *old(i) as int, arg_name@) == Err::<
                    Seq<char>,
                    Seq<char>,
                >(e@),
            },
    {
        let n: usize = args.len();
        if n > 0 && *i < n - 1 {
            let value = args[*i + 1].clone();
            *i = *i + 2;
            let t = trim_chars(&chars_of(value.as_str()));
            if t.len() == 0 {
                let mut e = String::new();
                push_str(&mut e, "Empty ");
                push_str(&mut e, arg_name);
                push_str(&mut e, " provided");
                assert(e@ =~= empty_text(arg_name@));
                return Err(e);
            }
            Ok(Some(value))
        } else {
            let mut e = String::new();
            push_str(&mut e, "Missing value for ");
            push_str(&mut e, arg_name);
            Err(e)
        }
    }
}

} // verus!
