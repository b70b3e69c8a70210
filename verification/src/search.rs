//! The grep-style content search: query compilation, file filters, line
//! matching with context windows, and result limits.
use vstd::prelude::*;
use crate::text::{
    chars_of, decimal, join, join_range, lines, lines_of, push_decimal, push_str, str_eq,
    string_of, views,
};
use vstd::string::StringExecFns;
use crate::file_ops::{extension_of, path_extension, ErrorKind, ToolError};

verus! {

// ---------------------------------------------------------------------------
// Outside pattern engines
// ---------------------------------------------------------------------------

#[verifier::external_type_specification]
#[verifier::external_body]
pub struct ExRegex(regex::Regex);

#[verifier::external_type_specification]
#[verifier::external_body]
pub struct ExGlobPattern(glob::Pattern);

/// The error message, if any, that `regex::RegexBuilder::build` gives for a
/// pattern with the given case-insensitivity and dot-matches-newline flags.
pub uninterp spec fn regex_build_error(
    pattern: Seq<char>,
    case_insensitive: bool,
    dot_matches_new_line: bool,
) -> Option<Seq<char>>;

/// Whether `regex::Regex::is_match` finds a match of the compiled pattern in
/// `haystack`.
pub uninterp spec fn regex_is_match(
    pattern: Seq<char>,
    case_insensitive: bool,
    dot_matches_new_line: bool,
    haystack: Seq<char>,
) -> bool;

/// How many matches `regex::Regex::find_iter` yields in `haystack`.
pub uninterp spec fn regex_match_count(
    pattern: Seq<char>,
    case_insensitive: bool,
    dot_matches_new_line: bool,
    haystack: Seq<char>,
) -> nat;

/// The error message, if any, that `glob::Pattern::new` gives for a pattern.
pub uninterp spec fn glob_pattern_error(pattern: Seq<char>) -> Option<Seq<char>>;

/// Whether `glob::Pattern::matches` accepts `text` for a pattern.
pub uninterp spec fn glob_matches(pattern: Seq<char>, text: Seq<char>) -> bool;

/// A regular expression together with the source and flags it was built from.
pub struct LineRegex {
    re: regex::Regex,
    pattern: String,
    case_insensitive: bool,
    dot_matches_new_line: bool,
}

impl LineRegex {
    /// The pattern the expression was built from.
    pub closed spec fn source(&self) -> Seq<char> {
        self.pattern@
    }

    /// Whether the expression ignores case.
    pub closed spec fn ignores_case(&self) -> bool {
        self.case_insensitive
    }

    /// Whether `.` in the expression also matches `\n`.
    pub closed spec fn dot_all(&self) -> bool {
        self.dot_matches_new_line
    }
}

/// Builds a regular expression with `regex::RegexBuilder`, setting
/// `case_insensitive` and `dot_matches_new_line`.  Claims that it succeeds
/// exactly when `regex_build_error` is `None`, and otherwise returns that
/// message (the `Display` text of `regex::Error`).
#[verifier::external_body]
fn build_regex(pattern: &str, case_insensitive: bool, dot_matches_new_line: bool) -> (r: Result<
    LineRegex,
    String,
>)
    ensures
        match r {
            Ok(x) => regex_build_error(pattern@, case_insensitive, dot_matches_new_line) is None
                && x.source() == pattern@ && x.ignores_case() == case_insensitive && x.dot_all()
                == dot_matches_new_line,
            Err(m) => regex_build_error(pattern@, case_insensitive, dot_matches_new_line) == Some(
                m@,
            ),
        },
{
    match regex::RegexBuilder::new(pattern).case_insensitive(case_insensitive).dot_matches_new_line(
        dot_matches_new_line,
    ).build() {
        Ok(re) => Ok(LineRegex {
            re,
            pattern: pattern.to_string(),
            case_insensitive,
            dot_matches_new_line,
        }),
        Err(e) => Err(e.to_string()),
    }
}

/// Calls `regex::Regex::is_match` on `haystack`.
#[verifier::external_body]
fn regex_find(r: &LineRegex, haystack: &str) -> (b: bool)
    ensures
        b == regex_is_match(r.source(), r.ignores_case(), r.dot_all(), haystack@),
{
    r.re.is_match(haystack)
}

/// Counts the matches that `regex::Regex::find_iter` yields in `haystack`.
#[verifier::external_body]
fn regex_count(r: &LineRegex, haystack: &str) -> (n: usize)
    ensures
        n as nat == regex_match_count(r.source(), r.ignores_case(), r.dot_all(), haystack@),
{
    r.re.find_iter(haystack).count()
}

/// A shell-style pattern together with its source.
pub struct GlobFilter {
    pat: glob::Pattern,
    pattern: String,
}

impl GlobFilter {
    /// The pattern the filter was built from.
    pub closed spec fn source(&self) -> Seq<char> {
        self.pattern@
    }
}

/// Compiles a pattern with `glob::Pattern::new`.  Claims that it succeeds
/// exactly when `glob_pattern_error` is `None`, and otherwise returns that
/// message (the `Display` text of `glob::PatternError`).
#[verifier::external_body]
fn build_glob(pattern: &str) -> (r: Result<GlobFilter, String>)
    ensures
        match r {
            Ok(g) => glob_pattern_error(pattern@) is None && g.source() == pattern@,
            Err(m) => glob_pattern_error(pattern@) == Some(m@),
        },
{
    match glob::Pattern::new(pattern) {
        Ok(pat) => Ok(GlobFilter { pat, pattern: pattern.to_string() }),
        Err(e) => Err(e.to_string()),
    }
}

/// Calls `glob::Pattern::matches` on `text`.
#[verifier::external_body]
fn glob_accepts(g: &GlobFilter, text: &str) -> (b: bool)
    ensures
        b == glob_matches(g.source(), text@),
{
    g.pat.matches(text)
}

// ---------------------------------------------------------------------------
// Search parameters and results
// ---------------------------------------------------------------------------

/// Parameters accepted by the grep-style search tool.
#[derive(Debug, Clone, PartialEq, Eq)]
pub struct GrepSearchInput {
    pub pattern: String,
    pub path: Option<String>,
    pub glob: Option<String>,
    pub output_mode: Option<String>,
    pub before: Option<usize>,
    pub after: Option<usize>,
    pub context_short: Option<usize>,
    pub context: Option<usize>,
    pub line_numbers: Option<bool>,
    pub case_insensitive: Option<bool>,
    pub file_type: Option<String>,
    pub head_limit: Option<usize>,
    pub offset: Option<usize>,
    pub multiline: Option<bool>,
}

/// Result payload returned by the grep-style search tool.
#[derive(Debug, Clone, PartialEq, Eq)]
pub struct GrepSearchOutput {
    pub mode: Option<String>,
    pub num_files: usize,
    pub filenames: Vec<String>,
    pub content: Option<String>,
    pub num_lines: Option<usize>,
    pub num_matches: Option<usize>,
    pub applied_limit: Option<usize>,
    pub applied_offset: Option<usize>,
}

/// A candidate file of a search: its path and, when it could be read as
/// text, its contents.
#[derive(Debug, Clone)]
pub struct SearchFile {
    pub path: String,
    pub contents: Option<String>,
}

/// The characters of an optional string.
pub open spec fn opt_view(s: Option<String>) -> Option<Seq<char>> {
    match s {
        Some(x) => Some(x@),
        None => None,
    }
}

/// The characters of a list of strings.
pub open spec fn strings_view(v: Seq<String>) -> Seq<Seq<char>> {
    v.map_values(|x: String| x@)
}

/// The paths and contents of candidate files.
pub open spec fn files_view(files: Seq<SearchFile>) -> Seq<(Seq<char>, Option<Seq<char>>)> {
    files.map_values(|f: SearchFile| (f.path@, opt_view(f.contents)))
}

/// The output mode, `files_with_matches` by default.
pub open spec fn mode_of(input: GrepSearchInput) -> Seq<char> {
    match input.output_mode {
        Some(m) => m@,
        None => "files_with_matches"@,
    }
}

/// The context width: `context`, else `-C`, else none.
pub open spec fn context_of(input: GrepSearchInput) -> nat {
    match input.context {
        Some(c) => c as nat,
        None => match input.context_short {
            Some(c) => c as nat,
            None => 0,
        },
    }
}

/// Lines shown before a match.
pub open spec fn before_of(input: GrepSearchInput) -> nat {
    match input.before {
        Some(b) => b as nat,
        None => context_of(input),
    }
}

/// Lines shown after a match.
pub open spec fn after_of(input: GrepSearchInput) -> nat {
    match input.after {
        Some(a) => a as nat,
        None => context_of(input),
    }
}

/// Whether matching ignores case.
pub open spec fn ignores_case_of(input: GrepSearchInput) -> bool {
    match input.case_insensitive {
        Some(b) => b,
        None => false,
    }
}

/// Whether `.` matches a newline.
pub open spec fn dot_all_of(input: GrepSearchInput) -> bool {
    match input.multiline {
        Some(b) => b,
        None => false,
    }
}

/// Whether content lines carry line numbers.
pub open spec fn numbered_of(input: GrepSearchInput) -> bool {
    match input.line_numbers {
        Some(b) => b,
        None => true,
    }
}

/// Whether a line matches the pattern of the search.
pub open spec fn line_hit(input: GrepSearchInput, line: Seq<char>) -> bool {
    regex_is_match(input.pattern@, ignores_case_of(input), dot_all_of(input), line)
}

/// Whether a file passes the glob and type filters of the search.
pub open spec fn file_wanted(input: GrepSearchInput, path: Seq<char>) -> bool {
    &&& match input.glob {
        Some(g) => glob_matches(g@, path),
        None => true,
    }
    &&& match input.file_type {
        Some(t) => path_extension(path) == Some(t@),
        None => true,
    }
}

/// The indices, among the first `n` lines, of the lines that match.
pub open spec fn hits_upto(input: GrepSearchInput, ls: Seq<Seq<char>>, n: nat) -> Seq<int>
    decreases n,
{
    if n == 0 {
        Seq::empty()
    } else {
        let prev = hits_upto(input, ls, (n - 1) as nat);
        if line_hit(input, ls[n - 1]) {
            prev.push(n - 1)
        } else {
            prev
        }
    }
}

/// The prefix of a content line: the path and, unless turned off, the
/// 1-based line number.
pub open spec fn line_prefix(input: GrepSearchInput, path: Seq<char>, number: nat) -> Seq<char> {
    if numbered_of(input) {
        path + ":"@ + decimal(number) + ":"@
    } else {
        path + ":"@
    }
}

/// First line of the window around the match at `idx`.
pub open spec fn window_start(input: GrepSearchInput, idx: int) -> int {
    if idx >= before_of(input) {
        idx - before_of(input)
    } else {
        0
    }
}

/// End (exclusive) of the window around the match at `idx`.
pub open spec fn window_end(input: GrepSearchInput, ls: Seq<Seq<char>>, idx: int) -> int {
    if idx + after_of(input) + 1 <= ls.len() {
        idx + after_of(input) + 1
    } else {
        ls.len() as int
    }
}

/// The content lines shown for the match at `idx`.
pub open spec fn window(input: GrepSearchInput, path: Seq<char>, ls: Seq<Seq<char>>, idx: int) -> Seq<
    Seq<char>,
> {
    let start = window_start(input, idx);
    let end = window_end(input, ls, idx);
    Seq::new(
        (if end > start {
            end - start
        } else {
            0
        }) as nat,
        |j: int| line_prefix(input, path, (start + j + 1) as nat) + ls[start + j],
    )
}

/// The content lines shown for the matches `hits`.
pub open spec fn windows(
    input: GrepSearchInput,
    path: Seq<char>,
    ls: Seq<Seq<char>>,
    hits: Seq<int>,
) -> Seq<Seq<char>>
    decreases hits.len(),
{
    if hits.len() == 0 {
        Seq::empty()
    } else {
        windows(input, path, ls, hits.drop_last()) + window(input, path, ls, hits.last())
    }
}

/// What one readable, wanted file contributes: whether it is listed, its
/// content lines and its number of matches.
pub open spec fn file_step(input: GrepSearchInput, path: Seq<char>, text: Seq<char>) -> (
    bool,
    Seq<Seq<char>>,
    nat,
) {
    if mode_of(input) == "count"@ {
        let c = regex_match_count(input.pattern@, ignores_case_of(input), dot_all_of(input), text);
        (c > 0, Seq::empty(), c)
    } else {
        let ls = lines(text);
        let hits = hits_upto(input, ls, ls.len());
        (
            hits.len() > 0,
            if mode_of(input) == "content"@ {
                windows(input, path, ls, hits)
            } else {
                Seq::empty()
            },
            hits.len(),
        )
    }
}

/// The listed files, content lines and number of matches of a search over
/// `files`, in order.
pub open spec fn tally(input: GrepSearchInput, files: Seq<(Seq<char>, Option<Seq<char>>)>) -> (
    Seq<Seq<char>>,
    Seq<Seq<char>>,
    nat,
)
    decreases files.len(),
{
    if files.len() == 0 {
        (Seq::empty(), Seq::empty(), 0)
    } else {
        let prev = tally(input, files.drop_last());
        let (path, contents) = files.last();
        if !file_wanted(input, path) || contents is None {
            prev
        } else {
            let (listed, more, n) = file_step(input, path, contents->0);
            (
                if listed {
                    prev.0.push(path)
                } else {
                    prev.0
                },
                prev.1 + more,
                prev.2 + n,
            )
        }
    }
}

// ---------------------------------------------------------------------------
// Result limits
// ---------------------------------------------------------------------------

/// The items left after skipping `offset` (0 by default) and keeping at most
/// `limit` (250 by default, 0 for no limit), with the limit reported when it
/// cut items off and the offset reported when it is not 0.
pub open spec fn limited<T>(items: Seq<T>, limit: Option<usize>, offset: Option<usize>) -> (
    Seq<T>,
    Option<usize>,
    Option<usize>,
) {
    let o: usize = match offset {
        Some(x) => x,
        None => 0,
    };
    let rest = if o <= items.len() {
        items.skip(o as int)
    } else {
        Seq::empty()
    };
    let l: usize = match limit {
        Some(x) => x,
        None => 250,
    };
    let shown_offset = if o > 0 {
        Some(o)
    } else {
        None
    };
    if l == 0 {
        (rest, None, shown_offset)
    } else if rest.len() > l {
        (rest.take(l as int), Some(l), shown_offset)
    } else {
        (rest, None, shown_offset)
    }
}

/// Skips `offset` items (0 by default) and keeps at most `limit` (250 by
/// default, 0 for no limit); reports the limit when it cut items off and the
/// offset when it is not 0.
pub fn apply_limit<T>(items: Vec<T>, limit: Option<usize>, offset: Option<usize>) -> (r: (
    Vec<T>,
    Option<usize>,
    Option<usize>,
))
    ensures
        (r.0@, r.1, r.2) == limited(items@, limit, offset),
{
    let offset_value: usize = match offset {
        Some(x) => x,
        None => 0,
    };
    let mut items = items;
    let mut rest: Vec<T> = if offset_value <= items.len() {
        items.split_off(offset_value)
    } else {
        Vec::new()
    };
    let explicit_limit: usize = match limit {
        Some(x) => x,
        None => 250,
    };
    let shown_offset = if offset_value > 0 {
        Some(offset_value)
    } else {
        None
    };
    if explicit_limit == 0 {
        return (rest, None, shown_offset);
    }
    let truncated = rest.len() > explicit_limit;
    if truncated {
        rest.truncate(explicit_limit);
        (rest, Some(explicit_limit), shown_offset)
    } else {
        (rest, None, shown_offset)
    }
}

// ---------------------------------------------------------------------------
// The content search
// ---------------------------------------------------------------------------

/// The indices of a list of positions.
pub open spec fn ints(s: Seq<usize>) -> Seq<int> {
    s.map_values(|x: usize| x as int)
}

/// What the search reports for `files`: mode, number of files, file names,
/// content, number of content lines, number of matches, applied limit and
/// applied offset.
pub open spec fn grep_result(input: GrepSearchInput, files: Seq<(Seq<char>, Option<Seq<char>>)>) -> (
    Seq<char>,
    Seq<Seq<char>>,
    Option<Seq<char>>,
    Option<nat>,
    Option<nat>,
    Option<usize>,
    Option<usize>,
) {
    let t = tally(input, files);
    let mode = mode_of(input);
    let f = limited(t.0, input.head_limit, input.offset);
    if mode == "content"@ {
        let c = limited(t.1, input.head_limit, input.offset);
        (mode, f.0, Some(join(c.0, "\n"@)), Some(c.0.len()), None, c.1, c.2)
    } else {
        (
            mode,
            f.0,
            None,
            None,
            if mode == "count"@ {
                Some(t.2)
            } else {
                None
            },
            f.1,
            f.2,
        )
    }
}

/// Whether an output carries what the search reports for `files`.
pub open spec fn grep_output_matches(
    out: GrepSearchOutput,
    input: GrepSearchInput,
    files: Seq<(Seq<char>, Option<Seq<char>>)>,
) -> bool {
    let r = grep_result(input, files);
    &&& opt_view(out.mode) == Some(r.0)
    &&& strings_view(out.filenames@) == r.1
    &&& out.num_files == out.filenames.len()
    &&& opt_view(out.content) == r.2
    &&& match out.num_lines {
        Some(n) => r.3 == Some(n as nat),
        None => r.3 is None,
    }
    &&& match out.num_matches {
        Some(n) => r.4 == Some(n as nat),
        None => r.4 is None,
    }
    &&& out.applied_limit == r.5
    &&& out.applied_offset == r.6
}

/// Whether, for every matching line of `text`, its index plus the lines
/// shown after it plus one fits in `usize` (the end of its window).
pub open spec fn hits_fit(input: GrepSearchInput, text: Seq<char>) -> bool {
    let ls = lines(text);
    let hits = hits_upto(input, ls, ls.len());
    forall|k: int| 0 <= k < hits.len() ==> #[trigger] hits[k] + after_of(input) + 1 <= usize::MAX
}

/// Whether no window of a content search reaches past `usize::MAX`: the
/// windows of the matching lines of every file that is searched fit.
pub open spec fn windows_fit(input: GrepSearchInput, files: Seq<(Seq<char>, Option<Seq<char>>)>) -> bool {
    mode_of(input) == "content"@ ==> forall|i: int|
        0 <= i < files.len() && #[trigger] files[i].1 is Some && file_wanted(input, files[i].0)
            ==> hits_fit(input, files[i].1->0)
}

/// The number of matches never shrinks as more files are searched.
pub proof fn lemma_tally_grows(
    input: GrepSearchInput,
    files: Seq<(Seq<char>, Option<Seq<char>>)>,
    i: int,
)
    requires
        0 <= i <= files.len(),
    ensures
        tally(input, files.take(i)).2 <= tally(input, files).2,
    decreases files.len() - i,
{
    if i < files.len() {
        assert(files.drop_last().take(i) =~= files.take(i));
        lemma_tally_grows(input, files.drop_last(), i);
    } else {
        assert(files.take(i) =~= files);
    }
}

/// Limiting commutes with taking the characters of strings.
pub proof fn lemma_limited_strings(items: Seq<String>, limit: Option<usize>, offset: Option<usize>)
    ensures
        strings_view(limited(items, limit, offset).0) == limited(strings_view(items), limit, offset).0,
        limited(items, limit, offset).1 == limited(strings_view(items), limit, offset).1,
        limited(items, limit, offset).2 == limited(strings_view(items), limit, offset).2,
{
    let o: usize = match offset {
        Some(x) => x,
        None => 0,
    };
    let l: usize = match limit {
        Some(x) => x,
        None => 250,
    };
    if o <= items.len() {
        assert(strings_view(items.skip(o as int)) =~= strings_view(items).skip(o as int));
        if items.skip(o as int).len() > l {
            assert(strings_view(items.skip(o as int).take(l as int)) =~= strings_view(items).skip(
                o as int,
            ).take(l as int));
        }
    } else {
        assert(strings_view(Seq::<String>::empty()) =~= Seq::<Seq<char>>::empty());
    }
}

/// Limiting commutes with taking the characters of character vectors.
pub proof fn lemma_limited_views(items: Seq<Vec<char>>, limit: Option<usize>, offset: Option<usize>)
    ensures
        views(limited(items, limit, offset).0) == limited(views(items), limit, offset).0,
        limited(items, limit, offset).1 == limited(views(items), limit, offset).1,
        limited(items, limit, offset).2 == limited(views(items), limit, offset).2,
{
    let o: usize = match offset {
        Some(x) => x,
        None => 0,
    };
    let l: usize = match limit {
        Some(x) => x,
        None => 250,
    };
    if o <= items.len() {
        assert(views(items.skip(o as int)) =~= views(items).skip(o as int));
        if items.skip(o as int).len() > l {
            assert(views(items.skip(o as int).take(l as int)) =~= views(items).skip(o as int).take(
                l as int,
            ));
        }
    } else {
        assert(views(Seq::<Vec<char>>::empty()) =~= Seq::<Seq<char>>::empty());
    }
}

/// Copies an optional string.
fn copy_opt_string(s: &Option<String>) -> (r: Option<String>)
    ensures
        r == *s,
{
    match s {
        Some(x) => Some(x.clone()),
        None => None,
    }
}

impl GrepSearchInput {
    /// A copy of the parameters.
    pub fn duplicate(&self) -> (r: GrepSearchInput)
        ensures
            r == *self,
    {
        GrepSearchInput {
            pattern: self.pattern.clone(),
            path: copy_opt_string(&self.path),
            glob: copy_opt_string(&self.glob),
            output_mode: copy_opt_string(&self.output_mode),
            before: self.before,
            after: self.after,
            context_short: self.context_short,
            context: self.context,
            line_numbers: self.line_numbers,
            case_insensitive: self.case_insensitive,
            file_type: copy_opt_string(&self.file_type),
            head_limit: self.head_limit,
            offset: self.offset,
            multiline: self.multiline,
        }
    }
}

/// A compiled content search: the parameters with their pattern and glob
/// filter built.
pub struct GrepQuery {
    input: GrepSearchInput,
    regex: LineRegex,
    glob: Option<GlobFilter>,
}

impl GrepQuery {
    /// The parameters the query was compiled from.
    pub closed spec fn input(&self) -> GrepSearchInput {
        self.input
    }

    #[verifier::type_invariant]
    closed spec fn compiled_from_input(&self) -> bool {
        &&& self.regex.source() == self.input.pattern@
        &&& self.regex.ignores_case() == ignores_case_of(self.input)
        &&& self.regex.dot_all() == dot_all_of(self.input)
        &&& match (self.glob, self.input.glob) {
            (Some(g), Some(p)) => g.source() == p@,
            (None, None) => true,
            _ => false,
        }
    }

    /// Builds the pattern and the glob filter of a search.  The pattern is
    /// built first; an invalid pattern or glob is an `InvalidInput` error
    /// carrying the builder's message.
    pub fn compile(input: &GrepSearchInput) -> (r: Result<GrepQuery, ToolError>)
        ensures
            match regex_build_error(input.pattern@, ignores_case_of(*input), dot_all_of(*input)) {
                Some(m) => r is Err && r->Err_0.kind == ErrorKind::InvalidInput
                    && r->Err_0.message@ == m,
                None => match input.glob {
                    Some(g) => match glob_pattern_error(g@) {
                        Some(m) => r is Err && r->Err_0.kind == ErrorKind::InvalidInput
                            && r->Err_0.message@ == m,
                        None => r is Ok && r->Ok_0.input() == *input,
                    },
                    None => r is Ok && r->Ok_0.input() == *input,
                },
            },
    {
        let ci = match input.case_insensitive {
            Some(b) => b,
            None => false,
        };
        let dot = match input.multiline {
            Some(b) => b,
            None => false,
        };
        let regex = match build_regex(input.pattern.as_str(), ci, dot) {
            Ok(x) => x,
            Err(m) => {
                return Err(ToolError::new(ErrorKind::InvalidInput, m));
            },
        };
        let glob = match &input.glob {
            Some(g) => match build_glob(g.as_str()) {
                Ok(x) => Some(x),
                Err(m) => {
                    return Err(ToolError::new(ErrorKind::InvalidInput, m));
                },
            },
            None => None,
        };
        Ok(GrepQuery { input: input.duplicate(), regex, glob })
    }

    /// Whether a file passes the glob and type filters.
    pub fn wants(&self, path: &str) -> (b: bool)
        ensures
            b == file_wanted(self.input(), path@),
    {
        proof {
            use_type_invariant(self);
        }
        if let Some(g) = &self.glob {
            if !glob_accepts(g, path) {
                return false;
            }
        }
        match &self.input.file_type {
            Some(t) => match extension_of(path) {
                Some(e) => str_eq(e.as_str(), t.as_str()),
                None => false,
            },
            None => true,
        }
    }

    /// The indices of the lines that match.
    fn line_hits(&self, ls: &Vec<Vec<char>>) -> (hits: Vec<usize>)
        ensures
            ints(hits@) == hits_upto(self.input(), views(ls@), ls.len() as nat),
            forall|k: int| 0 <= k < hits.len() ==> #[trigger] hits@[k] < ls.len(),
    {
        proof {
            use_type_invariant(self);
        }
        let mut hits: Vec<usize> = Vec::new();
        let mut j: usize = 0;
        assert(ints(hits@) =~= Seq::<int>::empty());
        while j < ls.len()
            invariant
                0 <= j <= ls.len(),
                ints(hits@) == hits_upto(self.input(), views(ls@), j as nat),
                forall|k: int| 0 <= k < hits.len() ==> #[trigger] hits@[k] < j,
                self.regex.source() == self.input.pattern@,
                self.regex.ignores_case() == ignores_case_of(self.input),
                self.regex.dot_all() == dot_all_of(self.input),
            decreases ls.len() - j,
        {
            let line = string_of(ls[j].as_slice());
            if regex_find(&self.regex, line.as_str()) {
                hits.push(j);
                assert(ints(hits@) =~= hits_upto(self.input(), views(ls@), j as nat).push(j as int));
            }
            j = j + 1;
        }
        hits
    }

    /// Appends the content lines of the window around the match at `idx`.
    fn push_window(
        &self,
        path: &str,
        ls: &Vec<Vec<char>>,
        idx: usize,
        out: &mut Vec<Vec<char>>,
    )
        requires
            idx < ls.len(),
            idx + after_of(self.input()) + 1 <= usize::MAX,
        ensures
            views(final(out)@) == views(old(out)@) + window(self.input(), path@, views(ls@), idx as int),
    {
        let context: usize = match self.input.context {
            Some(c) => c,
            None => match self.input.context_short {
                Some(c) => c,
                None => 0,
            },
        };
        let before: usize = match self.input.before {
            Some(b) => b,
            None => context,
        };
        let after: usize = match self.input.after {
            Some(a) => a,
            None => context,
        };
        let numbered = match self.input.line_numbers {
            Some(b) => b,
            None => true,
        };
        let start = if idx >= before {
            idx - before
        } else {
            0
        };
        let end = if idx + after + 1 <= ls.len() {
            idx + after + 1
        } else {
            ls.len()
        };
        let ghost w = window(self.input(), path@, views(ls@), idx as int);
        let ghost base = views(out@);
        let mut cur = start;
        assert(base + w.take(0) =~= base);
        while cur < end
            invariant
                start <= cur <= end || (end <= start && cur == start),
                start <= idx < end <= ls.len(),
                start == window_start(self.input(), idx as int),
                end == window_end(self.input(), views(ls@), idx as int),
                numbered == numbered_of(self.input()),
                w == window(self.input(), path@, views(ls@), idx as int),
                views(out@) == base + w.take(cur - start),
            decreases end - cur,
        {
            let mut line = chars_of(path);
            line.push(':');
            if numbered {
                let mut num = String::new();
                push_decimal(&mut num, (cur + 1) as u64);
                push_str(&mut num, ":");
                let mut nc = chars_of(num.as_str());
                line.append(&mut nc);
            }
            let mut body = crate::text::sub_chars(ls[cur].as_slice(), 0, ls[cur].len());
            assert(body@ =~= ls@[cur as int]@);
            line.append(&mut body);
            proof {
                reveal_strlit(":");
                assert(line@ =~= line_prefix(self.input(), path@, (cur + 1) as nat) + views(ls@)[cur as int]);
                assert(views(out@.push(line)) =~= views(out@).push(line@));
                assert(w.take(cur + 1 - start) =~= w.take(cur - start).push(line@));
            }
            out.push(line);
            cur = cur + 1;
        }
        assert(w.take(end - start) =~= w);
    }
}

impl GrepQuery {
    /// The number of matches one readable, wanted file contributes.
    fn file_matches(&self, path: &str, text: &str, is_count: bool) -> (n: usize)
        requires
            is_count == (mode_of(self.input()) == "count"@),
        ensures
            n as nat == file_step(self.input(), path@, text@).2,
    {
        proof {
            use_type_invariant(self);
        }
        if is_count {
            return regex_count(&self.regex, text);
        }
        let chars = chars_of(text);
        let ls = lines_of(chars.as_slice());
        let hits = self.line_hits(&ls);
        hits.len()
    }

    /// The number of matches a search over `files` finds, when it fits in
    /// `usize`.
    pub fn total_matches(&self, files: &Vec<SearchFile>) -> (r: Option<usize>)
        ensures
            match r {
                Some(n) => n as nat == tally(self.input(), files_view(files@)).2,
                None => tally(self.input(), files_view(files@)).2 > usize::MAX,
            },
    {
        let ghost fv = files_view(files@);
        let is_count = match &self.input.output_mode {
            Some(m) => str_eq(m.as_str(), "count"),
            None => false,
        };
        proof {
            reveal_strlit("count");
            reveal_strlit("files_with_matches");
            if self.input().output_mode is None {
                assert("files_with_matches"@[0] != "count"@[0]);
            }
        }
        let mut total: usize = 0;
        let mut i: usize = 0;
        assert(fv.take(0) =~= Seq::<(Seq<char>, Option<Seq<char>>)>::empty());
        while i < files.len()
            invariant
                0 <= i <= files.len(),
                fv == files_view(files@),
                is_count == (mode_of(self.input()) == "count"@),
                tally(self.input(), fv.take(i as int)).2 == total as nat,
            decreases files.len() - i,
        {
            assert(fv.take(i + 1).drop_last() =~= fv.take(i as int));
            assert(fv.take(i + 1).last() == fv[i as int]);
            let f = &files[i];
            if self.wants(f.path.as_str()) {
                if let Some(text) = &f.contents {
                    let n = self.file_matches(f.path.as_str(), text.as_str(), is_count);
                    match total.checked_add(n) {
                        Some(t) => {
                            total = t;
                        },
                        None => {
                            proof {
                                lemma_tally_grows(self.input(), fv, i + 1);
                            }
                            return None;
                        },
                    }
                }
            }
            i = i + 1;
        }
        assert(fv.take(files.len() as int) =~= fv);
        Some(total)
    }

    /// What one readable, wanted file contributes: whether it is listed,
    /// its content lines and its number of matches.
    fn scan_file(&self, path: &str, text: &str, is_count: bool, is_content: bool) -> (r: (
        bool,
        Vec<Vec<char>>,
        usize,
    ))
        requires
            is_count == (mode_of(self.input()) == "count"@),
            is_content == (mode_of(self.input()) == "content"@),
            is_content ==> hits_fit(self.input(), text@),
        ensures
            file_step(self.input(), path@, text@) == (r.0, views(r.1@), r.2 as nat),
    {
        proof {
            use_type_invariant(self);
        }
        let mut out: Vec<Vec<char>> = Vec::new();
        assert(views(out@) =~= Seq::<Seq<char>>::empty());
        if is_count {
            let c = regex_count(&self.regex, text);
            return (c > 0, out, c);
        }
        let chars = chars_of(text);
        let ls = lines_of(chars.as_slice());
        let hits = self.line_hits(&ls);
        if is_content {
            proof {
                let h = hits_upto(self.input(), lines(text@), lines(text@).len());
                assert(ints(hits@) == h);
                assert forall|m: int| 0 <= m < hits.len() implies #[trigger] hits@[m] + after_of(
                    self.input(),
                ) + 1 <= usize::MAX by {
                    assert(h[m] == hits@[m] as int);
                }
            }
            let mut k: usize = 0;
            assert(ints(hits@).take(0) =~= Seq::<int>::empty());
            while k < hits.len()
                invariant
                    0 <= k <= hits.len(),
                    views(ls@) == lines(text@),
                    forall|m: int|
                        0 <= m < hits.len() ==> #[trigger] hits@[m] + after_of(self.input()) + 1
                            <= usize::MAX,
                    forall|m: int| 0 <= m < hits.len() ==> #[trigger] hits@[m] < ls.len(),
                    views(out@) == windows(self.input(), path@, views(ls@), ints(hits@).take(k as int)),
                decreases hits.len() - k,
            {
                let ghost before = ints(hits@).take(k as int);
                assert(ints(hits@).take(k + 1).drop_last() =~= before);
                assert(ints(hits@).take(k + 1).last() == hits@[k as int] as int);
                self.push_window(path, &ls, hits[k], &mut out);
                k = k + 1;
            }
            assert(ints(hits@).take(hits.len() as int) =~= ints(hits@));
        }
        (hits.len() > 0, out, hits.len())
    }

    /// Searches the candidate files in order.  Files that the filters
    /// reject or that could not be read are skipped; the rest are matched
    /// line by line (or counted, in `count` mode), and the listed files and
    /// content lines are cut to `head_limit` after skipping `offset`.
    pub fn search(&self, files: &Vec<SearchFile>) -> (out: GrepSearchOutput)
        requires
            windows_fit(self.input(), files_view(files@)),
            tally(self.input(), files_view(files@)).2 <= usize::MAX,
        ensures
            grep_output_matches(out, self.input(), files_view(files@)),
    {
        let ghost fv = files_view(files@);
        let mode: String = match &self.input.output_mode {
            Some(m) => m.clone(),
            None => String::from_str("files_with_matches"),
        };
        let is_count = str_eq(mode.as_str(), "count");
        let is_content = str_eq(mode.as_str(), "content");
        let mut names: Vec<String> = Vec::new();
        let mut content: Vec<Vec<char>> = Vec::new();
        let mut total: usize = 0;
        let mut i: usize = 0;
        assert(fv.take(0) =~= Seq::<(Seq<char>, Option<Seq<char>>)>::empty());
        assert(strings_view(names@) =~= Seq::<Seq<char>>::empty());
        assert(views(content@) =~= Seq::<Seq<char>>::empty());
        while i < files.len()
            invariant
                0 <= i <= files.len(),
                fv == files_view(files@),
                mode@ == mode_of(self.input()),
                is_count == (mode_of(self.input()) == "count"@),
                is_content == (mode_of(self.input()) == "content"@),
                windows_fit(self.input(), fv),
                tally(self.input(), fv).2 <= usize::MAX,
                tally(self.input(), fv.take(i as int)) == (
                    strings_view(names@),
                    views(content@),
                    total as nat,
                ),
            decreases files.len() - i,
        {
            let ghost prev = fv.take(i as int);
            assert(fv.take(i + 1).drop_last() =~= prev);
            assert(fv.take(i + 1).last() == fv[i as int]);
            proof {
                lemma_tally_grows(self.input(), fv, i + 1);
            }
            let f = &files[i];
            if self.wants(f.path.as_str()) {
                if let Some(text) = &f.contents {
                    proof {
                        if is_content {
                            assert(fv[i as int].1 is Some);
                        }
                    }
                    let (listed, more, n) = self.scan_file(f.path.as_str(), text.as_str(), is_count, is_content);
                    if listed {
                        let p = f.path.clone();
                        proof {
                            assert(strings_view(names@.push(p)) =~= strings_view(names@).push(p@));
                        }
                        names.push(p);
                    }
                    let ghost old_content = content@;
                    let ghost added = more@;
                    let mut more = more;
                    content.append(&mut more);
                    assert(views(content@) =~= views(old_content) + views(added));
                    total = total + n;
                }
            }
            i = i + 1;
        }
        assert(fv.take(files.len() as int) =~= fv);
        let ghost names_before = names@;
        let ghost content_before = content@;
        let (filenames, applied_limit, applied_offset) = apply_limit(
            names,
            self.input.head_limit,
            self.input.offset,
        );
        proof {
            lemma_limited_strings(names_before, self.input().head_limit, self.input().offset);
        }
        if is_content {
            let (lines_kept, limit, offset) = apply_limit(
                content,
                self.input.head_limit,
                self.input.offset,
            );
            proof {
                lemma_limited_views(content_before, self.input().head_limit, self.input().offset);
                assert(views(lines_kept@).subrange(0, lines_kept.len() as int) =~= views(
                    lines_kept@,
                ));
            }
            let joined = join_range(&lines_kept, 0, lines_kept.len(), "\n");
            let n = lines_kept.len();
            return GrepSearchOutput {
                mode: Some(mode),
                num_files: filenames.len(),
                filenames,
                num_lines: Some(n),
                content: Some(joined),
                num_matches: None,
                applied_limit: limit,
                applied_offset: offset,
            };
        }
        GrepSearchOutput {
            mode: Some(mode),
            num_files: filenames.len(),
            filenames,
            content: None,
            num_lines: None,
            num_matches: if is_count {
                Some(total)
            } else {
                None
            },
            applied_limit,
            applied_offset,
        }
    }
}

impl GrepQuery {
    /// Whether the windows of the matching lines of a content search over
    /// `files` all end within `usize`.
    pub fn windows_fit_check(&self, files: &Vec<SearchFile>) -> (b: bool)
        ensures
            b == windows_fit(self.input(), files_view(files@)),
    {
        let is_content = match &self.input.output_mode {
            Some(m) => str_eq(m.as_str(), "content"),
            None => false,
        };
        proof {
            reveal_strlit("content");
            reveal_strlit("files_with_matches");
            if self.input().output_mode is None {
                assert("files_with_matches"@[0] != "content"@[0]);
            }
        }
        if !is_content {
            return true;
        }
        let context: usize = match self.input.context {
            Some(c) => c,
            None => match self.input.context_short {
                Some(c) => c,
                None => 0,
            },
        };
        let after: usize = match self.input.after {
            Some(a) => a,
            None => context,
        };
        let ghost fv = files_view(files@);
        let mut i: usize = 0;
        while i < files.len()
            invariant
                0 <= i <= files.len(),
                fv == files_view(files@),
                after as nat == after_of(self.input()),
                mode_of(self.input()) == "content"@,
                forall|j: int|
                    0 <= j < i && #[trigger] fv[j].1 is Some && file_wanted(self.input(), fv[j].0)
                        ==> hits_fit(self.input(), fv[j].1->0),
            decreases files.len() - i,
        {
            if let Some(text) = &files[i].contents {
                if self.wants(files[i].path.as_str()) {
                    let chars = chars_of(text.as_str());
                    let ls = lines_of(chars.as_slice());
                    let hits = self.line_hits(&ls);
                    let ghost t = text@;
                    let ghost h = hits_upto(self.input(), lines(t), lines(t).len());
                    assert(fv[i as int].1 == Some(t));
                    assert(fv[i as int].0 == files@[i as int].path@);
                    assert(file_wanted(self.input(), fv[i as int].0));
                    assert(ints(hits@) == h);
                    let mut k: usize = 0;
                    while k < hits.len()
                        invariant
                            0 <= k <= hits.len(),
                            after as nat == after_of(self.input()),
                            ints(hits@) == h,
                            h == hits_upto(self.input(), lines(t), lines(t).len()),
                            i < files.len(),
                            fv == files_view(files@),
                            mode_of(self.input()) == "content"@,
                            fv[i as int].1 == Some(t),
                            file_wanted(self.input(), fv[i as int].0),
                            forall|m: int| 0 <= m < hits.len() ==> #[trigger] hits@[m] < ls.len(),
                            forall|m: int| 0 <= m < k ==> #[trigger] h[m] + after_of(self.input()) + 1 <= usize::MAX,
                        decreases hits.len() - k,
                    {
                        assert(h[k as int] == hits@[k as int] as int);
                        if after > usize::MAX - 1 - hits[k] {
                            assert(!hits_fit(self.input(), t));
                            assert(!windows_fit(self.input(), fv));
                            return false;
                        }
                        k = k + 1;
                    }
                    assert(hits_fit(self.input(), t));
                }
            }
            i = i + 1;
        }
        true
    }

    /// Runs the search unless a count or a context window of it would not
    /// fit in `usize` (`None`).
    pub fn search_checked(&self, files: &Vec<SearchFile>) -> (r: Option<GrepSearchOutput>)
        ensures
            if windows_fit(self.input(), files_view(files@)) && tally(
                self.input(),
                files_view(files@),
            ).2 <= usize::MAX {
                r matches Some(out) && grep_output_matches(out, self.input(), files_view(files@))
            } else {
                r is None
            },
    {
        if !self.windows_fit_check(files) {
            return None;
        }
        match self.total_matches(files) {
            Some(_) => Some(self.search(files)),
            None => None,
        }
    }
}

/// Compiles a search and runs it over the candidate files, unless a count
/// or a context window of it would not fit in `usize` (`None`).
pub fn grep_search_checked(input: &GrepSearchInput, files: &Vec<SearchFile>) -> (r: Option<
    Result<GrepSearchOutput, ToolError>,
>)
    ensures
        match regex_build_error(input.pattern@, ignores_case_of(*input), dot_all_of(*input)) {
            Some(m) => r matches Some(Err(e)) && e.kind == ErrorKind::InvalidInput && e.message@ == m,
            None => match input.glob {
                Some(g) if glob_pattern_error(g@) is Some => (r matches Some(Err(e)) && e.kind
                    == ErrorKind::InvalidInput && e.message@ == glob_pattern_error(g@)->0),
                _ => if windows_fit(*input, files_view(files@)) && tally(
                    *input,
                    files_view(files@),
                ).2 <= usize::MAX {
                    r matches Some(Ok(out)) && grep_output_matches(
                        out,
                        *input,
                        files_view(files@),
                    )
                } else {
                    r is None
                },
            },
        },
{
    let q = match GrepQuery::compile(input) {
        Ok(q) => q,
        Err(e) => {
            return Some(Err(e));
        },
    };
    match q.search_checked(files) {
        Some(out) => Some(Ok(out)),
        None => None,
    }
}

/// Compiles a search and runs it over the candidate files.
pub fn grep_search_files(input: &GrepSearchInput, files: &Vec<SearchFile>) -> (r: Result<
    GrepSearchOutput,
    ToolError,
>)
    requires
        windows_fit(*input, files_view(files@)),
        tally(*input, files_view(files@)).2 <= usize::MAX,
    ensures
        r is Ok <==> regex_build_error(input.pattern@, ignores_case_of(*input), dot_all_of(*input))
            is None && (input.glob matches Some(g) ==> glob_pattern_error(g@) is None),
        r matches Ok(out) ==> grep_output_matches(out, *input, files_view(files@)),
{
    let q = GrepQuery::compile(input)?;
    Ok(q.search(files))
}

/// A limit keeps at most its number of items (none when it is zero), taken
/// in order from the offset on, and is reported exactly when it cut items
/// off.
pub proof fn law_limit_keeps_a_window<T>(items: Seq<T>, limit: Option<usize>, offset: Option<usize>)
    ensures
        ({
            let (kept, shown_limit, shown_offset) = limited(items, limit, offset);
            let o: int = match offset {
                Some(x) => x as int,
                None => 0,
            };
            let l: int = match limit {
                Some(x) => x as int,
                None => 250,
            };
            &&& l > 0 ==> kept.len() <= l
            &&& forall|i: int| 0 <= i < kept.len() ==> #[trigger] kept[i] == items[o + i]
            &&& (shown_limit is Some <==> l > 0 && items.len() - o > l)
            &&& (shown_offset is Some <==> o > 0)
        }),
{
}

/// The lines shown around a match at line `idx` (0-based): from `before`
/// lines above it (else `context`, else `-C`, else none), clipped at the
/// first line, down to `after` lines below it (chosen the same way),
/// clipped at the last line; each line behind its path and, unless line
/// numbers are turned off, its 1-based number.
pub proof fn law_window_bounds(input: GrepSearchInput, path: Seq<char>, ls: Seq<Seq<char>>, idx: int)
    requires
        0 <= idx < ls.len(),
    ensures
        ({
            let ctx: int = match input.context {
                Some(c) => c as int,
                None => match input.context_short {
                    Some(c) => c as int,
                    None => 0,
                },
            };
            let b: int = match input.before {
                Some(x) => x as int,
                None => ctx,
            };
            let a: int = match input.after {
                Some(x) => x as int,
                None => ctx,
            };
            let start: int = if idx >= b { idx - b } else { 0 };
            let end: int = if idx + a + 1 <= ls.len() { idx + a + 1 } else { ls.len() as int };
            let w = window(input, path, ls, idx);
            &&& w.len() == end - start
            &&& start <= idx < end
            &&& forall|j: int|
                0 <= j < w.len() ==> #[trigger] w[j] == (if input.line_numbers == Some(false) {
                    path + ":"@
                } else {
                    path + ":"@ + decimal((start + j + 1) as nat) + ":"@
                }) + ls[start + j]
        }),
{
}

/// The matches of a file are the lines that match the pattern, each once,
/// in order: every index listed is a matching line, the indices increase,
/// and every matching line is listed.
pub proof fn law_hits_are_the_matching_lines(input: GrepSearchInput, ls: Seq<Seq<char>>, n: nat)
    requires
        n <= ls.len(),
    ensures
        ({
            let h = hits_upto(input, ls, n);
            &&& forall|k: int|
                0 <= k < h.len() ==> 0 <= #[trigger] h[k] < n && line_hit(input, ls[h[k]])
            &&& forall|k: int, m: int| 0 <= k < m < h.len() ==> #[trigger] h[k] < #[trigger] h[m]
            &&& forall|i: int|
                0 <= i < n && #[trigger] line_hit(input, ls[i]) ==> exists|k: int|
                    0 <= k < h.len() && #[trigger] h[k] == i
        }),
    decreases n,
{
    if n > 0 {
        law_hits_are_the_matching_lines(input, ls, (n - 1) as nat);
        let prev = hits_upto(input, ls, (n - 1) as nat);
        let h = hits_upto(input, ls, n);
        if line_hit(input, ls[n - 1]) {
            assert(h == prev.push(n - 1));
            assert(h[prev.len() as int] == n - 1);
            assert forall|i: int| 0 <= i < n && #[trigger] line_hit(input, ls[i]) implies exists|k: int|
                0 <= k < h.len() && #[trigger] h[k] == i by {
                if i < n - 1 {
                    let k = choose|k: int| 0 <= k < prev.len() && #[trigger] prev[k] == i;
                    assert(h[k] == i);
                } else {
                    assert(h[prev.len() as int] == i);
                }
            }
        } else {
            assert forall|i: int| 0 <= i < n && #[trigger] line_hit(input, ls[i]) implies exists|k: int|
                0 <= k < h.len() && #[trigger] h[k] == i by {
                let k = choose|k: int| 0 <= k < prev.len() && #[trigger] prev[k] == i;
                assert(h[k] == i);
            }
        }
    }
}

} // verus!
