//! Searching the contents of files for a regular expression.

use std::collections::VecDeque;

use vstd::prelude::*;

use crate::fs_search::{
    announce, bad_glob, child_dir, child_of, count_text, counted, dir_list, entry_relative,
    found_report, ignored, mark, missing_path, root_dir, root_of, say_found, search_report,
    DirEntry, DirText, EntryKind, EntryText, FsSearchName, NameSearch, NameState, PendingDir,
    CHECKMARK, CROSS, MAX_DIRECTORY_DEPTH,
};
use crate::matcher::{
    compile, compile_glob, glob_error, glob_hits, is_match, is_portable, matches_glob, path_match,
    regex_error, regex_found, GlobText, PathStyle, Separators, TextGlob, TextRegex,
};
use crate::number::{byte_len, bytes_in, decimal, size_text};
use crate::paths::joined;
use crate::report::Report;
use crate::split::{lines, lines_of};
use crate::text::{cat2, cat3, cat4, cat5, starts_with_text, str_starts_with, texts};

verus! {

/// How many bytes of lines the result of a search through a directory may hold.
pub const MAX_RESPONSE_SIZE: usize = 30_720;

/// The size in bytes up to which files are searched, where nothing else is asked for.
pub const DEFAULT_MAX_FILE_SIZE: usize = 52_428_800;

/// How many lines of context a match may have on either side.
pub const MAX_CONTEXT_LINES: usize = 20;

/// A line of a result: its number in the file, from 1, and what is shown of it.
pub type FoundLine = (nat, Seq<char>);

/// What lines of a result hold.
pub open spec fn found_lines(v: Seq<(usize, String)>) -> Seq<FoundLine> {
    Seq::new(v.len(), |i: int| (v[i].0 as nat, v[i].1@))
}

/// The lines that were found in a file.
#[derive(Debug)]
pub struct FileMatches {
    /// The path of the file.
    pub path: String,
    /// The lines.
    pub lines: Vec<(usize, String)>,
}

/// What was found in a file: its path and the lines.
pub type FileText = (Seq<char>, Seq<FoundLine>);

impl View for FileMatches {
    type V = FileText;

    open spec fn view(&self) -> FileText {
        (self.path@, found_lines(self.lines@))
    }
}

/// What was found in files.
pub open spec fn file_list(v: Seq<FileMatches>) -> Seq<FileText> {
    Seq::new(v.len(), |i: int| v[i]@)
}

/// Looking for lines in files.
#[derive(Debug)]
pub struct FsSearchContent {
    /// The file, or the directory where the search begins.
    pub path: String,
    /// The regular expression that lines are to match.
    pub pattern: String,
    /// Whether hidden entries, and those that are passed over by default, are searched too.
    pub include_ignored: bool,
    /// How many lines before a match are shown.
    pub context_before: Option<usize>,
    /// How many lines after a match are shown.
    pub context_after: Option<usize>,
    /// The size in bytes up to which files are searched.
    pub max_file_size: Option<usize>,
    /// A path pattern that says which files are searched.
    pub file_path: Option<String>,
}

/// How many lines of context are shown, where `asked` were asked for.
pub open spec fn context_lines(asked: Option<usize>) -> nat {
    match asked {
        None => 0,
        Some(n) => if n <= MAX_CONTEXT_LINES {
            n as nat
        } else {
            MAX_CONTEXT_LINES as nat
        },
    }
}

/// The lines from `from` up to `to`, as context.
pub open spec fn context_block(text: Seq<Seq<char>>, from: int, to: int) -> Seq<FoundLine> {
    Seq::new(
        if from < to {
            (to - from) as nat
        } else {
            0
        },
        |k: int| ((from + k + 1) as nat, "[context] "@ + text[from + k]),
    )
}

/// What is shown of a match in line `i`, with its context.
pub open spec fn match_block(text: Seq<Seq<char>>, i: int, before: nat, after: nat) -> Seq<
    FoundLine,
> {
    if before == 0 && after == 0 {
        seq![((i + 1) as nat, text[i])]
    } else {
        context_block(
            text,
            if i >= before {
                i - before
            } else {
                0
            },
            i,
        ) + seq![((i + 1) as nat, "[match] "@ + text[i])] + context_block(
            text,
            i + 1,
            if i + 1 + after <= text.len() {
                i + 1 + after
            } else {
                text.len() as int
            },
        )
    }
}

/// What is shown of the matches among the first `n` lines, where `hits` says which lines match.
pub open spec fn match_blocks(
    text: Seq<Seq<char>>,
    hits: Seq<bool>,
    before: nat,
    after: nat,
    n: int,
) -> Seq<FoundLine>
    decreases n,
{
    if n <= 0 {
        seq![]
    } else if hits[n - 1] {
        match_blocks(text, hits, before, after, n - 1) + match_block(text, n - 1, before, after)
    } else {
        match_blocks(text, hits, before, after, n - 1)
    }
}

/// Which lines match an expression.
pub open spec fn line_hits(source: Seq<char>, text: Seq<Seq<char>>) -> Seq<bool> {
    Seq::new(text.len(), |i: int| regex_found(source, text[i]))
}

/// How many of the first `n` lines match.
pub open spec fn hit_count(hits: Seq<bool>, n: int) -> nat
    decreases n,
{
    if n <= 0 {
        0
    } else {
        hit_count(hits, n - 1) + (if hits[n - 1] {
            1nat
        } else {
            0nat
        })
    }
}

/// Adds the lines from `from` up to `to` as context.
fn add_context(out: &mut Vec<(usize, String)>, text: &Vec<String>, from: usize, to: usize)
    requires
        to <= text@.len(),
    ensures
        found_lines(final(out)@) == found_lines(old(out)@) + context_block(
            texts(text@),
            from as int,
            to as int,
        ),
{
    let ghost start = found_lines(out@);
    let mut j: usize = from;
    assert(found_lines(out@) =~= start + context_block(texts(text@), from as int, from as int));
    while j < to
        invariant
            from <= j,
            j <= to || to < from && j == from,
            to <= text@.len(),
            found_lines(out@) == start + context_block(texts(text@), from as int, j as int),
        decreases to - j,
    {
        let ghost prior = out@;
        let shown = cat2("[context] ", text[j].as_str());
        out.push((j + 1, shown));
        assert(found_lines(out@) =~= found_lines(prior).push(((j + 1) as nat, shown@)));
        j += 1;
        assert(found_lines(out@) =~= start + context_block(texts(text@), from as int, j as int));
    }
    assert(context_block(texts(text@), from as int, j as int) =~= context_block(
        texts(text@),
        from as int,
        to as int,
    ));
}

/// What is shown of the matches in a file, where `hits` says which of its lines match.
pub fn collect_matches(text: &Vec<String>, hits: &Vec<bool>, before: usize, after: usize) -> (res:
    Vec<(usize, String)>)
    requires
        hits@.len() == text@.len(),
    ensures
        found_lines(res@) == match_blocks(
            texts(text@),
            hits@,
            before as nat,
            after as nat,
            text@.len() as int,
        ),
{
    let mut out: Vec<(usize, String)> = Vec::new();
    let ghost t = texts(text@);
    let n = text.len();
    let mut i: usize = 0;
    assert(found_lines(out@) =~= seq![]);
    while i < n
        invariant
            i <= n,
            n == text@.len(),
            hits@.len() == n,
            t == texts(text@),
            found_lines(out@) == match_blocks(t, hits@, before as nat, after as nat, i as int),
        decreases n - i,
    {
        if hits[i] {
            let ghost prior = found_lines(out@);
            let ghost block = match_block(t, i as int, before as nat, after as nat);
            if before > 0 || after > 0 {
                let start: usize = if i >= before {
                    i - before
                } else {
                    0
                };
                add_context(&mut out, text, start, i);
                let ghost middle = out@;
                let shown = cat2("[match] ", text[i].as_str());
                out.push((i + 1, shown));
                assert(found_lines(out@) =~= found_lines(middle).push(((i + 1) as nat, shown@)));
                let end: usize = if n - i - 1 <= after {
                    n
                } else {
                    i + 1 + after
                };
                add_context(&mut out, text, i + 1, end);
                assert(found_lines(out@) =~= prior + block);
            } else {
                let ghost middle = out@;
                out.push((i + 1, text[i].clone()));
                assert(found_lines(out@) =~= found_lines(middle).push(((i + 1) as nat, t[i as int])));
                assert(found_lines(out@) =~= prior + block);
            }
        }
        i += 1;
    }
    out
}

/// Whether a line of a result counts as a match.
pub open spec fn is_actual(line: FoundLine) -> bool {
    !starts_with_text(line.1, "[context]"@)
}

/// How many of the first `n` lines of a result count as matches.
pub open spec fn actual_count(found: Seq<FoundLine>, n: int) -> nat
    decreases n,
{
    if n <= 0 {
        0
    } else {
        actual_count(found, n - 1) + (if is_actual(found[n - 1]) {
            1nat
        } else {
            0nat
        })
    }
}

/// A line of a result as it is written.
pub open spec fn line_text(line: FoundLine) -> Seq<char> {
    "  "@ + decimal(line.0) + ": "@ + line.1 + "\n"@
}

/// The first `n` lines of a result as they are written.
pub open spec fn line_texts(found: Seq<FoundLine>, n: int) -> Seq<char>
    decreases n,
{
    if n <= 0 {
        seq![]
    } else {
        line_texts(found, n - 1) + line_text(found[n - 1])
    }
}

/// The number of bytes that the first `n` lines of a result take.
pub open spec fn lines_size(found: Seq<FoundLine>, n: int) -> nat
    decreases n,
{
    if n <= 0 {
        0
    } else {
        lines_size(found, n - 1) + byte_len(line_text(found[n - 1]))
    }
}

/// The number of bytes that the lines of a result take.
pub open spec fn result_size(found: Seq<FoundLine>) -> nat {
    lines_size(found, found.len() as int)
}

/// How many lines of a result count as matches.
pub open spec fn result_count(found: Seq<FoundLine>) -> nat {
    actual_count(found, found.len() as int)
}

/// The largest number of the machine, or `n` where that is smaller.
pub open spec fn capped(n: nat) -> nat {
    if n <= usize::MAX {
        n
    } else {
        usize::MAX as nat
    }
}

/// One line of a result as it is written.
fn one_line(number: usize, shown: &str) -> (res: String)
    ensures
        res@ == line_text((number as nat, shown@)),
{
    let number = size_text(number);
    cat5("  ", number.as_str(), ": ", shown, "\n")
}

/// What is found in a file, for each file.
pub open spec fn file_texts(files: Seq<FileText>, n: int) -> Seq<char>
    decreases n,
{
    if n <= 0 {
        seq![]
    } else {
        file_texts(files, n - 1) + (files[n - 1].0 + ":\n"@ + line_texts(
            files[n - 1].1,
            files[n - 1].1.len() as int,
        ) + "\n"@)
    }
}

/// The result of a search through contents.
pub open spec fn content_results(files: Seq<FileText>, truncated: bool, total: nat) -> Seq<char> {
    let head = mark(total) + " Found: "@ + counted(total, "1 match"@, " matches"@) + "\n\n"@;
    if files.len() == 0 {
        head + "Found matches in 0 files:"@
    } else {
        head + "Found matches in "@ + decimal(files.len()) + " files:\n\n"@ + file_texts(
            files,
            files.len() as int,
        ) + (if truncated {
            "\n[Results truncated - response size limit reached]"@
        } else {
            seq![]
        })
    }
}

/// The message for a number of lines of context that is too large.
pub open spec fn bad_context(what: Seq<char>, n: nat) -> Seq<char> {
    "Invalid value for "@ + what + ": '"@ + decimal(n) + "'. Must be <= 20"@
}

/// The message for a pattern that is no regular expression.
pub open spec fn bad_regex(pattern: Seq<char>, error: Seq<char>) -> Seq<char> {
    "Invalid regex pattern '"@ + pattern + "': "@ + error
}

/// The message for a path that cannot be searched.
pub open spec fn neither_message(path: Seq<char>) -> Seq<char> {
    "Path '"@ + path + "' is neither a file nor a directory"@
}

/// The first reason why a search cannot be made, if there is one.
pub open spec fn content_refusal(
    search: FsSearchContent,
    exists: bool,
    style: PathStyle,
) -> Option<Seq<char>> {
    let glob = match search.file_path {
        None => None,
        Some(p) => glob_error(p@, style),
    };
    if !exists {
        Some(missing_path(search.path@))
    } else if search.context_before matches Some(n) && n > MAX_CONTEXT_LINES {
        Some(bad_context("context_before"@, search.context_before->0 as nat))
    } else if search.context_after matches Some(n) && n > MAX_CONTEXT_LINES {
        Some(bad_context("context_after"@, search.context_after->0 as nat))
    } else {
        match regex_error(search.pattern@) {
            Some(e) => Some(bad_regex(search.pattern@, e)),
            None => match glob {
                Some(e) => Some(bad_glob(search.file_path->0@, e)),
                None => None,
            },
        }
    }
}

/// Where a search through contents stands.
#[verifier::ext_equal]
pub struct ContentState {
    /// The directories that are still to be searched.
    pub pending: Seq<DirText>,
    /// The directory that is being searched.
    pub current: DirText,
    /// What was found.
    pub files: Seq<FileText>,
    /// How many bytes the lines of `files` take.
    pub size: nat,
    /// How many matches were seen.
    pub matches: nat,
}

/// What a search is made with.
pub struct ContentRules {
    /// The regular expression.
    pub regex: Seq<char>,
    /// The path pattern for files, with the way in which paths are written.
    pub glob: Option<GlobText>,
    /// Whether no entry is passed over.
    pub all: bool,
    /// How many lines before a match are shown.
    pub before: nat,
    /// How many lines after a match are shown.
    pub after: nat,
    /// The size in bytes up to which files are searched.
    pub max_file_size: nat,
}

/// What a search is made with.
pub open spec fn content_rules(search: FsSearchContent, style: PathStyle) -> ContentRules {
    ContentRules {
        regex: search.pattern@,
        glob: match search.file_path {
            None => None,
            Some(p) => Some((p@, style)),
        },
        all: search.include_ignored,
        before: context_lines(search.context_before),
        after: context_lines(search.context_after),
        max_file_size: largest_file(search),
    }
}

/// The size in bytes up to which files are searched.
pub open spec fn largest_file(search: FsSearchContent) -> nat {
    match search.max_file_size {
        Some(n) => n as nat,
        None => DEFAULT_MAX_FILE_SIZE as nat,
    }
}

/// Whether a file is searched, by its path and its name.
pub open spec fn file_accepted(glob: Option<GlobText>, dir: DirText, entry: EntryText) -> bool {
    match glob {
        None => true,
        Some(g) => glob_hits(g, entry_relative(dir, entry.name)) || glob_hits(
            g,
            if entry.utf8 {
                entry.name
            } else {
                ""@
            },
        ),
    }
}

/// What is to be done with an entry of a directory.
#[derive(Debug, PartialEq, Eq)]
pub enum EntryStep {
    /// The rest of the directory is left out.
    Stop,
    /// Nothing.
    Skip,
    /// The file at this path is to be searched.
    Search(String),
}

/// What is found in a file, or `None` where it is not searched: because it is too large, or
/// because its content is no text.
pub open spec fn file_result(rules: ContentRules, size: u64, content: Option<Seq<char>>) -> Option<
    Seq<FoundLine>,
> {
    if size > rules.max_file_size {
        None
    } else {
        match content {
            None => None,
            Some(c) => Some(
                match_blocks(
                    lines(c),
                    line_hits(rules.regex, lines(c)),
                    rules.before,
                    rules.after,
                    lines(c).len() as int,
                ),
            ),
        }
    }
}

/// What is found in a file.
pub open spec fn file_lines(found: Option<Vec<(usize, String)>>) -> Option<Seq<FoundLine>> {
    match found {
        None => None,
        Some(v) => Some(found_lines(v@)),
    }
}

/// Where a search stands after what was found in a file of the current directory was added.
pub open spec fn after_file(state: ContentState, path: Seq<char>, found: Seq<FoundLine>) -> ContentState {
    let counted = ContentState { matches: capped(state.matches + result_count(found)), ..state };
    if found.len() == 0 {
        state
    } else if state.size + result_size(found) > MAX_RESPONSE_SIZE {
        counted
    } else {
        ContentState {
            files: state.files.push((path, found)),
            size: state.size + result_size(found),
            ..counted
        }
    }
}

/// A search through contents that has begun.
#[derive(Debug)]
pub struct ContentSearch {
    regex: TextRegex,
    file_pattern: Option<TextGlob>,
    include_ignored: bool,
    before: usize,
    after: usize,
    max_file_size: usize,
    pending: VecDeque<PendingDir>,
    current: PendingDir,
    matches_by_file: Vec<FileMatches>,
    total_size: usize,
    total_matches: usize,
}

impl View for ContentSearch {
    type V = ContentState;

    closed spec fn view(&self) -> ContentState {
        ContentState {
            pending: dir_list(self.pending@),
            current: self.current@,
            files: file_list(self.matches_by_file@),
            size: self.total_size as nat,
            matches: self.total_matches as nat,
        }
    }
}

/// The number of bytes that the lines of the first `n` files take.
pub open spec fn files_size(files: Seq<FileText>, n: int) -> nat
    decreases n,
{
    if n <= 0 {
        0
    } else {
        files_size(files, n - 1) + result_size(files[n - 1].1)
    }
}

/// The first reason why a search cannot begin, if there is one; `kind` is what its path leads
/// to, or why that cannot be told.
pub open spec fn start_refusal(
    search: FsSearchContent,
    kind: Result<EntryKind, String>,
    style: PathStyle,
) -> Option<Seq<char>> {
    let glob = match search.file_path {
        None => None,
        Some(p) => glob_error(p@, style),
    };
    match regex_error(search.pattern@) {
        Some(e) => Some(e),
        None => match glob {
            Some(e) => Some(e),
            None => match kind {
                Err(e) => Some(e@),
                Ok(EntryKind::Other) => Some(neither_message(search.path@)),
                Ok(_) => None,
            },
        },
    }
}

/// Where a search stands when it begins at `root`.
pub open spec fn start_state(root: Seq<char>, kind: EntryKind) -> ContentState {
    ContentState {
        pending: if kind == EntryKind::Directory {
            seq![root_dir(root)]
        } else {
            seq![]
        },
        current: root_dir(root),
        files: seq![],
        size: 0,
        matches: 0,
    }
}

impl FsSearchContent {
    /// How many of the lines of a result count as matches: those that are no context.
    pub fn count_actual_matches(found: &Vec<(usize, String)>) -> (res: usize)
        ensures
            res == result_count(found_lines(found@)),
            res <= found@.len(),
    {
        let mut count: usize = 0;
        let ghost list = found_lines(found@);
        let mut i: usize = 0;
        while i < found.len()
            invariant
                i <= found@.len(),
                list == found_lines(found@),
                count == actual_count(list, i as int),
                count <= i,
            decreases found@.len() - i,
        {
            if !str_starts_with(found[i].1.as_str(), "[context]") {
                count += 1;
            }
            i += 1;
        }
        count
    }

    /// How many lines before a match are shown.
    pub fn context_before_lines(&self) -> (res: usize)
        ensures
            res == context_lines(self.context_before),
    {
        match self.context_before {
            None => 0,
            Some(n) => if n <= MAX_CONTEXT_LINES {
                n
            } else {
                MAX_CONTEXT_LINES
            },
        }
    }

    /// How many lines after a match are shown.
    pub fn context_after_lines(&self) -> (res: usize)
        ensures
            res == context_lines(self.context_after),
    {
        match self.context_after {
            None => 0,
            Some(n) => if n <= MAX_CONTEXT_LINES {
                n
            } else {
                MAX_CONTEXT_LINES
            },
        }
    }

    /// The size in bytes up to which files are searched.
    pub fn max_file_size_bytes(&self) -> (res: usize)
        ensures
            res == largest_file(*self),
    {
        match self.max_file_size {
            Some(n) => n,
            None => DEFAULT_MAX_FILE_SIZE,
        }
    }

    /// Whether the search can be made on this machine, where `exists` says whether its path does.
    pub fn validate(&self, exists: bool, machine: &Separators) -> (res: Result<(), String>)
        ensures
            match res {
                Ok(_) => content_refusal(*self, exists, machine@) is None,
                Err(e) => content_refusal(*self, exists, machine@) == Some(e@),
            },
    {
        if !exists {
            return Err(cat3("Path does not exist: '", self.path.as_str(), "'"));
        }
        if let Some(before) = self.context_before {
            if before > 20 {
                let n = size_text(before);
                return Err(
                    cat5(
                        "Invalid value for ",
                        "context_before",
                        ": '",
                        n.as_str(),
                        "'. Must be <= 20",
                    ),
                );
            }
        }
        if let Some(after) = self.context_after {
            if after > 20 {
                let n = size_text(after);
                return Err(
                    cat5(
                        "Invalid value for ",
                        "context_after",
                        ": '",
                        n.as_str(),
                        "'. Must be <= 20",
                    ),
                );
            }
        }
        if let Err(e) = compile(self.pattern.as_str()) {
            return Err(
                cat4("Invalid regex pattern '", self.pattern.as_str(), "': ", e.as_str()),
            );
        }
        if let Some(file_path) = &self.file_path {
            if let Err(e) = compile_glob(file_path.as_str(), machine) {
                return Err(cat4("Invalid glob pattern '", file_path.as_str(), "': ", e.as_str()));
            }
        }
        Ok(())
    }

    /// The announcement of the search.
    pub fn queue_description(&self) -> (res: Report)
        ensures
            res@ == search_report("content"@, self.pattern@, self.path@),
    {
        announce("content", self.pattern.as_str(), self.path.as_str())
    }

    /// Begins the search at `root`, where `kind` is what that path leads to, or why that cannot
    /// be told.
    pub fn invoke(
        &self,
        root: &str,
        kind: &Result<EntryKind, String>,
        machine: &Separators,
    ) -> (res: Result<ContentSearch, String>)
        ensures
            match res {
                Ok(search) => {
                    &&& start_refusal(*self, *kind, machine@) is None
                    &&& search.wf()
                    &&& search.rules() == content_rules(*self, machine@)
                    &&& search@ == start_state(root@, kind->Ok_0)
                },
                Err(e) => start_refusal(*self, *kind, machine@) == Some(e@),
            },
    {
        let regex = match compile(self.pattern.as_str()) {
            Ok(regex) => regex,
            Err(e) => {
                return Err(e);
            },
        };
        let file_pattern = match &self.file_path {
            None => None,
            Some(p) => match compile_glob(p.as_str(), machine) {
                Ok(g) => Some(g),
                Err(e) => {
                    return Err(e);
                },
            },
        };
        let mut pending: VecDeque<PendingDir> = VecDeque::new();
        match kind {
            Err(e) => {
                return Err(e.clone());
            },
            Ok(EntryKind::Other) => {
                return Err(
                    cat3("Path '", self.path.as_str(), "' is neither a file nor a directory"),
                );
            },
            Ok(EntryKind::File) => {},
            Ok(EntryKind::Directory) => {
                pending.push_back(root_of(root));
            },
        }
        let search = ContentSearch {
            regex,
            file_pattern,
            include_ignored: self.include_ignored,
            before: self.context_before_lines(),
            after: self.context_after_lines(),
            max_file_size: self.max_file_size_bytes(),
            pending,
            current: root_of(root),
            matches_by_file: Vec::new(),
            total_size: 0,
            total_matches: 0,
        };
        assert(search@ =~= start_state(root@, kind->Ok_0)) by {
            assert(search@.pending =~= start_state(root@, kind->Ok_0).pending);
            assert(search@.files =~= seq![]);
        }
        Ok(search)
    }

    /// The number of bytes that the lines of a result take.
    pub fn estimate_matches_size(found: &Vec<(usize, String)>) -> (res: usize)
        ensures
            res == capped(result_size(found_lines(found@))),
    {
        let mut size: usize = 0;
        let ghost list = found_lines(found@);
        let mut i: usize = 0;
        while i < found.len()
            invariant
                i <= found@.len(),
                list == found_lines(found@),
                size == capped(lines_size(list, i as int)),
            decreases found@.len() - i,
        {
            let line = one_line(found[i].0, found[i].1.as_str());
            assert(list[i as int] == (found@[i as int].0 as nat, found@[i as int].1@));
            size = size.saturating_add(bytes_in(line.as_str()));
            i += 1;
        }
        size
    }

    /// The result of a search that found `files`.
    pub fn format_content_results(
        files: &Vec<FileMatches>,
        truncated: bool,
        total_matches: usize,
    ) -> (res: String)
        ensures
            res@ == content_results(file_list(files@), truncated, total_matches as nat),
    {
        let count = count_text(total_matches, "1 match", " matches");
        let symbol: &str = if total_matches == 0 {
            CROSS
        } else {
            CHECKMARK
        };
        let head = cat4(symbol, " Found: ", count.as_str(), "\n\n");
        if files.len() == 0 {
            return cat2(head.as_str(), "Found matches in 0 files:");
        }
        let number = size_text(files.len());
        let mut out = cat4(head.as_str(), "Found matches in ", number.as_str(), " files:\n\n");
        let ghost start = out@;
        let ghost list = file_list(files@);
        let mut i: usize = 0;
        assert(start + file_texts(list, 0) =~= start);
        while i < files.len()
            invariant
                i <= files@.len(),
                list == file_list(files@),
                out@ == start + file_texts(list, i as int),
            decreases files@.len() - i,
        {
            let file = &files[i];
            let ghost prior = out@;
            assert(list[i as int] == file@);
            let name = cat2(file.path.as_str(), ":\n");
            out.append(name.as_str());
            let ghost found = found_lines(file.lines@);
            let mut j: usize = 0;
            assert(out@ + line_texts(found, 0) =~= out@);
            while j < file.lines.len()
                invariant
                    j <= file.lines@.len(),
                    found == found_lines(file.lines@),
                    out@ == prior + (file.path@ + ":\n"@) + line_texts(found, j as int),
                decreases file.lines@.len() - j,
            {
                let line = one_line(file.lines[j].0, file.lines[j].1.as_str());
                assert(found[j as int] == (file.lines@[j as int].0 as nat, file.lines@[j as int].1@));
                out.append(line.as_str());
                j += 1;
                assert(out@ =~= prior + (file.path@ + ":\n"@) + line_texts(found, j as int));
            }
            out.append("\n");
            i += 1;
            assert(out@ =~= start + file_texts(list, i as int));
        }
        if truncated {
            out.append("\n[Results truncated - response size limit reached]");
        }
        assert(out@ =~= content_results(list, truncated, total_matches as nat));
        out
    }
}

impl ContentSearch {
    /// The current directory does not lie too deep.
    pub closed spec fn wf(&self) -> bool {
        self.current.depth <= MAX_DIRECTORY_DEPTH
    }

    /// What the search is made with.
    pub closed spec fn rules(&self) -> ContentRules {
        ContentRules {
            regex: self.regex.source(),
            glob: match self.file_pattern {
                None => None,
                Some(g) => Some(g.glob()),
            },
            all: self.include_ignored,
            before: self.before as nat,
            after: self.after as nat,
            max_file_size: self.max_file_size as nat,
        }
    }

    /// Goes on to the next directory and gives its path, unless the result is full or the
    /// directory lies too deep: then the search is over.
    pub fn next_directory(&mut self) -> (res: Option<String>)
        requires
            old(self).wf(),
        ensures
            final(self).wf(),
            final(self).rules() == old(self).rules(),
            ({
                let state = old(self)@;
                let over = state.pending.len() == 0 || state.size >= MAX_RESPONSE_SIZE
                    || state.pending[0].depth > MAX_DIRECTORY_DEPTH;
                match res {
                    Some(path) => {
                        &&& !over
                        &&& path@ == state.pending[0].path
                        &&& final(self)@ == (ContentState {
                            pending: state.pending.skip(1),
                            current: state.pending[0],
                            ..state
                        })
                    },
                    None => {
                        &&& over
                        &&& final(self)@ == (ContentState { pending: seq![], ..state })
                    },
                }
            }),
    {
        let ghost state = self@;
        let ghost rest = self.pending@;
        match self.pending.pop_front() {
            None => {
                assert(self@ =~= (ContentState { pending: seq![], ..state }));
                None
            },
            Some(dir) => {
                assert(dir@ == state.pending[0]);
                assert(dir_list(self.pending@) =~= dir_list(rest).skip(1));
                if self.total_size >= MAX_RESPONSE_SIZE || dir.depth > MAX_DIRECTORY_DEPTH {
                    self.pending = VecDeque::new();
                    assert(self@.pending =~= seq![]);
                    return None;
                }
                let path = dir.path.clone();
                self.current = dir;
                Some(path)
            },
        }
    }

    /// Whether a file of the current directory is searched, by its path and its name.
    pub fn accepts(&self, entry: &DirEntry) -> (res: bool)
        requires
            self.wf(),
        ensures
            res == file_accepted(self.rules().glob, self@.current, entry@),
            entry.utf8 ==> (self.rules().glob matches Some(g) ==> (is_portable(
                g,
                entry_relative(self@.current, entry.name@),
            ) && is_portable(g, entry.name@) ==> res == (path_match(
                g.0,
                entry_relative(self@.current, entry.name@),
            ) || path_match(g.0, entry.name@)))),
    {
        match &self.file_pattern {
            None => true,
            Some(g) => {
                let child = child_of(&self.current, entry.name.as_str());
                let name: &str = if entry.utf8 {
                    entry.name.as_str()
                } else {
                    ""
                };
                matches_glob(g, child.relative.as_str()) || matches_glob(g, name)
            },
        }
    }

    /// What is to be done with an entry of the current directory.
    pub fn visit(&mut self, entry: &DirEntry) -> (res: EntryStep)
        requires
            old(self).wf(),
        ensures
            final(self).wf(),
            final(self).rules() == old(self).rules(),
            step_holds(
                old(self)@,
                old(self).rules().all,
                entry@,
                file_accepted(old(self).rules().glob, old(self)@.current, entry@),
                final(self)@,
                res,
            ),
    {
        let accepted = self.accepts(entry);
        self.step(entry, accepted)
    }

    /// What is to be done with an entry of the current directory, where `accepted` says whether
    /// it is searched if it is a file.
    pub fn step(&mut self, entry: &DirEntry, accepted: bool) -> (res: EntryStep)
        requires
            old(self).wf(),
        ensures
            final(self).wf(),
            final(self).rules() == old(self).rules(),
            step_holds(old(self)@, old(self).rules().all, entry@, accepted, final(self)@, res),
    {
        let ghost state = self@;
        if self.total_size >= MAX_RESPONSE_SIZE {
            return EntryStep::Stop;
        }
        if !self.include_ignored && FsSearchName::should_ignore_entry(entry) {
            return EntryStep::Skip;
        }
        let child = child_of(&self.current, entry.name.as_str());
        match entry.kind {
            EntryKind::File => {
                if accepted {
                    EntryStep::Search(child.path)
                } else {
                    EntryStep::Skip
                }
            },
            EntryKind::Directory => {
                self.pending.push_back(child);
                assert(dir_list(self.pending@) =~= state.pending.push(
                    child_dir(state.current, entry.name@),
                ));
                EntryStep::Skip
            },
            EntryKind::Other => EntryStep::Skip,
        }
    }

    /// Whether a file of `size` bytes is read.
    pub fn should_read(&self, size: u64) -> (res: bool)
        ensures
            res == (size <= self.rules().max_file_size),
    {
        size <= self.max_file_size as u64
    }

    /// What is found in a file of `size` bytes, whose content is `content` if it is text.
    pub fn search_file_content(&self, size: u64, content: &Option<String>) -> (res: Option<
        Vec<(usize, String)>,
    >)
        ensures
            file_lines(res) == file_result(
                self.rules(),
                size,
                match *content {
                    None => None,
                    Some(c) => Some(c@),
                },
            ),
    {
        if !self.should_read(size) {
            return None;
        }
        match content {
            None => None,
            Some(c) => {
                let text = lines_of(c.as_str());
                let ghost t = texts(text@);
                let mut hits: Vec<bool> = Vec::new();
                let mut i: usize = 0;
                while i < text.len()
                    invariant
                        i <= text@.len(),
                        t == texts(text@),
                        hits@.len() == i,
                        forall|j: int|
                            0 <= j < i ==> #[trigger] hits@[j] == regex_found(
                                self.rules().regex,
                                t[j],
                            ),
                    decreases text@.len() - i,
                {
                    hits.push(is_match(&self.regex, text[i].as_str()));
                    i += 1;
                }
                assert(hits@ =~= line_hits(self.rules().regex, t));
                Some(collect_matches(&text, &hits, self.before, self.after))
            },
        }
    }

    /// Adds what was found in a file of the current directory, and says whether the rest of the
    /// directory is searched too.
    pub fn add_matches(&mut self, path: &str, found: Option<Vec<(usize, String)>>) -> (res: bool)
        requires
            old(self).wf(),
        ensures
            final(self).wf(),
            final(self).rules() == old(self).rules(),
            match file_lines(found) {
                None => res && final(self)@ == old(self)@,
                Some(list) => {
                    &&& res == (list.len() == 0 || old(self)@.size + result_size(list)
                        <= MAX_RESPONSE_SIZE)
                    &&& final(self)@ == after_file(old(self)@, path@, list)
                },
            },
    {
        let ghost state = self@;
        match found {
            None => true,
            Some(list) => {
                if list.len() == 0 {
                    return true;
                }
                let count = FsSearchContent::count_actual_matches(&list);
                self.total_matches = self.total_matches.saturating_add(count);
                let size = FsSearchContent::estimate_matches_size(&list);
                if self.total_size.saturating_add(size) > MAX_RESPONSE_SIZE {
                    assert(self@ =~= after_file(state, path@, found_lines(list@)));
                    return false;
                }
                self.total_size = self.total_size + size;
                let one = FileMatches { path: String::from_str(path), lines: list };
                let ghost shown = one@;
                self.matches_by_file.push(one);
                assert(file_list(self.matches_by_file@) =~= state.files.push(shown));
                assert(self@ =~= after_file(state, path@, shown.1));
                true
            },
        }
    }

    /// Adds what was found in the one file that is searched.
    pub fn add_only_file(&mut self, path: &str, found: Option<Vec<(usize, String)>>)
        requires
            old(self).wf(),
        ensures
            final(self).wf(),
            final(self).rules() == old(self).rules(),
            match file_lines(found) {
                None => final(self)@ == old(self)@,
                Some(list) => final(self)@ == after_only_file(old(self)@, path@, list),
            },
    {
        let ghost state = self@;
        match found {
            None => {},
            Some(list) => {
                if list.len() > 0 {
                    let count = FsSearchContent::count_actual_matches(&list);
                    self.total_matches = self.total_matches.saturating_add(count);
                    let size = FsSearchContent::estimate_matches_size(&list);
                    self.total_size = self.total_size.saturating_add(size);
                    let one = FileMatches { path: String::from_str(path), lines: list };
                    let ghost shown = one@;
                    self.matches_by_file.push(one);
                    assert(file_list(self.matches_by_file@) =~= state.files.push(shown));
                    assert(self@ =~= after_only_file(state, path@, shown.1));
                }
            },
        }
    }

    /// The report of the search, and its result.
    pub fn results(&self) -> (res: (Report, String))
        ensures
            res.0@ == found_report(
                self@.matches,
                counted(self@.matches, "1 match"@, " matches"@),
            ),
            res.1@ == content_results(
                self@.files,
                self@.size >= MAX_RESPONSE_SIZE,
                self@.matches,
            ),
    {
        let count = count_text(self.total_matches, "1 match", " matches");
        let report = say_found(self.total_matches, count.as_str());
        let text = FsSearchContent::format_content_results(
            &self.matches_by_file,
            self.total_size >= MAX_RESPONSE_SIZE,
            self.total_matches,
        );
        (report, text)
    }
}

/// Where a search stands after what was found in the one file that is searched was added.
pub open spec fn after_only_file(state: ContentState, path: Seq<char>, found: Seq<FoundLine>) -> ContentState {
    if found.len() == 0 {
        state
    } else {
        ContentState {
            files: state.files.push((path, found)),
            size: capped(state.size + capped(result_size(found))),
            matches: capped(state.matches + result_count(found)),
            ..state
        }
    }
}

/// Whether `step` is what is to be done with an entry of the current directory, and `next` is
/// where the search stands then.
pub open spec fn step_holds(
    state: ContentState,
    all: bool,
    entry: EntryText,
    accepted: bool,
    next: ContentState,
    step: EntryStep,
) -> bool {
    if state.size >= MAX_RESPONSE_SIZE {
        step is Stop && next == state
    } else if !all && ignored(entry) {
        step is Skip && next == state
    } else {
        match entry.kind {
            EntryKind::File => {
                &&& next == state
                &&& if accepted {
                    step matches EntryStep::Search(path) && path@ == joined(
                        state.current.path,
                        entry.name,
                    )
                } else {
                    step is Skip
                }
            },
            EntryKind::Directory => {
                &&& step is Skip
                &&& next == (ContentState {
                    pending: state.pending.push(child_dir(state.current, entry.name)),
                    ..state
                })
            },
            EntryKind::Other => step is Skip && next == state,
        }
    }
}

/// The lines of context are never counted: a search with context finds as many matches in a file
/// as lines match. So does a search without context, unless a line that matches begins like a
/// line of context.
pub proof fn law_context_is_not_counted(
    text: Seq<Seq<char>>,
    hits: Seq<bool>,
    before: nat,
    after: nat,
)
    requires
        hits.len() == text.len(),
        before == 0 && after == 0 ==> forall|i: int|
            0 <= i < text.len() && hits[i] ==> !starts_with_text(#[trigger] text[i], "[context]"@),
    ensures
        result_count(match_blocks(text, hits, before, after, text.len() as int)) == hit_count(
            hits,
            text.len() as int,
        ),
{
    lemma_count(text, hits, before, after, text.len() as int);
}

/// Counting two results one after the other.
proof fn lemma_count_add(a: Seq<FoundLine>, b: Seq<FoundLine>, n: int)
    requires
        0 <= n <= b.len(),
    ensures
        actual_count(a + b, a.len() + n) == result_count(a) + actual_count(b, n),
    decreases n,
{
    if n == 0 {
        lemma_count_prefix(a, b, a.len() as int);
    } else {
        lemma_count_add(a, b, n - 1);
        assert((a + b)[a.len() + n - 1] == b[n - 1]);
    }
}

/// What follows does not matter to the count of what comes before.
proof fn lemma_count_prefix(a: Seq<FoundLine>, b: Seq<FoundLine>, n: int)
    requires
        0 <= n <= a.len(),
    ensures
        actual_count(a + b, n) == actual_count(a, n),
    decreases n,
{
    if n > 0 {
        lemma_count_prefix(a, b, n - 1);
        assert((a + b)[n - 1] == a[n - 1]);
    }
}

/// No line of context counts.
proof fn lemma_context_block(text: Seq<Seq<char>>, from: int, to: int, n: int)
    requires
        0 <= n <= context_block(text, from, to).len(),
    ensures
        actual_count(context_block(text, from, to), n) == 0,
    decreases n,
{
    if n > 0 {
        lemma_context_block(text, from, to, n - 1);
        reveal_strlit("[context]");
        reveal_strlit("[context] ");
        let line = context_block(text, from, to)[n - 1].1;
        assert(line == "[context] "@ + text[from + n - 1]);
        assert(line.subrange(0, 9) =~= "[context]"@);
    }
}

/// What [`law_context_is_not_counted`] says of the first `n` lines.
proof fn lemma_count(text: Seq<Seq<char>>, hits: Seq<bool>, before: nat, after: nat, n: int)
    requires
        hits.len() == text.len(),
        before == 0 && after == 0 ==> forall|i: int|
            0 <= i < text.len() && hits[i] ==> !starts_with_text(#[trigger] text[i], "[context]"@),
        0 <= n <= text.len(),
    ensures
        result_count(match_blocks(text, hits, before, after, n)) == hit_count(hits, n),
    decreases n,
{
    if n > 0 {
        lemma_count(text, hits, before, after, n - 1);
        if hits[n - 1] {
            let i = n - 1;
            let earlier = match_blocks(text, hits, before, after, i);
            let block = match_block(text, i, before, after);
            lemma_count_add(earlier, block, block.len() as int);
            if before == 0 && after == 0 {
                assert(!starts_with_text(text[i], "[context]"@));
                assert(block[0].1 == text[i]);
                assert(actual_count(block, 0) == 0);
                assert(actual_count(block, 1) == 1);
            } else {
                let from = if i >= before {
                    i - before
                } else {
                    0
                };
                let to = if i + 1 + after <= text.len() {
                    i + 1 + after
                } else {
                    text.len() as int
                };
                let one = seq![((i + 1) as nat, "[match] "@ + text[i])];
                let front = context_block(text, from, i);
                let back = context_block(text, i + 1, to);
                lemma_context_block(text, from, i, front.len() as int);
                lemma_context_block(text, i + 1, to, back.len() as int);
                reveal_strlit("[context]");
                reveal_strlit("[match] ");
                assert(one[0].1.subrange(0, 9)[1] == 'm' || one[0].1.len() < 9);
                assert("[context]"@[1] == 'c');
                assert(is_actual(one[0]));
                assert(actual_count(one, 0) == 0);
                assert(actual_count(one, 1) == 1);
                lemma_count_add(front, one, 1);
                lemma_count_add(front + one, back, back.len() as int);
            }
        }
    }
}

/// The lines of the files that a search through a directory shows take exactly as many bytes as
/// it counted, and never more than the limit: what is added to a result that fits leaves one
/// that fits.
pub proof fn law_response_fits(state: ContentState, path: Seq<char>, found: Seq<FoundLine>)
    requires
        state.size == files_size(state.files, state.files.len() as int),
        state.size <= MAX_RESPONSE_SIZE,
    ensures
        ({
            let next = after_file(state, path, found);
            &&& next.size == files_size(next.files, next.files.len() as int)
            &&& next.size <= MAX_RESPONSE_SIZE
        }),
{
    let next = after_file(state, path, found);
    if next.files.len() > state.files.len() {
        lemma_files_prefix(state.files, (path, found), state.files.len() as int);
    }
}

/// What follows does not matter to the size of what comes before.
proof fn lemma_files_prefix(files: Seq<FileText>, more: FileText, n: int)
    requires
        0 <= n <= files.len(),
    ensures
        files_size(files.push(more), n) == files_size(files, n),
    decreases n,
{
    if n > 0 {
        lemma_files_prefix(files, more, n - 1);
    }
}

/// The tool that searches directories and files.
#[derive(Debug)]
pub enum FsSearch {
    /// Looking for files and directories by name.
    Name(FsSearchName),
    /// Looking for lines in files.
    Content(FsSearchContent),
}

/// A search that has begun.
#[derive(Debug)]
pub enum RunningSearch {
    /// A search by name.
    Name(NameSearch),
    /// A search through contents.
    Content(ContentSearch),
}

impl FsSearch {
    /// Whether the search can be made on this machine, where `exists` says whether its path does.
    pub fn validate(&self, exists: bool, machine: &Separators) -> (res: Result<(), String>)
        ensures
            match *self {
                FsSearch::Name(s) => match res {
                    Ok(_) => exists && glob_error(s.pattern@, machine@) is None,
                    Err(e) => if !exists {
                        e@ == missing_path(s.path@)
                    } else {
                        glob_error(s.pattern@, machine@) matches Some(m) && e@ == bad_glob(s.pattern@, m)
                    },
                },
                FsSearch::Content(s) => match res {
                    Ok(_) => content_refusal(s, exists, machine@) is None,
                    Err(e) => content_refusal(s, exists, machine@) == Some(e@),
                },
            },
    {
        match self {
            FsSearch::Name(s) => s.validate(exists, machine),
            FsSearch::Content(s) => s.validate(exists, machine),
        }
    }

    /// The announcement of the search.
    pub fn queue_description(&self) -> (res: Report)
        ensures
            res@ == match *self {
                FsSearch::Name(s) => search_report("files"@, s.pattern@, s.path@),
                FsSearch::Content(s) => search_report("content"@, s.pattern@, s.path@),
            },
    {
        match self {
            FsSearch::Name(s) => s.queue_description(),
            FsSearch::Content(s) => s.queue_description(),
        }
    }

    /// Begins the search at `root`, where `kind` is what that path leads to, or why that cannot
    /// be told.
    pub fn invoke(
        &self,
        root: &str,
        kind: &Result<EntryKind, String>,
        machine: &Separators,
    ) -> (res: Result<RunningSearch, String>)
        ensures
            match (*self, res) {
                (FsSearch::Name(s), Ok(run)) => {
                    &&& glob_error(s.pattern@, machine@) is None
                    &&& run matches RunningSearch::Name(search) && search.wf() && search.glob()
                        == (s.pattern@, machine@) && search.all() == s.include_ignored && search@ == (NameState {
                        pending: seq![root_dir(root@)],
                        current: root_dir(root@),
                        found: seq![],
                    })
                },
                (FsSearch::Name(s), Err(e)) => glob_error(s.pattern@, machine@) == Some(e@),
                (FsSearch::Content(s), Ok(run)) => {
                    &&& start_refusal(s, *kind, machine@) is None
                    &&& run matches RunningSearch::Content(search) && search.wf() && search.rules()
                        == content_rules(s, machine@) && search@ == start_state(root@, kind->Ok_0)
                },
                (FsSearch::Content(s), Err(e)) => start_refusal(s, *kind, machine@) == Some(e@),
            },
    {
        match self {
            FsSearch::Name(s) => match s.invoke(root, machine) {
                Ok(search) => Ok(RunningSearch::Name(search)),
                Err(e) => Err(e),
            },
            FsSearch::Content(s) => match s.invoke(root, kind, machine) {
                Ok(search) => Ok(RunningSearch::Content(search)),
                Err(e) => Err(e),
            },
        }
    }
}

} // verus!
