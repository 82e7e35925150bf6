//! Searching a directory tree for files by name: what is searched, and in what order.

use std::collections::VecDeque;

use vstd::prelude::*;

use crate::matcher::{
    compile_glob, glob_error, glob_hits, is_portable, is_simple_glob, matches_glob, path_match, GlobText,
    Separators, TextGlob,
};
use crate::number::{decimal, size_text};
use crate::order::{sort_list, sorted_texts};
use crate::paths::{join_path, joined};
use crate::report::{inked, Ink, Report, SpanText};
use crate::text::{cat2, cat3, cat5, list_contains, same_text, str_starts_with, texts};

verus! {

/// How many directories deep a search goes below the one where it starts.
pub const MAX_DIRECTORY_DEPTH: usize = 100;

/// What a search that found something is marked with.
pub const CHECKMARK: &'static str = "✔";

/// What a search that found nothing is marked with.
pub const CROSS: &'static str = "✘";

/// The names that a search passes over, besides those that begin with a dot.
pub open spec fn default_ignored() -> Seq<Seq<char>> {
    seq![
        ".git"@,
        ".svn"@,
        ".hg"@,
        "node_modules"@,
        "target"@,
        "dist"@,
        "build"@,
        "out"@,
        ".next"@,
        "__pycache__"@,
        ".pytest_cache"@,
        ".mypy_cache"@,
        ".tox"@,
        ".venv"@,
        "venv"@,
        ".env"@,
    ]
}

/// The names that a search passes over, besides those that begin with a dot.
pub fn default_ignore_dirs() -> (res: Vec<String>)
    ensures
        texts(res@) == default_ignored(),
{
    let mut res: Vec<String> = Vec::new();
    res.push(String::from_str(".git"));
    res.push(String::from_str(".svn"));
    res.push(String::from_str(".hg"));
    res.push(String::from_str("node_modules"));
    res.push(String::from_str("target"));
    res.push(String::from_str("dist"));
    res.push(String::from_str("build"));
    res.push(String::from_str("out"));
    res.push(String::from_str(".next"));
    res.push(String::from_str("__pycache__"));
    res.push(String::from_str(".pytest_cache"));
    res.push(String::from_str(".mypy_cache"));
    res.push(String::from_str(".tox"));
    res.push(String::from_str(".venv"));
    res.push(String::from_str("venv"));
    res.push(String::from_str(".env"));
    assert(texts(res@) =~= default_ignored());
    res
}

/// What a path leads to.
#[derive(Debug, Clone, Copy, PartialEq, Eq, Structural)]
pub enum EntryKind {
    /// A file.
    File,
    /// A directory.
    Directory,
    /// Anything else.
    Other,
}

/// An entry of a directory.
#[derive(Debug)]
pub struct DirEntry {
    /// Its name; where that is not UTF-8, its lossy form.
    pub name: String,
    /// Whether the name is UTF-8.
    pub utf8: bool,
    /// What it is.
    pub kind: EntryKind,
}

/// What an entry holds.
pub struct EntryText {
    pub name: Seq<char>,
    pub utf8: bool,
    pub kind: EntryKind,
}

impl View for DirEntry {
    type V = EntryText;

    open spec fn view(&self) -> EntryText {
        EntryText { name: self.name@, utf8: self.utf8, kind: self.kind }
    }
}

/// A directory that is to be searched.
#[derive(Debug)]
pub struct PendingDir {
    /// Its path.
    pub path: String,
    /// Its path from the directory where the search began; empty for that one.
    pub relative: String,
    /// How many directories it lies below the one where the search began.
    pub depth: usize,
}

/// What a directory that is to be searched holds.
pub struct DirText {
    pub path: Seq<char>,
    pub relative: Seq<char>,
    pub depth: nat,
}

impl View for PendingDir {
    type V = DirText;

    open spec fn view(&self) -> DirText {
        DirText { path: self.path@, relative: self.relative@, depth: self.depth as nat }
    }
}

/// What directories that are to be searched hold.
pub open spec fn dir_list(v: Seq<PendingDir>) -> Seq<DirText> {
    Seq::new(v.len(), |i: int| v[i]@)
}

/// The directory where a search begins.
pub open spec fn root_dir(path: Seq<char>) -> DirText {
    DirText { path, relative: seq![], depth: 0 }
}

/// The directory where a search begins.
pub(crate) fn root_of(path: &str) -> (res: PendingDir)
    ensures
        res@ == root_dir(path@),
{
    let res = PendingDir { path: String::from_str(path), relative: String::new(), depth: 0 };
    assert(res.relative@ =~= seq![]);
    res
}

/// The path of an entry from the directory where the search began.
pub open spec fn entry_relative(dir: DirText, name: Seq<char>) -> Seq<char> {
    if dir.relative.len() == 0 {
        name
    } else {
        dir.relative + "/"@ + name
    }
}

/// The entry of a directory as a directory that is to be searched.
pub open spec fn child_dir(dir: DirText, name: Seq<char>) -> DirText {
    DirText {
        path: joined(dir.path, name),
        relative: entry_relative(dir, name),
        depth: dir.depth + 1,
    }
}

/// The entry of a directory as a directory that is to be searched.
pub(crate) fn child_of(dir: &PendingDir, name: &str) -> (res: PendingDir)
    requires
        dir.depth < usize::MAX,
    ensures
        res@ == child_dir(dir@, name@),
{
    let relative = if dir.relative.as_str().as_bytes().len() == 0 {
        String::from_str(name)
    } else {
        cat3(dir.relative.as_str(), "/", name)
    };
    proof {
        crate::complete::lemma_bytes_nonempty(dir.relative@);
    }
    PendingDir { path: join_path(dir.path.as_str(), name), relative, depth: dir.depth + 1 }
}

/// Whether a search passes over an entry.
pub open spec fn ignored(entry: EntryText) -> bool {
    entry.utf8 && (entry.name.len() > 0 && entry.name[0] == '.' || default_ignored().contains(
        entry.name,
    ))
}

/// Looking for files and directories by name.
#[derive(Debug)]
pub struct FsSearchName {
    /// The directory where the search begins.
    pub path: String,
    /// The path pattern that names are to match.
    pub pattern: String,
    /// Whether hidden entries, and those that are passed over by default, are searched too.
    pub include_ignored: bool,
}

/// The message for a path that does not exist.
pub open spec fn missing_path(path: Seq<char>) -> Seq<char> {
    "Path does not exist: '"@ + path + "'"@
}

/// The message for a pattern that is no path pattern.
pub open spec fn bad_glob(pattern: Seq<char>, error: Seq<char>) -> Seq<char> {
    "Invalid glob pattern '"@ + pattern + "': "@ + error
}

/// The announcement of a search.
pub open spec fn search_report(what: Seq<char>, pattern: Seq<char>, path: Seq<char>) -> Seq<
    SpanText,
> {
    seq![
        inked(Ink::Plain, "Searching for "@ + what + " matching pattern: "@),
        inked(Ink::Yellow, pattern),
        inked(Ink::Plain, " in "@),
        inked(Ink::Green, path),
        inked(Ink::Plain, "\n"@),
    ]
}

/// The announcement of a search.
pub(crate) fn announce(what: &str, pattern: &str, path: &str) -> (res: Report)
    ensures
        res@ == search_report(what@, pattern@, path@),
{
    let mut out = Report::new();
    let head = cat3("Searching for ", what, " matching pattern: ");
    out.say(Ink::Plain, head.as_str());
    out.say(Ink::Yellow, pattern);
    out.say(Ink::Plain, " in ");
    out.say(Ink::Green, path);
    out.say(Ink::Plain, "\n");
    assert(out@ =~= search_report(what@, pattern@, path@));
    out
}

/// A number of things: `one` for a single one, else the number and `many`.
pub open spec fn counted(n: nat, one: Seq<char>, many: Seq<char>) -> Seq<char> {
    if n == 1 {
        one
    } else {
        decimal(n) + many
    }
}

/// A number of things.
pub(crate) fn count_text(n: usize, one: &str, many: &str) -> (res: String)
    ensures
        res@ == counted(n as nat, one@, many@),
{
    if n == 1 {
        String::from_str(one)
    } else {
        let number = size_text(n);
        cat2(number.as_str(), many)
    }
}

/// The mark of a search that found `n` things.
pub open spec fn mark(n: nat) -> Seq<char> {
    if n == 0 {
        CROSS@
    } else {
        CHECKMARK@
    }
}

/// The colour in which it is said that `n` things were found.
pub open spec fn mark_ink(n: nat) -> Ink {
    if n == 0 {
        Ink::Yellow
    } else {
        Ink::Green
    }
}

/// What is said of a search that found `n` things, which are written as `count`.
pub open spec fn found_report(n: nat, count: Seq<char>) -> Seq<SpanText> {
    seq![
        inked(Ink::Plain, " "@),
        inked(mark_ink(n), mark(n)),
        inked(Ink::Plain, " Found: "@),
        inked(mark_ink(n), count),
    ]
}

/// What is said of a search that found `n` things, which are written as `count`.
pub(crate) fn say_found(n: usize, count: &str) -> (res: Report)
    ensures
        res@ == found_report(n as nat, count@),
{
    let mut out = Report::new();
    let ink = if n == 0 {
        Ink::Yellow
    } else {
        Ink::Green
    };
    let symbol: &str = if n == 0 {
        CROSS
    } else {
        CHECKMARK
    };
    out.say(Ink::Plain, " ");
    out.say(ink, symbol);
    out.say(Ink::Plain, " Found: ");
    out.say(ink, count);
    assert(out@ =~= found_report(n as nat, count@));
    out
}

/// The lines of the first `n` paths.
pub open spec fn path_lines(paths: Seq<Seq<char>>, n: int) -> Seq<char>
    decreases n,
{
    if n <= 0 {
        seq![]
    } else {
        path_lines(paths, n - 1) + ("  "@ + paths[n - 1] + "\n"@)
    }
}

/// The result of a search by name: how many paths were found, and which.
pub open spec fn name_results(pattern: Seq<char>, paths: Seq<Seq<char>>) -> Seq<char> {
    mark(paths.len()) + " Found: "@ + counted(paths.len(), "1 file"@, " files"@) + "\n\nFound "@
        + decimal(paths.len()) + " files matching pattern '"@ + pattern + "':\n"@ + path_lines(
        paths,
        paths.len() as int,
    )
}

/// Where a search by name stands.
#[verifier::ext_equal]
pub struct NameState {
    /// The directories that are still to be searched.
    pub pending: Seq<DirText>,
    /// The directory that is being searched.
    pub current: DirText,
    /// The paths that were found.
    pub found: Seq<Seq<char>>,
}

/// The position of the first directory that does not lie too deep, or the number of directories.
pub open spec fn first_shallow(pending: Seq<DirText>) -> int
    decreases pending.len(),
{
    if pending.len() == 0 || pending[0].depth <= MAX_DIRECTORY_DEPTH {
        0
    } else {
        1 + first_shallow(pending.skip(1))
    }
}

/// Where a search by name stands after it looked at an entry of the current directory, where
/// `by_path` says whether the pattern matches the path of the entry from the beginning of the
/// search, and `by_name` whether it matches its name.
pub open spec fn after_entry(
    state: NameState,
    include_ignored: bool,
    entry: EntryText,
    by_path: bool,
    by_name: bool,
) -> NameState {
    let dir = state.current;
    let path = joined(dir.path, entry.name);
    if !include_ignored && ignored(entry) {
        state
    } else if by_path {
        NameState { found: state.found.push(path), ..state }
    } else {
        NameState {
            found: if entry.utf8 && entry_relative(dir, entry.name) != entry.name && by_name {
                state.found.push(path)
            } else {
                state.found
            },
            pending: if entry.kind == EntryKind::Directory {
                state.pending.push(child_dir(dir, entry.name))
            } else {
                state.pending
            },
            ..state
        }
    }
}

/// A search by name that has begun.
#[derive(Debug)]
pub struct NameSearch {
    pattern: TextGlob,
    include_ignored: bool,
    pending: VecDeque<PendingDir>,
    current: PendingDir,
    found: Vec<String>,
}

impl View for NameSearch {
    type V = NameState;

    closed spec fn view(&self) -> NameState {
        NameState {
            pending: dir_list(self.pending@),
            current: self.current@,
            found: texts(self.found@),
        }
    }
}

impl FsSearchName {
    /// Whether the search can be made on this machine, where `exists` says whether its path does.
    pub fn validate(&self, exists: bool, machine: &Separators) -> (res: Result<(), String>)
        ensures
            exists && is_simple_glob(self.pattern@) ==> res is Ok,
            match res {
                Ok(_) => exists && glob_error(self.pattern@, machine@) is None,
                Err(e) => if !exists {
                    e@ == missing_path(self.path@)
                } else {
                    glob_error(self.pattern@, machine@) matches Some(m) && e@ == bad_glob(self.pattern@, m)
                },
            },
    {
        if !exists {
            return Err(cat3("Path does not exist: '", self.path.as_str(), "'"));
        }
        match compile_glob(self.pattern.as_str(), machine) {
            Ok(_) => Ok(()),
            Err(e) => {
                let head = cat3("Invalid glob pattern '", self.pattern.as_str(), "': ");
                Err(cat2(head.as_str(), e.as_str()))
            },
        }
    }

    /// The announcement of the search.
    pub fn queue_description(&self) -> (res: Report)
        ensures
            res@ == search_report("files"@, self.pattern@, self.path@),
    {
        announce("files", self.pattern.as_str(), self.path.as_str())
    }

    /// Begins the search at the directory `root`.
    pub fn invoke(&self, root: &str, machine: &Separators) -> (res: Result<NameSearch, String>)
        ensures
            is_simple_glob(self.pattern@) ==> res is Ok,
            match res {
                Ok(search) => {
                    &&& glob_error(self.pattern@, machine@) is None
                    &&& search.wf()
                    &&& search.glob() == (self.pattern@, machine@)
                    &&& search.all() == self.include_ignored
                    &&& search@ == (NameState {
                        pending: seq![root_dir(root@)],
                        current: root_dir(root@),
                        found: seq![],
                    })
                },
                Err(e) => glob_error(self.pattern@, machine@) == Some(e@),
            },
    {
        let pattern = match compile_glob(self.pattern.as_str(), machine) {
            Ok(pattern) => pattern,
            Err(e) => {
                return Err(e);
            },
        };
        let mut pending: VecDeque<PendingDir> = VecDeque::new();
        pending.push_back(root_of(root));
        let search = NameSearch {
            pattern,
            include_ignored: self.include_ignored,
            pending,
            current: root_of(root),
            found: Vec::new(),
        };
        assert(search@.pending =~= seq![root_dir(root@)]);
        assert(search@.found =~= seq![]);
        Ok(search)
    }

    /// Whether a search passes over an entry, unless it is told to look at all of them.
    pub fn should_ignore_entry(entry: &DirEntry) -> (res: bool)
        ensures
            res == ignored(entry@),
    {
        if !entry.utf8 {
            return false;
        }
        if str_starts_with(entry.name.as_str(), ".") {
            proof {
                reveal_strlit(".");
                assert(entry.name@.subrange(0, 1)[0] == '.');
            }
            return true;
        }
        proof {
            reveal_strlit(".");
            if entry.name@.len() > 0 && entry.name@[0] == '.' {
                assert(entry.name@.subrange(0, 1) =~= "."@);
            }
        }
        let names = default_ignore_dirs();
        list_contains(&names, entry.name.as_str())
    }

    /// The report of a search that found the files at `paths`, and its result.
    pub fn results(&self, paths: &Vec<String>) -> (res: (Report, String))
        ensures
            res.0@ == found_report(paths@.len(), counted(paths@.len(), "1 file"@, " files"@)),
            res.1@ == name_results(self.pattern@, texts(paths@)),
    {
        let n = paths.len();
        let count = count_text(n, "1 file", " files");
        let report = say_found(n, count.as_str());
        let symbol: &str = if n == 0 {
            CROSS
        } else {
            CHECKMARK
        };
        let number = size_text(n);
        let head = cat5(symbol, " Found: ", count.as_str(), "\n\nFound ", number.as_str());
        let mut out = cat5(
            head.as_str(),
            " files matching pattern '",
            self.pattern.as_str(),
            "':\n",
            "",
        );
        let ghost start = out@;
        proof {
            reveal_strlit("");
            assert(start =~= mark(n as nat) + " Found: "@ + counted(n as nat, "1 file"@, " files"@)
                + "\n\nFound "@ + decimal(n as nat) + " files matching pattern '"@ + self.pattern@
                + "':\n"@);
        }
        let mut i: usize = 0;
        assert(start + path_lines(texts(paths@), 0) =~= start);
        while i < n
            invariant
                i <= n,
                n == paths@.len(),
                out@ == start + path_lines(texts(paths@), i as int),
            decreases n - i,
        {
            let line = cat3("  ", paths[i].as_str(), "\n");
            out.append(line.as_str());
            i += 1;
            assert(out@ =~= start + path_lines(texts(paths@), i as int));
        }
        (report, out)
    }
}

impl NameSearch {
    /// The current directory does not lie too deep.
    pub closed spec fn wf(&self) -> bool {
        self.current.depth <= MAX_DIRECTORY_DEPTH
    }

    /// The pattern of the search, with the way in which paths are written.
    pub closed spec fn glob(&self) -> GlobText {
        self.pattern.glob()
    }

    /// Whether no entry is passed over.
    pub closed spec fn all(&self) -> bool {
        self.include_ignored
    }

    /// Goes on to the next directory that does not lie too deep, and gives its path.
    pub fn next_directory(&mut self) -> (res: Option<String>)
        requires
            old(self).wf(),
        ensures
            final(self).wf(),
            final(self).glob() == old(self).glob(),
            final(self).all() == old(self).all(),
            final(self)@.found == old(self)@.found,
            ({
                let pending = old(self)@.pending;
                let k = first_shallow(pending);
                match res {
                    Some(path) => {
                        &&& k < pending.len()
                        &&& path@ == pending[k].path
                        &&& final(self)@.current == pending[k]
                        &&& final(self)@.pending == pending.skip(k + 1)
                    },
                    None => {
                        &&& k == pending.len()
                        &&& final(self)@.current == old(self)@.current
                        &&& final(self)@.pending == Seq::<DirText>::empty()
                    },
                }
            }),
    {
        let ghost before = self@.pending;
        let ghost mut passed: int = 0;
        assert(before.skip(0) =~= before);
        loop
            invariant
                self.wf(),
                self.glob() == old(self).glob(),
                self.all() == old(self).all(),
                self@.found == old(self)@.found,
                self@.current == old(self)@.current,
                before == old(self)@.pending,
                0 <= passed <= before.len(),
                self@.pending == before.skip(passed),
                first_shallow(before) == passed + first_shallow(before.skip(passed)),
            decreases before.len() - passed,
        {
            let ghost rest = self.pending@;
            assert(dir_list(rest) == before.skip(passed));
            match self.pending.pop_front() {
                None => {
                    assert(before.skip(passed).len() == 0);
                    assert(dir_list(self.pending@) =~= Seq::<DirText>::empty());
                    return None;
                },
                Some(dir) => {
                    assert(dir@ == dir_list(rest)[0]);
                    assert(before.skip(passed).skip(1) =~= before.skip(passed + 1));
                    assert(dir_list(self.pending@) =~= dir_list(rest).skip(1));
                    if dir.depth <= MAX_DIRECTORY_DEPTH {
                        let path = dir.path.clone();
                        self.current = dir;
                        assert(self@.pending =~= before.skip(passed + 1));
                        return Some(path);
                    }
                    proof {
                        passed = passed + 1;
                    }
                },
            }
        }
    }

    /// Looks at an entry of the current directory.
    pub fn visit(&mut self, entry: &DirEntry)
        requires
            old(self).wf(),
        ensures
            final(self).wf(),
            final(self).glob() == old(self).glob(),
            final(self).all() == old(self).all(),
            final(self)@ == after_entry(
                old(self)@,
                old(self).all(),
                entry@,
                glob_hits(old(self).glob(), entry_relative(old(self)@.current, entry.name@)),
                glob_hits(old(self).glob(), entry.name@),
            ),
            is_portable(old(self).glob(), entry_relative(old(self)@.current, entry.name@)) && is_portable(
                old(self).glob(),
                entry.name@,
            ) ==> final(self)@ == after_entry(
                old(self)@,
                old(self).all(),
                entry@,
                path_match(old(self).glob().0, entry_relative(old(self)@.current, entry.name@)),
                path_match(old(self).glob().0, entry.name@),
            ),
    {
        let child = child_of(&self.current, entry.name.as_str());
        let by_path = matches_glob(&self.pattern, child.relative.as_str());
        let by_name = matches_glob(&self.pattern, entry.name.as_str());
        self.place(entry, by_path, by_name);
    }

    /// Takes an entry of the current directory in, where `by_path` says whether the pattern
    /// matches its path from the beginning of the search, and `by_name` whether it matches its
    /// name.
    pub fn place(&mut self, entry: &DirEntry, by_path: bool, by_name: bool)
        requires
            old(self).wf(),
        ensures
            final(self).wf(),
            final(self).glob() == old(self).glob(),
            final(self).all() == old(self).all(),
            final(self)@ == after_entry(old(self)@, old(self).all(), entry@, by_path, by_name),
    {
        let ghost state = self@;
        let ghost target = after_entry(state, self.include_ignored, entry@, by_path, by_name);
        if !self.include_ignored && FsSearchName::should_ignore_entry(entry) {
            return;
        }
        let child = child_of(&self.current, entry.name.as_str());
        let same = same_text(child.relative.as_str(), entry.name.as_str());
        if by_path {
            self.found.push(child.path.clone());
            assert(texts(self.found@) =~= state.found.push(child.path@));
            assert(self@ =~= target);
            return;
        }
        if entry.utf8 && !same && by_name {
            self.found.push(child.path.clone());
            assert(texts(self.found@) =~= state.found.push(child.path@));
        }
        if entry.kind == EntryKind::Directory {
            self.pending.push_back(child);
            assert(dir_list(self.pending@) =~= state.pending.push(
                child_dir(state.current, entry.name@),
            ));
        }
        assert(self@ =~= target);
    }

    /// The paths that were found, in order.
    pub fn matching_files(&self) -> (res: Vec<String>)
        ensures
            texts(res@) == sorted_texts(self@.found, true),
    {
        sort_list(&self.found, true)
    }
}

/// Whether a search for `glob` finds an entry of a directory.
pub open spec fn is_found(dir: DirText, glob: GlobText, all: bool, entry: EntryText) -> bool {
    &&& all || !ignored(entry)
    &&& glob_hits(glob, entry_relative(dir, entry.name)) || entry.utf8 && glob_hits(
        glob,
        entry.name,
    )
}

/// Whether a search for `glob` goes into an entry of a directory.
pub open spec fn is_entered(dir: DirText, glob: GlobText, all: bool, entry: EntryText) -> bool {
    &&& all || !ignored(entry)
    &&& entry.kind == EntryKind::Directory
    &&& !glob_hits(glob, entry_relative(dir, entry.name))
}

/// Where a search stands after it looked at the first `n` entries of the current directory.
pub open spec fn after_entries(
    state: NameState,
    glob: GlobText,
    all: bool,
    entries: Seq<EntryText>,
    n: int,
) -> NameState
    decreases n,
{
    if n <= 0 {
        state
    } else {
        after_entry(
            after_entries(state, glob, all, entries, n - 1),
            all,
            entries[n - 1],
            glob_hits(glob, entry_relative(state.current, entries[n - 1].name)),
            glob_hits(glob, entries[n - 1].name),
        )
    }
}

/// The entries of a directory that satisfy `pick`, in order.
pub open spec fn picked(entries: Seq<EntryText>, pick: spec_fn(EntryText) -> bool) -> Seq<
    EntryText,
> {
    entries.filter(pick)
}

/// A search looks at the entries of a directory one by one, and finds exactly those that it
/// does not pass over and whose path or name matches the pattern: their paths follow those that
/// were found before. It goes into exactly the directories that it does not pass over and whose
/// path does not match.
pub proof fn law_directory_is_searched(
    state: NameState,
    glob: GlobText,
    all: bool,
    entries: Seq<EntryText>,
)
    ensures
        ({
            let dir = state.current;
            let hits = picked(entries, |e: EntryText| is_found(dir, glob, all, e));
            let subs = picked(entries, |e: EntryText| is_entered(dir, glob, all, e));
            let end = after_entries(state, glob, all, entries, entries.len() as int);
            &&& end.current == dir
            &&& end.found == state.found + Seq::new(
                hits.len(),
                |i: int| joined(dir.path, hits[i].name),
            )
            &&& end.pending == state.pending + Seq::new(
                subs.len(),
                |i: int| child_dir(dir, subs[i].name),
            )
        }),
{
    lemma_searched(state, glob, all, entries, entries.len() as int);
    assert(entries.take(entries.len() as int) =~= entries);
}

/// What [`law_directory_is_searched`] says of the first `n` entries.
proof fn lemma_searched(
    state: NameState,
    glob: GlobText,
    all: bool,
    entries: Seq<EntryText>,
    n: int,
)
    requires
        0 <= n <= entries.len(),
    ensures
        ({
            let dir = state.current;
            let hits = picked(entries.take(n), |e: EntryText| is_found(dir, glob, all, e));
            let subs = picked(entries.take(n), |e: EntryText| is_entered(dir, glob, all, e));
            let end = after_entries(state, glob, all, entries, n);
            &&& end.current == dir
            &&& end.found == state.found + Seq::new(
                hits.len(),
                |i: int| joined(dir.path, hits[i].name),
            )
            &&& end.pending == state.pending + Seq::new(
                subs.len(),
                |i: int| child_dir(dir, subs[i].name),
            )
        }),
    decreases n,
{
    reveal(Seq::filter);
    let dir = state.current;
    let found = |e: EntryText| is_found(dir, glob, all, e);
    let entered = |e: EntryText| is_entered(dir, glob, all, e);
    let hits = picked(entries.take(n), found);
    let subs = picked(entries.take(n), entered);
    let end = after_entries(state, glob, all, entries, n);
    if n <= 0 {
        assert(end.found =~= state.found + Seq::new(
            hits.len(),
            |i: int| joined(dir.path, hits[i].name),
        ));
        assert(end.pending =~= state.pending + Seq::new(
            subs.len(),
            |i: int| child_dir(dir, subs[i].name),
        ));
    } else {
        lemma_searched(state, glob, all, entries, n - 1);
        assert(entries.take(n).drop_last() =~= entries.take(n - 1));
        let last = entries[n - 1];
        assert(entries.take(n).last() == last);
        let earlier_hits = picked(entries.take(n - 1), found);
        let earlier_subs = picked(entries.take(n - 1), entered);
        assert(hits == if found(last) {
            earlier_hits.push(last)
        } else {
            earlier_hits
        });
        assert(subs == if entered(last) {
            earlier_subs.push(last)
        } else {
            earlier_subs
        });
        assert(end.found =~= state.found + Seq::new(
            hits.len(),
            |i: int| joined(dir.path, hits[i].name),
        ));
        assert(end.pending =~= state.pending + Seq::new(
            subs.len(),
            |i: int| child_dir(dir, subs[i].name),
        ));
    }
}

} // verus!
