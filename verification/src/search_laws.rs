//! What the searches find: which entries, by which paths, and which lines.

use vstd::prelude::*;

use crate::content_search::{
    actual_count, after_file, after_only_file, content_refusal, content_rules, content_results,
    file_accepted, file_result, file_texts, hit_count, line_hits, line_texts, lines_size, match_block,
    match_blocks,
    result_count, result_size, start_refusal, start_state, step_holds, ContentState, EntryStep,
    FileText, FoundLine, FsSearchContent,
};
use crate::fs_search::{
    after_entry, child_dir, default_ignored, entry_relative, first_shallow, found_report, ignored,
    is_entered, is_found, name_results, path_lines, root_dir, DirText, EntryKind, EntryText, NameState,
};
use crate::matcher::{glob_error, glob_hits, regex_error, regex_found, GlobText, PathStyle};
use crate::number::{byte_len, decimal};
use crate::paths::joined;
use crate::report::Ink;
use crate::split::{join, lines};
use crate::text::starts_with_text;

verus! {

/// The directory that is reached from the beginning of a search by the first `n` names.
pub open spec fn reached(root: Seq<char>, names: Seq<Seq<char>>, n: int) -> DirText
    decreases n,
{
    if n <= 0 {
        root_dir(root)
    } else {
        child_dir(reached(root, names, n - 1), names[n - 1])
    }
}

proof fn lemma_reached(root: Seq<char>, names: Seq<Seq<char>>, n: int)
    requires
        0 <= n <= names.len(),
        forall|i: int| 0 <= i < names.len() ==> (#[trigger] names[i]).len() > 0,
    ensures
        reached(root, names, n).relative == join(names.take(n), "/"@),
        reached(root, names, n).depth == n,
        n > 0 ==> reached(root, names, n).relative.len() > 0,
    decreases n,
{
    if n > 0 {
        lemma_reached(root, names, n - 1);
        assert(names.take(n).drop_last() =~= names.take(n - 1));
        assert(names.take(n).last() == names[n - 1]);
        assert(names[n - 1].len() > 0);
        if n == 1 {
            assert(names.take(1)[0] == names[0]);
        }
    } else {
        assert(names.take(0) =~= seq![]);
    }
}

/// The path by which an entry is held against a pattern is its path from the beginning of the
/// search: the names of the directories that lead to it and its own, with a slash between each
/// two. The directory lies as deep as there are names.
pub proof fn law_path_from_the_beginning(root: Seq<char>, names: Seq<Seq<char>>, name: Seq<char>)
    requires
        forall|i: int| 0 <= i < names.len() ==> (#[trigger] names[i]).len() > 0,
    ensures
        ({
            let dir = reached(root, names, names.len() as int);
            &&& entry_relative(dir, name) == join(names.push(name), "/"@)
            &&& dir.depth == names.len()
        }),
{
    lemma_reached(root, names, names.len() as int);
    assert(names.take(names.len() as int) =~= names);
    assert(names.push(name).drop_last() =~= names);
}

/// An entry of the directory where a search begins is matched by its name, and one of a directory
/// there by the name of that directory, a slash, and its own name.
pub proof fn law_first_paths(root: Seq<char>, outer: Seq<char>, inner: Seq<char>)
    requires
        outer.len() > 0,
    ensures
        entry_relative(root_dir(root), inner) == inner,
        entry_relative(child_dir(root_dir(root), outer), inner) == outer + "/"@ + inner,
{
}

/// The path of an entry is that of its directory, a slash, and its name; a slash at the end of the
/// directory is not doubled.
pub proof fn law_entry_path(dir: DirText, name: Seq<char>)
    requires
        name.len() > 0,
        name[0] != '/',
        dir.path.len() > 0,
    ensures
        child_dir(dir, name).path == if dir.path.last() == '/' {
            dir.path + name
        } else {
            dir.path + "/"@ + name
        },
        child_dir(dir, name).depth == dir.depth + 1,
{
}

/// A search passes over the entries whose names begin with a dot, and over the directories of
/// tools; names that are no text are never passed over.
pub proof fn law_what_is_passed_over(entry: EntryText)
    ensures
        ignored(entry) <==> entry.utf8 && {
            ||| entry.name.len() > 0 && entry.name[0] == '.'
            ||| entry.name == "node_modules"@
            ||| entry.name == "target"@
            ||| entry.name == "dist"@
            ||| entry.name == "build"@
            ||| entry.name == "out"@
            ||| entry.name == "__pycache__"@
            ||| entry.name == "venv"@
        },
{
    let list = default_ignored();
    reveal_strlit(".git");
    reveal_strlit(".svn");
    reveal_strlit(".hg");
    reveal_strlit(".next");
    reveal_strlit(".pytest_cache");
    reveal_strlit(".mypy_cache");
    reveal_strlit(".tox");
    reveal_strlit(".venv");
    reveal_strlit(".env");
    assert(list[3] == "node_modules"@ && list[4] == "target"@ && list[5] == "dist"@ && list[6] == "build"@
        && list[7] == "out"@ && list[9] == "__pycache__"@ && list[14] == "venv"@);
    if list.contains(entry.name) {
        let i = choose|i: int| 0 <= i < list.len() && list[i] == entry.name;
        assert(i == 0 || i == 1 || i == 2 || i == 3 || i == 4 || i == 5 || i == 6 || i == 7 || i == 8
            || i == 9 || i == 10 || i == 11 || i == 12 || i == 13 || i == 14 || i == 15);
    }
}

/// A search by name that looks at an entry finds its path exactly if it is not passed over and the
/// pattern matches its path from the beginning or, for a name that is text, its name; it goes
/// into it later exactly if it is a directory that is not passed over and whose path does not
/// match. Nothing else changes.
pub proof fn law_entry_is_searched(
    state: NameState,
    all: bool,
    entry: EntryText,
    by_path: bool,
    by_name: bool,
)
    requires
        entry_relative(state.current, entry.name) == entry.name ==> by_path == by_name,
    ensures
        ({
            let next = after_entry(state, all, entry, by_path, by_name);
            let seen = all || !ignored(entry);
            let path = joined(state.current.path, entry.name);
            &&& next.current == state.current
            &&& next.found == if seen && (by_path || entry.utf8 && by_name) {
                state.found.push(path)
            } else {
                state.found
            }
            &&& next.pending == if seen && !by_path && entry.kind == EntryKind::Directory {
                state.pending.push(child_dir(state.current, entry.name))
            } else {
                state.pending
            }
        }),
{
}

/// A search by name goes on to the first of the waiting directories that lies no more than a hundred
/// directories deep.
pub proof fn law_next_directory(pending: Seq<DirText>)
    ensures
        0 <= first_shallow(pending) <= pending.len(),
        forall|i: int| 0 <= i < first_shallow(pending) ==> (#[trigger] pending[i]).depth > 100,
        first_shallow(pending) < pending.len() ==> pending[first_shallow(pending)].depth <= 100,
    decreases pending.len(),
{
    if pending.len() > 0 && pending[0].depth > 100 {
        let rest = pending.skip(1);
        law_next_directory(rest);
        let k = first_shallow(pending);
        assert forall|i: int| 0 <= i < k implies (#[trigger] pending[i]).depth > 100 by {
            if i > 0 {
                assert(rest[i - 1] == pending[i]);
            }
        }
        if k < pending.len() {
            assert(rest[k - 1] == pending[k]);
        }
    }
}

/// A result by name tells the number of files and the pattern, and then each path on a line of its
/// own.
pub proof fn law_name_result(pattern: Seq<char>, paths: Seq<Seq<char>>, one: Seq<char>)
    ensures
        paths.len() == 0 ==> name_results(pattern, paths) == "✘"@ + " Found: "@ + (decimal(0)
            + " files"@) + "\n\nFound "@ + decimal(0) + " files matching pattern '"@ + pattern
            + "':\n"@ + path_lines(paths, 0),
        paths.len() == 1 ==> name_results(pattern, paths) == "✔"@ + " Found: "@ + "1 file"@ + "\n\nFound "@
            + decimal(1) + " files matching pattern '"@ + pattern + "':\n"@ + path_lines(paths, 1),
        paths.len() > 1 ==> name_results(pattern, paths) == "✔"@ + " Found: "@ + (decimal(paths.len())
            + " files"@) + "\n\nFound "@ + decimal(paths.len()) + " files matching pattern '"@ + pattern
            + "':\n"@ + path_lines(paths, paths.len() as int),
        path_lines(paths, 0) == Seq::<char>::empty(),
        path_lines(paths.push(one), paths.len() as int + 1) == path_lines(paths, paths.len() as int) + ("  "@
            + one + "\n"@),
{
    lemma_path_lines(paths, one, paths.len() as int);
}

proof fn lemma_path_lines(paths: Seq<Seq<char>>, one: Seq<char>, n: int)
    requires
        0 <= n <= paths.len(),
    ensures
        path_lines(paths.push(one), n) == path_lines(paths, n),
    decreases n,
{
    if n > 0 {
        lemma_path_lines(paths, one, n - 1);
    }
}

/// The number of lines of context that are shown: as many as asked for, but twenty at most.
pub open spec fn shown_context(asked: Option<usize>) -> int {
    match asked {
        None => 0,
        Some(n) => if n > 20 {
            20
        } else {
            n as int
        },
    }
}

/// Whether lines of context are asked for.
pub open spec fn has_context(search: FsSearchContent) -> bool {
    shown_context(search.context_before) > 0 || shown_context(search.context_after) > 0
}

/// What is shown of line `j` of a file on account of a match in line `i`.
pub open spec fn shown_line(text: Seq<Seq<char>>, j: int, i: int, context: bool) -> FoundLine {
    (
        (j + 1) as nat,
        if !context {
            text[j]
        } else if j == i {
            "[match] "@ + text[j]
        } else {
            "[context] "@ + text[j]
        },
    )
}

/// A file in which one line matches: what is found are the lines from as many before it as were
/// asked for before a match, up to as many after it as were asked for after a match, as far as
/// the file has them, in order and with their numbers. The line itself is marked as the match
/// and the others as context; without context there are no marks.
pub proof fn law_one_match(
    search: FsSearchContent,
    style: PathStyle,
    size: u64,
    content: Seq<char>,
    i: int,
)
    requires
        match search.max_file_size {
            Some(max) => size <= max,
            None => size <= 52_428_800,
        },
        0 <= i < lines(content).len(),
        forall|j: int|
            0 <= j < lines(content).len() ==> (regex_found(search.pattern@, #[trigger] lines(content)[j])
                <==> j == i),
    ensures
        ({
            let text = lines(content);
            let b = shown_context(search.context_before);
            let a = shown_context(search.context_after);
            let from = if i - b < 0 {
                0
            } else {
                i - b
            };
            let to = if i + a + 1 > text.len() {
                text.len() as int
            } else {
                i + a + 1
            };
            &&& file_result(content_rules(search, style), size, Some(content)) matches Some(found)
            &&& found.len() == to - from
            &&& forall|k: int|
                0 <= k < found.len() ==> #[trigger] found[k] == shown_line(text, from + k, i, has_context(search))
        }),
{
    let text = lines(content);
    let rules = content_rules(search, style);
    let hits = line_hits(rules.regex, text);
    assert forall|j: int| 0 <= j < text.len() implies hits[j] == (j == i) by {
        assert(regex_found(search.pattern@, text[j]) <==> j == i);
    }
    lemma_no_match(text, hits, rules.before, rules.after, 0, i);
    lemma_no_match(text, hits, rules.before, rules.after, i + 1, text.len() as int);
    let found = match_blocks(text, hits, rules.before, rules.after, text.len() as int);
    assert(found =~= match_block(text, i, rules.before, rules.after));
}

/// Lines that do not match add nothing.
proof fn lemma_no_match(text: Seq<Seq<char>>, hits: Seq<bool>, before: nat, after: nat, from: int, to: int)
    requires
        0 <= from <= to <= hits.len(),
        forall|j: int| from <= j < to ==> !#[trigger] hits[j],
    ensures
        match_blocks(text, hits, before, after, to) == match_blocks(text, hits, before, after, from),
    decreases to - from,
{
    if from < to {
        assert(!hits[to - 1]);
        lemma_no_match(text, hits, before, after, from, to - 1);
    }
}

/// A file in which no line matches: nothing is found.
pub proof fn law_no_match(search: FsSearchContent, style: PathStyle, size: u64, content: Seq<char>)
    requires
        match search.max_file_size {
            Some(max) => size <= max,
            None => size <= 52_428_800,
        },
        forall|j: int|
            0 <= j < lines(content).len() ==> !regex_found(search.pattern@, #[trigger] lines(content)[j]),
    ensures
        file_result(content_rules(search, style), size, Some(content)) == Some(Seq::<FoundLine>::empty()),
{
    let text = lines(content);
    let rules = content_rules(search, style);
    let hits = line_hits(rules.regex, text);
    assert forall|j: int| 0 <= j < text.len() implies !#[trigger] hits[j] by {
        assert(!regex_found(search.pattern@, text[j]));
    }
    lemma_no_match(text, hits, rules.before, rules.after, 0, text.len() as int);
}

/// A file that is larger than was asked for, or than fifty mebibytes where nothing was, and a file
/// that is no text, are not searched.
pub proof fn law_not_searched(
    search: FsSearchContent,
    style: PathStyle,
    size: u64,
    content: Option<Seq<char>>,
)
    ensures
        file_result(content_rules(search, style), size, content) is None <==> content is None || match search.max_file_size {
            Some(max) => size > max,
            None => size > 52_428_800,
        },
{
}

/// Whether line `j` is shown on account of a match in line `i`.
pub open spec fn is_shown(search: FsSearchContent, i: int, j: int) -> bool {
    i - shown_context(search.context_before) <= j <= i + shown_context(search.context_after)
}

/// A line is found exactly if it matches, or stands no more lines before or after one that matches
/// than were asked for.
pub proof fn law_found_lines(
    search: FsSearchContent,
    style: PathStyle,
    size: u64,
    content: Seq<char>,
    line: FoundLine,
)
    requires
        match search.max_file_size {
            Some(max) => size <= max,
            None => size <= 52_428_800,
        },
    ensures
        ({
            let text = lines(content);
            &&& file_result(content_rules(search, style), size, Some(content)) matches Some(found)
            &&& found.contains(line) <==> exists|i: int, j: int|
                {
                    &&& 0 <= i < text.len()
                    &&& 0 <= j < text.len()
                    &&& regex_found(search.pattern@, text[i])
                    &&& is_shown(search, i, j)
                    &&& line == #[trigger] shown_line(text, j, i, has_context(search))
                }
        }),
{
    let text = lines(content);
    let rules = content_rules(search, style);
    let hits = line_hits(rules.regex, text);
    let context = has_context(search);
    lemma_found_lines(
        search,
        text,
        hits,
        rules.before,
        rules.after,
        context,
        text.len() as int,
        line,
    );
    let found = match_blocks(text, hits, rules.before, rules.after, text.len() as int);
    if found.contains(line) {
        let (i, j) = choose|i: int, j: int|
            {
                &&& 0 <= i < text.len()
                &&& 0 <= j < text.len()
                &&& hits[i]
                &&& is_shown(search, i, j)
                &&& line == #[trigger] shown_line(text, j, i, has_context(search))
            };
        assert(regex_found(search.pattern@, text[i]));
    }
    if exists|i: int, j: int|
        {
            &&& 0 <= i < text.len()
            &&& 0 <= j < text.len()
            &&& regex_found(search.pattern@, text[i])
            &&& is_shown(search, i, j)
            &&& line == #[trigger] shown_line(text, j, i, has_context(search))
        } {
        let (i, j) = choose|i: int, j: int|
            {
                &&& 0 <= i < text.len()
                &&& 0 <= j < text.len()
                &&& regex_found(search.pattern@, text[i])
                &&& is_shown(search, i, j)
                &&& line == #[trigger] shown_line(text, j, i, has_context(search))
            };
        assert(hits[i]);
    }
}

proof fn lemma_block(
    search: FsSearchContent,
    text: Seq<Seq<char>>,
    i: int,
    before: nat,
    after: nat,
    context: bool,
    line: FoundLine,
)
    requires
        context == (before > 0 || after > 0),
        0 <= i < text.len(),
        before == shown_context(search.context_before),
        after == shown_context(search.context_after),
    ensures
        match_block(text, i, before, after).contains(line) <==> exists|j: int|
            {
                &&& 0 <= j < text.len()
                &&& is_shown(search, i, j)
                &&& line == #[trigger] shown_line(text, j, i, context)
            },
{
    let block = match_block(text, i, before, after);
    let from = if i >= before {
        i - before
    } else {
        0
    };
    let to = if i + 1 + after <= text.len() {
        i + 1 + after
    } else {
        text.len() as int
    };
    assert(block.len() == to - from);
    assert forall|k: int| 0 <= k < block.len() implies #[trigger] block[k] == shown_line(
        text,
        from + k,
        i,
        context,
    ) by {}
    if block.contains(line) {
        let k = choose|k: int| 0 <= k < block.len() && block[k] == line;
        assert(is_shown(search, i, from + k));
        assert(line == shown_line(text, from + k, i, context));
    }
    if exists|j: int|
        {
            &&& 0 <= j < text.len()
            &&& is_shown(search, i, j)
            &&& line == #[trigger] shown_line(text, j, i, context)
        } {
        let j = choose|j: int|
            {
                &&& 0 <= j < text.len()
                &&& is_shown(search, i, j)
                &&& line == #[trigger] shown_line(text, j, i, context)
            };
        assert(block[j - from] == line);
    }
}

proof fn lemma_found_lines(
    search: FsSearchContent,
    text: Seq<Seq<char>>,
    hits: Seq<bool>,
    before: nat,
    after: nat,
    context: bool,
    n: int,
    line: FoundLine,
)
    requires
        context == (before > 0 || after > 0),
        0 <= n <= text.len(),
        hits.len() == text.len(),
        before == shown_context(search.context_before),
        after == shown_context(search.context_after),
    ensures
        match_blocks(text, hits, before, after, n).contains(line) <==> exists|i: int, j: int|
            {
                &&& 0 <= i < n
                &&& 0 <= j < text.len()
                &&& hits[i]
                &&& is_shown(search, i, j)
                &&& line == #[trigger] shown_line(text, j, i, context)
            },
    decreases n,
{
    if n > 0 {
        lemma_found_lines(search, text, hits, before, after, context, n - 1, line);
        lemma_block(search, text, n - 1, before, after, context, line);
        let rest = match_blocks(text, hits, before, after, n - 1);
        let all = match_blocks(text, hits, before, after, n);
        if hits[n - 1] {
            let block = match_block(text, n - 1, before, after);
            assert(all == rest + block);
            if rest.contains(line) {
                let k = choose|k: int| 0 <= k < rest.len() && rest[k] == line;
                assert(all[k] == line);
            }
            if block.contains(line) {
                let k = choose|k: int| 0 <= k < block.len() && block[k] == line;
                assert(all[rest.len() + k] == line);
            }
            if all.contains(line) {
                let k = choose|k: int| 0 <= k < all.len() && all[k] == line;
                if k < rest.len() {
                    assert(rest[k] == line);
                } else {
                    assert(block[k - rest.len()] == line);
                }
            }
        }
    }
}

/// The matches of a file are shown one after the other, in the order of their lines.
pub proof fn law_matches_follow(
    text: Seq<Seq<char>>,
    hits: Seq<bool>,
    before: nat,
    after: nat,
    i: int,
    j: int,
)
    requires
        hits.len() == text.len(),
        0 <= i < j < text.len(),
        hits[i] && hits[j],
        forall|k: int| i < k < j ==> !#[trigger] hits[k],
    ensures
        match_blocks(text, hits, before, after, j + 1) == match_blocks(text, hits, before, after, i + 1)
            + match_block(text, j, before, after),
{
    lemma_no_match(text, hits, before, after, i + 1, j);
}

/// A file is searched if no pattern for files was asked for, or the pattern matches its path from
/// the beginning of the search or its name.
pub proof fn law_which_files(search: FsSearchContent, style: PathStyle, dir: DirText, entry: EntryText)
    requires
        entry.utf8,
    ensures
        file_accepted(content_rules(search, style).glob, dir, entry) <==> match search.file_path {
            None => true,
            Some(p) => glob_hits((p@, style), entry_relative(dir, entry.name)) || glob_hits(
                (p@, style),
                entry.name,
            ),
        },
        content_rules(search, style).all == search.include_ignored,
{
}

/// A search through contents that looks at an entry reads exactly the files that are not passed over
/// and are to be searched, and goes into exactly the directories that are not passed over, as long
/// as the result is not full.
pub proof fn law_content_step(
    state: ContentState,
    all: bool,
    entry: EntryText,
    accepted: bool,
    next: ContentState,
    step: EntryStep,
)
    requires
        step_holds(state, all, entry, accepted, next, step),
    ensures
        step is Stop <==> state.size >= 30_720,
        step is Search <==> state.size < 30_720 && (all || !ignored(entry)) && entry.kind == EntryKind::File
            && accepted,
        step matches EntryStep::Search(path) ==> path@ == joined(state.current.path, entry.name),
        next.pending == if state.size < 30_720 && (all || !ignored(entry)) && entry.kind
            == EntryKind::Directory {
            state.pending.push(child_dir(state.current, entry.name))
        } else {
            state.pending
        },
        next.current == state.current,
        next.files == state.files,
        next.size == state.size,
        next.matches == state.matches,
{
}

/// What is found in a file of a directory is shown as long as the lines of the result take no
/// more than thirty kibibytes; its matches are counted in any case.
pub proof fn law_file_is_added(state: ContentState, path: Seq<char>, found: Seq<FoundLine>)
    ensures
        ({
            let next = after_file(state, path, found);
            let fits = state.size + result_size(found) <= 30_720;
            &&& next.pending == state.pending
            &&& next.current == state.current
            &&& next.files == if found.len() > 0 && fits {
                state.files.push((path, found))
            } else {
                state.files
            }
            &&& next.size == if found.len() > 0 && fits {
                state.size + result_size(found)
            } else {
                state.size
            }
            &&& found.len() == 0 ==> next.matches == state.matches
            &&& found.len() > 0 && state.matches + result_count(found) <= usize::MAX ==> next.matches
                == state.matches + result_count(found)
        }),
{
}

/// What is found in the one file that is searched is shown whatever its size.
pub proof fn law_only_file_is_shown(state: ContentState, path: Seq<char>, found: Seq<FoundLine>)
    requires
        found.len() > 0,
    ensures
        after_only_file(state, path, found).files == state.files.push((path, found)),
        state.matches + result_count(found) <= usize::MAX ==> after_only_file(state, path, found).matches
            == state.matches + result_count(found),
        state.size + result_size(found) <= usize::MAX ==> after_only_file(state, path, found).size
            == state.size + result_size(found),
{
}

/// A search through contents begins with the directory, or with nothing where its path leads to a
/// file; it is refused for a pattern that cannot be compiled and for a path that leads to neither.
pub proof fn law_search_begins(
    search: FsSearchContent,
    root: Seq<char>,
    kind: Result<EntryKind, String>,
    style: PathStyle,
)
    ensures
        start_state(root, EntryKind::Directory).pending == seq![root_dir(root)],
        start_state(root, EntryKind::File).pending == Seq::<DirText>::empty(),
        start_state(root, EntryKind::Directory).files.len() == 0,
        start_state(root, EntryKind::Directory).size == 0,
        start_state(root, EntryKind::Directory).matches == 0,
        regex_error(search.pattern@) matches Some(e) ==> start_refusal(search, kind, style) == Some(e),
        regex_error(search.pattern@) is None && search.file_path is None ==> (start_refusal(
            search,
            kind,
            style,
        ) is None <==> kind == Ok::<EntryKind, String>(EntryKind::File) || kind == Ok::<EntryKind, String>(
            EntryKind::Directory,
        )),
{
}

/// A search through contents is refused before it begins where its path does not exist, or more
/// than twenty lines of context are asked for on either side.
pub proof fn law_search_is_refused(search: FsSearchContent, exists_on_disk: bool, style: PathStyle)
    ensures
        !exists_on_disk ==> content_refusal(search, exists_on_disk, style) == Some(
            "Path does not exist: '"@ + search.path@ + "'"@,
        ),
        exists_on_disk && search.context_before is Some && search.context_before->0 > 20 ==> content_refusal(
            search,
            exists_on_disk,
            style,
        ) == Some("Invalid value for "@ + "context_before"@ + ": '"@ + decimal(search.context_before->0 as nat)
            + "'. Must be <= 20"@),
        exists_on_disk && (search.context_before is None || search.context_before->0 <= 20)
            && search.context_after is Some && search.context_after->0 > 20 ==> content_refusal(
            search,
            exists_on_disk,
            style,
        ) == Some("Invalid value for "@ + "context_after"@ + ": '"@ + decimal(search.context_after->0 as nat)
            + "'. Must be <= 20"@),
        exists_on_disk && (search.context_before is None || search.context_before->0 <= 20) && (
        search.context_after is None || search.context_after->0 <= 20) && search.file_path is None ==> (
        content_refusal(search, exists_on_disk, style) is None <==> regex_error(search.pattern@) is None),
        exists_on_disk && (search.context_before is None || search.context_before->0 <= 20) && (
        search.context_after is None || search.context_after->0 <= 20) && regex_error(search.pattern@) is Some
            ==> content_refusal(search, exists_on_disk, style) == Some(
            "Invalid regex pattern '"@ + search.pattern@ + "': "@ + regex_error(search.pattern@)->0,
        ),
        exists_on_disk && (search.context_before is None || search.context_before->0 <= 20) && (
        search.context_after is None || search.context_after->0 <= 20) && regex_error(search.pattern@) is None
            && search.file_path is Some ==> content_refusal(search, exists_on_disk, style) == match glob_error(
            search.file_path->0@,
            style,
        ) {
            Some(e) => Some("Invalid glob pattern '"@ + search.file_path->0@ + "': "@ + e),
            None => None,
        },
{
}

/// A result tells the number of matches and of files, and then of each file its path and its
/// lines with their numbers; one that was cut short says so.
pub proof fn law_content_result(files: Seq<FileText>, one: FileText, line: FoundLine, lead: Seq<FoundLine>)
    ensures
        line_texts(seq![], 0) == Seq::<char>::empty(),
        line_texts(lead.push(line), lead.len() as int + 1) == line_texts(lead, lead.len() as int) + ("  "@
            + decimal(line.0) + ": "@ + line.1 + "\n"@),
        file_texts(files.push(one), files.len() as int + 1) == file_texts(files, files.len() as int) + (one.0
            + ":\n"@ + line_texts(one.1, one.1.len() as int) + "\n"@),
        files.len() > 0 ==> content_results(files, true, 2) == content_results(files, false, 2)
            + "\n[Results truncated - response size limit reached]"@,
        files.len() > 0 ==> content_results(files, false, 2) == "✔"@ + " Found: "@ + (decimal(2) + " matches"@)
            + "\n\n"@ + "Found matches in "@ + decimal(files.len()) + " files:\n\n"@ + file_texts(
            files,
            files.len() as int,
        ) + seq![],
        files.len() > 0 ==> content_results(files, false, 1) == "✔"@ + " Found: "@ + "1 match"@ + "\n\n"@
            + "Found matches in "@ + decimal(files.len()) + " files:\n\n"@ + file_texts(
            files,
            files.len() as int,
        ) + seq![],
        content_results(seq![], false, 0) == "✘"@ + " Found: "@ + (decimal(0) + " matches"@) + "\n\n"@
            + "Found matches in 0 files:"@,
        result_size(seq![]) == 0,
        result_size(lead.push(line)) == result_size(lead) + byte_len(
            "  "@ + decimal(line.0) + ": "@ + line.1 + "\n"@,
        ),
        hit_count(seq![], 0) == 0,
        actual_count(seq![], 0) == 0,
        actual_count(lead.push(line), lead.len() as int + 1) == actual_count(lead, lead.len() as int) + (
        if starts_with_text(line.1, "[context]"@) {
            0nat
        } else {
            1nat
        }),
{
    lemma_actual_count(lead, line, lead.len() as int);
    lemma_line_texts(lead, line, lead.len() as int);
    lemma_file_texts(files, one, files.len() as int);
    if files.len() > 0 {
        let short = content_results(files, false, 2);
        assert(short + Seq::<char>::empty() =~= short);
        assert(content_results(files, true, 2) =~= short
            + "\n[Results truncated - response size limit reached]"@);
    }
}

/// The lines that match are counted.
pub proof fn law_matches_are_counted(hits: Seq<bool>, hit: bool)
    ensures
        hit_count(hits.push(hit), hits.len() as int + 1) == hit_count(hits, hits.len() as int) + (if hit {
            1nat
        } else {
            0nat
        }),
{
    lemma_hit_count(hits, hit, hits.len() as int);
}

proof fn lemma_hit_count(hits: Seq<bool>, hit: bool, n: int)
    requires
        0 <= n <= hits.len(),
    ensures
        hit_count(hits.push(hit), n) == hit_count(hits, n),
    decreases n,
{
    if n > 0 {
        lemma_hit_count(hits, hit, n - 1);
    }
}

proof fn lemma_actual_count(lead: Seq<FoundLine>, line: FoundLine, n: int)
    requires
        0 <= n <= lead.len(),
    ensures
        actual_count(lead.push(line), n) == actual_count(lead, n),
        lines_size(lead.push(line), n) == lines_size(lead, n),
    decreases n,
{
    if n > 0 {
        lemma_actual_count(lead, line, n - 1);
    }
}

/// A search for names goes into directories alone, unless they are passed over, or the pattern has
/// already found them by their path.
pub proof fn law_what_is_entered(dir: DirText, glob: GlobText, all: bool, entry: EntryText)
    ensures
        entry.kind != EntryKind::Directory ==> !is_entered(dir, glob, all, entry),
        entry.kind == EntryKind::Directory && all ==> (is_entered(dir, glob, all, entry) <==> !glob_hits(
            glob,
            entry_relative(dir, entry.name),
        )),
        entry.utf8 && entry.name.len() > 0 && entry.name[0] == '.' ==> !is_entered(dir, glob, false, entry)
            && !is_found(dir, glob, false, entry),
        all ==> (is_found(dir, glob, all, entry) <==> glob_hits(glob, entry_relative(dir, entry.name))
            || entry.utf8 && glob_hits(glob, entry.name)),
{
}

proof fn lemma_line_texts(lead: Seq<FoundLine>, line: FoundLine, n: int)
    requires
        0 <= n <= lead.len(),
    ensures
        line_texts(lead.push(line), n) == line_texts(lead, n),
    decreases n,
{
    if n > 0 {
        lemma_line_texts(lead, line, n - 1);
    }
}

proof fn lemma_file_texts(files: Seq<FileText>, one: FileText, n: int)
    requires
        0 <= n <= files.len(),
    ensures
        file_texts(files.push(one), n) == file_texts(files, n),
    decreases n,
{
    if n > 0 {
        lemma_file_texts(files, one, n - 1);
    }
}

/// A search that found nothing is told in yellow with a cross, another one in green with a check.
pub proof fn law_found_colours(n: nat, count: Seq<char>)
    ensures
        found_report(n, count) == seq![
            (Ink::Plain, false, " "@),
            if n == 0 {
                (Ink::Yellow, false, "✘"@)
            } else {
                (Ink::Green, false, "✔"@)
            },
            (Ink::Plain, false, " Found: "@),
            (
                if n == 0 {
                    Ink::Yellow
                } else {
                    Ink::Green
                },
                false,
                count,
            ),
        ],
{
}

} // verus!
