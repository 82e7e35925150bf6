//! The rules of a context: paths and glob patterns, and the files that they pick.

use vstd::prelude::*;

use crate::context::{failure, ConfigText, ContextManager, ManagerText};
use crate::order::{before, comes_before, lemma_before_total, lemma_before_transitive};
use crate::text::{
    cat2, cat3, cat5, chars_of, copy_list, extend_list, lemma_texts_push, list_contains, same_text,
    string_from, texts,
};

verus! {

/// A file of the context: its name and its contents.
pub type FileText = (Seq<char>, Seq<char>);

/// What a list of files holds.
pub open spec fn file_texts(files: Seq<(String, String)>) -> Seq<FileText> {
    Seq::new(files.len(), |i: int| (files[i].0@, files[i].1@))
}

/// A path in which a leading `~` stands for the home directory.
pub open spec fn expanded(path: Seq<char>, home: Seq<char>) -> Seq<char> {
    if path.len() > 0 && path[0] == '~' {
        home + path.skip(1)
    } else {
        path
    }
}

/// A path in which a leading `~` stands for the home directory.
pub fn expand_path(path: &str, home: &str) -> (res: String)
    ensures
        res@ == expanded(path@, home@),
{
    let chars = chars_of(path);
    if chars.len() > 0 && chars[0] == '~' {
        let rest = string_from(&chars, 1, chars.len());
        assert(rest@ =~= path@.skip(1));
        cat2(home, rest.as_str())
    } else {
        String::from_str(path)
    }
}

/// Whether a path is a glob pattern.
pub open spec fn is_glob(path: Seq<char>) -> bool {
    path.contains('*') || path.contains('?') || path.contains('[')
}

/// Whether a path is a glob pattern.
pub fn is_glob_pattern(path: &str) -> (res: bool)
    ensures
        res == is_glob(path@),
{
    let chars = chars_of(path);
    let mut i: usize = 0;
    while i < chars.len()
        invariant
            chars@ == path@,
            i <= chars@.len(),
            forall|j: int| 0 <= j < i ==> path@[j] != '*' && path@[j] != '?' && path@[j] != '[',
        decreases chars@.len() - i,
    {
        let c = chars[i];
        if c == '*' || c == '?' || c == '[' {
            assert(path@[i as int] == c);
            return true;
        }
        i += 1;
    }
    false
}

/// What lies at a path.
#[derive(Debug)]
pub enum PathContents {
    /// Nothing that can be looked at.
    Unknown,
    /// A file, with its content, or why it could not be read.
    File(Result<String, String>),
    /// A directory, with the path of each entry that is a file and its content, if that could be
    /// read.
    Directory(Vec<(String, Option<String>)>),
}

/// The files among the first `n` entries of a directory that could be read.
pub open spec fn readable(entries: Seq<(String, Option<String>)>, n: int) -> Seq<FileText>
    decreases n,
{
    if n <= 0 {
        seq![]
    } else {
        match entries[n - 1].1 {
            Some(content) => readable(entries, n - 1).push((entries[n - 1].0@, content@)),
            None => readable(entries, n - 1),
        }
    }
}

/// The files that a path adds to a context: the file itself, or those of the directory. What
/// cannot be read is left out.
pub open spec fn files_at(path: Seq<char>, contents: PathContents) -> Seq<FileText> {
    match contents {
        PathContents::Unknown => seq![],
        PathContents::File(Ok(content)) => seq![(path, content@)],
        PathContents::File(Err(_)) => seq![],
        PathContents::Directory(entries) => readable(entries@, entries@.len() as int),
    }
}

/// What is said of a file that could not be read.
pub open spec fn unreadable_text(path: Seq<char>, contents: PathContents) -> Option<Seq<char>> {
    match contents {
        PathContents::File(Err(e)) => Some("Failed to read file '"@ + path + "': "@ + e@),
        _ => None,
    }
}

/// Adds the files at a path to a context, and gives the warning on a file that could not be
/// read.
pub fn add_file_to_context(
    path: &str,
    contents: &PathContents,
    context_files: &mut Vec<(String, String)>,
) -> (res: Option<String>)
    ensures
        file_texts(final(context_files)@) == file_texts(old(context_files)@) + files_at(
            path@,
            *contents,
        ),
        crate::text::option_text(res) == unreadable_text(path@, *contents),
{
    let ghost start = file_texts(context_files@);
    match contents {
        PathContents::Unknown => {
            assert(start + seq![] =~= start);
            None
        },
        PathContents::File(Ok(content)) => {
            context_files.push((String::from_str(path), content.clone()));
            assert(file_texts(context_files@) =~= start + seq![(path@, content@)]);
            None
        },
        PathContents::File(Err(e)) => {
            assert(start + seq![] =~= start);
            Some(crate::text::cat4("Failed to read file '", path, "': ", e.as_str()))
        },
        PathContents::Directory(entries) => {
            let mut i: usize = 0;
            assert(start + readable(entries@, 0) =~= start);
            while i < entries.len()
                invariant
                    i <= entries@.len(),
                    file_texts(context_files@) == start + readable(entries@, i as int),
                decreases entries@.len() - i,
            {
                let ghost before = file_texts(context_files@);
                match &entries[i].1 {
                    Some(content) => {
                        context_files.push((entries[i].0.clone(), content.clone()));
                        assert(file_texts(context_files@) =~= before.push(
                            (entries@[i as int].0@, content@),
                        ));
                    },
                    None => {},
                }
                i += 1;
                assert(file_texts(context_files@) =~= start + readable(entries@, i as int));
            }
            None
        },
    }
}

/// What a step of a glob search came to.
#[derive(Debug)]
pub enum GlobEntry {
    /// A match, with the files that were read there, or why its directory could not be listed.
    Found(Result<Vec<(String, String)>, String>),
    /// A place that could not be searched, and why.
    Failed(String),
}

/// What looking for a rule's files came to.
#[derive(Debug)]
pub enum Findings {
    /// The steps of a search for a glob pattern, or what is wrong with the pattern.
    Glob(Result<Vec<GlobEntry>, String>),
    /// The files at a path, or why its directory could not be listed; `None` where nothing is.
    Plain(Option<Result<Vec<(String, String)>, String>>),
}

/// The files that the steps of a search from `i` on add to `files`, and the error that ends it.
pub open spec fn glob_scan(
    entries: Seq<GlobEntry>,
    i: int,
    files: Seq<FileText>,
    found: bool,
    path: Seq<char>,
    validating: bool,
) -> (Seq<FileText>, Option<Seq<char>>)
    decreases entries.len() - i,
{
    if i >= entries.len() {
        (
            files,
            if validating && !found {
                Some("Glob pattern '"@ + path + "' did not match any files"@)
            } else {
                None
            },
        )
    } else {
        match entries[i] {
            GlobEntry::Found(Ok(more)) => glob_scan(
                entries,
                i + 1,
                files + file_texts(more@),
                true,
                path,
                validating,
            ),
            GlobEntry::Found(Err(e)) => (files, Some(e@)),
            GlobEntry::Failed(e) => if validating {
                (files, Some("Glob pattern error: "@ + e@))
            } else {
                glob_scan(entries, i + 1, files, found, path, validating)
            },
        }
    }
}

/// The files that a rule adds to `files`, and the error that it comes to. Only where rules are
/// checked is it an error to pick no file.
pub open spec fn processed(
    path: Seq<char>,
    findings: Findings,
    files: Seq<FileText>,
    validating: bool,
) -> (Seq<FileText>, Option<Seq<char>>) {
    match findings {
        Findings::Glob(Err(e)) => (files, Some(e@)),
        Findings::Glob(Ok(entries)) => glob_scan(entries@, 0, files, false, path, validating),
        Findings::Plain(Some(Ok(more))) => (files + file_texts(more@), None),
        Findings::Plain(Some(Err(e))) => (files, Some(e@)),
        Findings::Plain(None) => (
            files,
            if validating {
                Some("Path '"@ + path + "' does not exist"@)
            } else {
                None
            },
        ),
    }
}

fn append_files(files: &mut Vec<(String, String)>, more: &Vec<(String, String)>)
    ensures
        file_texts(final(files)@) == file_texts(old(files)@) + file_texts(more@),
{
    let ghost start = file_texts(files@);
    let mut i: usize = 0;
    assert(start + file_texts(more@).take(0) =~= start);
    while i < more.len()
        invariant
            i <= more@.len(),
            file_texts(files@) == start + file_texts(more@).take(i as int),
        decreases more@.len() - i,
    {
        let name = String::from_str(more[i].0.as_str());
        let contents = String::from_str(more[i].1.as_str());
        let ghost before = file_texts(files@);
        files.push((name, contents));
        assert(file_texts(files@) =~= before.push((more@[i as int].0@, more@[i as int].1@)));
        assert(start + file_texts(more@).take(i as int + 1) =~= (start + file_texts(more@).take(
            i as int,
        )).push(file_texts(more@)[i as int]));
        i += 1;
    }
    assert(file_texts(more@).take(i as int) =~= file_texts(more@));
}

/// Adds the files of a rule to `context_files`.
pub fn process_path(
    path: &str,
    findings: &Findings,
    context_files: &mut Vec<(String, String)>,
    is_validation: bool,
) -> (res: Result<(), String>)
    ensures
        (file_texts(final(context_files)@), failure(res)) == processed(
            path@,
            *findings,
            file_texts(old(context_files)@),
            is_validation,
        ),
{
    match findings {
        Findings::Glob(Err(e)) => Err(String::from_str(e.as_str())),
        Findings::Glob(Ok(entries)) => {
            let mut found = false;
            let mut i: usize = 0;
            while i < entries.len()
                invariant
                    i <= entries@.len(),
                    processed(path@, *findings, file_texts(old(context_files)@), is_validation) == glob_scan(
                        entries@,
                        i as int,
                        file_texts(context_files@),
                        found,
                        path@,
                        is_validation,
                    ),
                decreases entries@.len() - i,
            {
                match &entries[i] {
                    GlobEntry::Found(Ok(more)) => {
                        append_files(context_files, more);
                        found = true;
                    },
                    GlobEntry::Found(Err(e)) => {
                        return Err(String::from_str(e.as_str()));
                    },
                    GlobEntry::Failed(e) => {
                        if is_validation {
                            return Err(cat2("Glob pattern error: ", e.as_str()));
                        }
                    },
                }
                i += 1;
            }
            if is_validation && !found {
                return Err(cat3("Glob pattern '", path, "' did not match any files"));
            }
            Ok(())
        },
        Findings::Plain(Some(Ok(more))) => {
            append_files(context_files, more);
            Ok(())
        },
        Findings::Plain(Some(Err(e))) => Err(String::from_str(e.as_str())),
        Findings::Plain(None) => {
            if is_validation {
                Err(cat3("Path '", path, "' does not exist"))
            } else {
                Ok(())
            }
        },
    }
}

/// The contents of the first file of that name at or after `from`.
pub open spec fn first_contents(files: Seq<FileText>, name: Seq<char>, from: int) -> Seq<char>
    decreases files.len() - from,
{
    if from >= files.len() {
        seq![]
    } else if files[from].0 == name {
        files[from].1
    } else {
        first_contents(files, name, from + 1)
    }
}

/// Whether a file has that name.
pub open spec fn has_file(files: Seq<FileText>, name: Seq<char>) -> bool {
    exists|i: int| 0 <= i < files.len() && (#[trigger] files[i]).0 == name
}

/// The names stand in order and none twice.
pub open spec fn in_order(files: Seq<FileText>) -> bool {
    forall|i: int, j: int|
        0 <= i < j < files.len() ==> before((#[trigger] files[i]).0, (#[trigger] files[j]).0, false)
}

/// Files brought into the order of their names, of which the first of each name is kept.
pub open spec fn arranged(files: Seq<FileText>, res: Seq<FileText>) -> bool {
    &&& in_order(res)
    &&& forall|i: int|
        0 <= i < res.len() ==> has_file(files, (#[trigger] res[i]).0) && res[i].1 == first_contents(
            files,
            res[i].0,
            0,
        )
    &&& forall|i: int| 0 <= i < files.len() ==> has_file(res, (#[trigger] files[i]).0)
}

proof fn lemma_first_contents_take(files: Seq<FileText>, n: int, name: Seq<char>, from: int)
    requires
        0 <= from <= n < files.len(),
    ensures
        first_contents(files.take(n + 1), name, from) == if exists|i: int|
            from <= i < n && (#[trigger] files[i]).0 == name {
            first_contents(files.take(n), name, from)
        } else if files[n].0 == name {
            files[n].1
        } else {
            seq![]
        },
    decreases n - from,
{
    let more = files.take(n + 1);
    let less = files.take(n);
    if from < n {
        assert(more[from] == files[from] && less[from] == files[from]);
        if files[from].0 != name {
            lemma_first_contents_take(files, n, name, from + 1);
            if exists|i: int| from <= i < n && (#[trigger] files[i]).0 == name {
                let i = choose|i: int| from <= i < n && (#[trigger] files[i]).0 == name;
                assert(from + 1 <= i);
            }
        }
    } else {
        reveal_with_fuel(first_contents, 2);
        assert(more[n] == files[n]);
    }
}

fn place_for(files: &Vec<(String, String)>, name: &str) -> (res: (usize, bool))
    requires
        in_order(file_texts(files@)),
    ensures
        res.0 <= files@.len(),
        forall|i: int| 0 <= i < res.0 ==> before((#[trigger] file_texts(files@)[i]).0, name@, false),
        res.1 ==> res.0 < files@.len() && files@[res.0 as int].0@ == name@,
        !res.1 ==> forall|i: int|
            res.0 <= i < files@.len() ==> before(name@, (#[trigger] file_texts(files@)[i]).0, false),
{
    let ghost t = file_texts(files@);
    let mut i: usize = 0;
    while i < files.len()
        invariant
            t == file_texts(files@),
            in_order(t),
            i <= files@.len(),
            forall|j: int| 0 <= j < i ==> before((#[trigger] t[j]).0, name@, false),
        decreases files@.len() - i,
    {
        assert(t[i as int].0 == files@[i as int].0@);
        if same_text(files[i].0.as_str(), name) {
            return (i, true);
        }
        if !comes_before(files[i].0.as_str(), name, false) {
            proof {
                lemma_before_total(t[i as int].0, name@, false);
                assert forall|j: int| i <= j < files@.len() implies before(name@, (#[trigger] t[j]).0, false) by {
                    if j > i {
                        lemma_before_transitive(name@, t[i as int].0, t[j].0, false);
                    }
                }
            }
            return (i, false);
        }
        i += 1;
    }
    (i, false)
}

/// Brings files into the order of their names; of files with one name the first is kept.
pub fn arrange_files(files: &Vec<(String, String)>) -> (res: Vec<(String, String)>)
    ensures
        arranged(file_texts(files@), file_texts(res@)),
{
    let ghost all = file_texts(files@);
    let mut out: Vec<(String, String)> = Vec::new();
    let mut i: usize = 0;
    while i < files.len()
        invariant
            all == file_texts(files@),
            i <= files@.len(),
            arranged(all.take(i as int), file_texts(out@)),
        decreases files@.len() - i,
    {
        let name = String::from_str(files[i].0.as_str());
        let contents = String::from_str(files[i].1.as_str());
        let (at, there) = place_for(&out, name.as_str());
        let ghost was = file_texts(out@);
        let ghost one = all[i as int];
        let ghost less = all.take(i as int);
        let ghost more = all.take(i as int + 1);
        assert(one == (name@, contents@));
        if !there {
            out.insert(at, (name, contents));
            assert(file_texts(out@) =~= was.insert(at as int, one));
        }
        proof {
            let now = file_texts(out@);
            if there {
                assert(was[at as int].0 == one.0);
            }
            assert forall|k: int| 0 <= k < was.len() implies has_file(now, (#[trigger] was[k]).0) by {
                if there || k < at {
                    assert(now[k] == was[k]);
                } else {
                    assert(now[k + 1] == was[k]);
                }
            }
            assert(has_file(now, one.0)) by {
                assert(now[at as int].0 == one.0);
            }
            assert forall|k: int| 0 <= k < more.len() implies has_file(now, (#[trigger] more[k]).0) by {
                if k < i {
                    assert(more[k] == less[k]);
                    let q = choose|q: int| 0 <= q < was.len() && (#[trigger] was[q]).0 == less[k].0;
                    assert(has_file(now, was[q].0));
                }
            }
            assert forall|k: int| 0 <= k < now.len() implies has_file(more, (#[trigger] now[k]).0) && now[k].1
                == first_contents(more, now[k].0, 0) by {
                lemma_first_contents_take(all, i as int, now[k].0, 0);
                if !there && k == at {
                    assert(more[i as int].0 == one.0);
                    if exists|q: int| 0 <= q < i && (#[trigger] all[q]).0 == one.0 {
                        let q = choose|q: int| 0 <= q < i && (#[trigger] all[q]).0 == one.0;
                        assert(less[q] == all[q]);
                        let r = choose|r: int| 0 <= r < was.len() && (#[trigger] was[r]).0 == less[q].0;
                        crate::order::lemma_before_irreflexive(one.0, false);
                        assert(false);
                    }
                } else {
                    let q = if there || k < at {
                        k
                    } else {
                        k - 1
                    };
                    assert(now[k] == was[q]);
                    assert(has_file(less, was[q].0));
                    let r = choose|r: int| 0 <= r < less.len() && (#[trigger] less[r]).0 == was[q].0;
                    assert(more[r] == less[r] && all[r] == less[r]);
                }
            }
            assert(in_order(now));
            assert(more == all.take(i as int + 1));
        }
        i += 1;
    }
    assert(all.take(i as int) =~= all);
    out
}

impl ContextManager {
    /// The files of the context: those that the global rules pick, then those of the profile's
    /// rules, in the order of their names and each name once.
    pub fn get_context_files(
        &self,
        global_files: &Vec<(String, String)>,
        profile_files: &Vec<(String, String)>,
    ) -> (res: Vec<(String, String)>)
        ensures
            arranged(file_texts(global_files@) + file_texts(profile_files@), file_texts(res@)),
    {
        let mut all: Vec<(String, String)> = Vec::new();
        append_files(&mut all, global_files);
        assert(file_texts(all@) =~= file_texts(global_files@));
        append_files(&mut all, profile_files);
        arrange_files(&all)
    }
}

/// The position at or after `from` of the first of `paths` that is among `known`, or their number.
pub open spec fn first_known(paths: Seq<Seq<char>>, known: Seq<Seq<char>>, from: int) -> int
    decreases paths.len() - from,
{
    if from >= paths.len() || known.contains(paths[from]) {
        from
    } else {
        first_known(paths, known, from + 1)
    }
}

/// The rules of `paths` before the first that was known before are added.
pub open spec fn rules_added(m: ManagerText, paths: Seq<Seq<char>>, global: bool) -> ManagerText {
    let n = first_known(paths, m.global.paths + m.profile.paths, 0);
    let config = m.config(global);
    m.with_config(global, ConfigText { paths: config.paths + paths.take(n), ..config })
}

/// Why rules cannot be added: one of them picks no file, or was known before.
pub open spec fn rules_error(
    m: ManagerText,
    paths: Seq<Seq<char>>,
    invalid: Option<(String, String)>,
) -> Option<Seq<char>> {
    let n = first_known(paths, m.global.paths + m.profile.paths, 0);
    match invalid {
        Some(bad) => Some(
            "Invalid path '"@ + bad.0@ + "': "@ + bad.1@ + ". Use --force to add anyway."@,
        ),
        None => if n < paths.len() {
            Some("Rule '"@ + paths[n] + "' already exists."@)
        } else {
            None
        },
    }
}

/// The rules other than those of `paths`.
pub open spec fn not_among(paths: Seq<Seq<char>>) -> spec_fn(Seq<char>) -> bool {
    |p: Seq<char>| !paths.contains(p)
}

/// Whether one of the rules is among `paths`.
pub open spec fn any_among(rules: Seq<Seq<char>>, paths: Seq<Seq<char>>) -> bool {
    exists|i: int| 0 <= i < rules.len() && paths.contains(#[trigger] rules[i])
}

fn without(rules: &Vec<String>, paths: &Vec<String>) -> (res: (Vec<String>, bool))
    ensures
        texts(res.0@) == texts(rules@).filter(not_among(texts(paths@))),
        res.1 == any_among(texts(rules@), texts(paths@)),
{
    let ghost all = texts(rules@);
    let ghost p = not_among(texts(paths@));
    let mut kept: Vec<String> = Vec::new();
    let mut any = false;
    let mut i: usize = 0;
    proof {
        reveal(Seq::filter);
        assert(texts(kept@) =~= all.take(0).filter(p));
    }
    while i < rules.len()
        invariant
            i <= rules@.len(),
            all == texts(rules@),
            p == not_among(texts(paths@)),
            texts(kept@) == all.take(i as int).filter(p),
            any <==> exists|j: int| 0 <= j < i && texts(paths@).contains(#[trigger] all[j]),
        decreases rules@.len() - i,
    {
        proof {
            reveal(Seq::filter);
            assert(all.take(i as int + 1).drop_last() =~= all.take(i as int));
            assert(all.take(i as int + 1).last() == rules@[i as int]@);
        }
        if list_contains(paths, rules[i].as_str()) {
            assert(texts(paths@).contains(all[i as int]));
            any = true;
        } else {
            let one = String::from_str(rules[i].as_str());
            let ghost before = kept@;
            kept.push(one);
            proof {
                lemma_texts_push(before, one);
            }
        }
        i += 1;
    }
    assert(all.take(i as int) =~= all);
    (kept, any)
}

impl ContextManager {
    /// Adds rules, of which `invalid` is the first that picks no file, with the reason; it counts
    /// unless `force` is set. The change is to be saved. A rule that was known before ends it.
    pub fn add_paths(
        &mut self,
        paths: &Vec<String>,
        global: bool,
        force: bool,
        invalid: Option<(String, String)>,
    ) -> (res: Result<(), String>)
        ensures
            failure(res) == rules_error(
                old(self)@,
                texts(paths@),
                if force {
                    None
                } else {
                    invalid
                },
            ),
            final(self)@ == if !force && invalid is Some {
                old(self)@
            } else {
                rules_added(old(self)@, texts(paths@), global)
            },
    {
        if !force {
            if let Some(bad) = &invalid {
                let text = cat5("Invalid path '", bad.0.as_str(), "': ", bad.1.as_str(), ". Use --force to add anyway.");
                return Err(text);
            }
        }
        let mut known = copy_list(&self.global_config.paths);
        extend_list(&mut known, &self.profile_config.paths);
        let ghost m = old(self)@;
        let ghost all = texts(paths@);
        let ghost know = m.global.paths + m.profile.paths;
        let mut n: usize = 0;
        while n < paths.len() && !list_contains(&known, paths[n].as_str())
            invariant
                n <= paths@.len(),
                all == texts(paths@),
                texts(known@) == know,
                first_known(all, know, 0) == first_known(all, know, n as int),
            decreases paths@.len() - n,
        {
            n += 1;
        }
        let mut more: Vec<String> = Vec::new();
        let mut i: usize = 0;
        assert(texts(more@) =~= all.take(0));
        while i < n
            invariant
                i <= n <= paths@.len(),
                all == texts(paths@),
                texts(more@) == all.take(i as int),
            decreases n - i,
        {
            let one = String::from_str(paths[i].as_str());
            let ghost before = more@;
            more.push(one);
            proof {
                lemma_texts_push(before, one);
                assert(all.take(i as int + 1) =~= all.take(i as int).push(one@));
            }
            i += 1;
        }
        if global {
            extend_list(&mut self.global_config.paths, &more);
        } else {
            extend_list(&mut self.profile_config.paths, &more);
        }
        if n < paths.len() {
            return Err(cat3("Rule '", paths[n].as_str(), "' already exists."));
        }
        Ok(())
    }

    /// Removes rules. The change is to be saved; where none of them is there nothing changes.
    pub fn remove_paths(&mut self, paths: &Vec<String>, global: bool) -> (res: Result<(), String>)
        ensures
            ({
                let config = old(self)@.config(global);
                if any_among(config.paths, texts(paths@)) {
                    &&& res is Ok
                    &&& final(self)@ == old(self)@.with_config(
                        global,
                        (ConfigText { paths: config.paths.filter(not_among(texts(paths@))), ..config }),
                    )
                } else {
                    &&& failure(res) == Some("None of the specified paths were found in the context"@)
                    &&& final(self)@ == old(self)@
                }
            }),
    {
        if global {
            let (kept, any) = without(&self.global_config.paths, paths);
            if !any {
                return Err(String::from_str("None of the specified paths were found in the context"));
            }
            self.global_config.paths = kept;
        } else {
            let (kept, any) = without(&self.profile_config.paths, paths);
            if !any {
                return Err(String::from_str("None of the specified paths were found in the context"));
            }
            self.profile_config.paths = kept;
        }
        Ok(())
    }

    /// The files of the context without those that were `dropped`, by name.
    pub fn collect_context_files_with_limit(
        &self,
        files: &Vec<(String, String)>,
        dropped: &Vec<(String, String)>,
    ) -> (res: Vec<(String, String)>)
        ensures
            file_texts(res@) == file_texts(files@).filter(not_dropped(file_texts(dropped@))),
    {
        let ghost all = file_texts(files@);
        let ghost p = not_dropped(file_texts(dropped@));
        let mut kept: Vec<(String, String)> = Vec::new();
        let mut i: usize = 0;
        proof {
            reveal(Seq::filter);
            assert(file_texts(kept@) =~= all.take(0).filter(p));
        }
        while i < files.len()
            invariant
                i <= files@.len(),
                all == file_texts(files@),
                p == not_dropped(file_texts(dropped@)),
                file_texts(kept@) == all.take(i as int).filter(p),
            decreases files@.len() - i,
        {
            proof {
                reveal(Seq::filter);
                assert(all.take(i as int + 1).drop_last() =~= all.take(i as int));
                assert(all.take(i as int + 1).last() == all[i as int]);
            }
            if !names_file(dropped, files[i].0.as_str()) {
                let name = String::from_str(files[i].0.as_str());
                let contents = String::from_str(files[i].1.as_str());
                let ghost before = file_texts(kept@);
                kept.push((name, contents));
                assert(file_texts(kept@) =~= before.push(all[i as int]));
            }
            i += 1;
        }
        assert(all.take(i as int) =~= all);
        kept
    }
}

/// The files with another name than those that were dropped.
pub open spec fn not_dropped(dropped: Seq<FileText>) -> spec_fn(FileText) -> bool {
    |f: FileText| !has_file(dropped, f.0)
}

fn names_file(files: &Vec<(String, String)>, name: &str) -> (res: bool)
    ensures
        res == has_file(file_texts(files@), name@),
{
    let ghost t = file_texts(files@);
    let mut i: usize = 0;
    while i < files.len()
        invariant
            i <= files@.len(),
            t == file_texts(files@),
            forall|j: int| 0 <= j < i ==> (#[trigger] t[j]).0 != name@,
        decreases files@.len() - i,
    {
        assert(t[i as int].0 == files@[i as int].0@);
        if same_text(files[i].0.as_str(), name) {
            return true;
        }
        i += 1;
    }
    false
}

} // verus!
