//! What the operations on configurations, profiles, rules and hooks come to.

use vstd::prelude::*;

use crate::command_laws::{holds_destruction, holds_shell_sign, law_what_is_dangerous};
use crate::context::{
    default_global_config, empty_config, find_trusted, has_trusted, lemma_find_trusted, loaded_config,
    trusted_command_error, with_trusted, ConfigFile, ConfigText, ManagerText,
};
use crate::context_command::{
    context_action, match_count, rule_lines, show_report, ContextActionText, ContextFacts,
    ContextSubcommand,
};
use crate::context_hooks::{with_disabled, with_origin};
use crate::context_laws::lemma_filter_from;
use crate::context_rules::{
    any_among, arranged, expanded, files_at, first_contents, first_known, glob_scan, has_file, is_glob,
    not_among, not_dropped, processed, readable, rules_added, rules_error, Findings, GlobEntry,
    PathContents,
};
use crate::dangerous_patterns::{dangerous_match, law_match_iff_dangerous, DangerousPatternType};
use crate::hook::{changed_hooks, HookTexts};
use crate::matcher::{anchored, regex_error};
use crate::number::decimal;
use crate::order::before;
use crate::profiles::{
    delete_error, is_profile_list, not_default, profile_name_error, rename_error, switched,
};
use crate::report::{Ink, SpanText};
use crate::split::{is_white, trim, trim_end, trim_start};
use crate::text::{repeated, texts};
use crate::text_laws::law_trim;
use crate::trusted_commands::TrustedText;

verus! {

/// A file as it stands in a context: its name and its content.
pub type FileText = (Seq<char>, Seq<char>);

/// What is asked for all profiles concerns what holds for all of them, and nothing else; and so for
/// the current profile.
pub proof fn law_two_sides(m: ManagerText, c: ConfigText)
    ensures
        m.config(true) == m.global,
        m.config(false) == m.profile,
        m.with_config(true, c) == (ManagerText { global: c, ..m }),
        m.with_config(false, c) == (ManagerText { profile: c, ..m }),
{
}

/// A file that is missing or holds no configuration stands for the usual one, a file that cannot be
/// read is an error, and any other file stands for what it holds.
pub proof fn law_configuration_files(e: String, c: crate::context::ContextConfig, usual: ConfigText)
    ensures
        loaded_config(ConfigFile::Missing, usual) == Ok::<ConfigText, Seq<char>>(usual),
        loaded_config(ConfigFile::Invalid, usual) == Ok::<ConfigText, Seq<char>>(usual),
        loaded_config(ConfigFile::Unreadable(e), usual) == Err::<ConfigText, Seq<char>>(e@),
        loaded_config(ConfigFile::Loaded(c), usual) == Ok::<ConfigText, Seq<char>>(c@),
        empty_config().paths.len() == 0,
        empty_config().hooks == Map::<Seq<char>, crate::hook::HookText>::empty(),
        empty_config().trusted is None,
        default_global_config().paths == seq![".amazonq/rules/**/*.md"@, "README.md"@, "AmazonQ.md"@],
        default_global_config().hooks == Map::<Seq<char>, crate::hook::HookText>::empty(),
{
}

/// A text names a profile exactly if it begins with a letter or digit and holds only letters,
/// digits, hyphens and underscores.
pub proof fn law_profile_names(name: Seq<char>)
    ensures
        profile_name_error(name) is None <==> name.len() > 0 && crate::profiles::is_alphanumeric(name[0]) && forall|i: int|
            0 <= i < name.len() ==> crate::profiles::is_alphanumeric(#[trigger] name[i]) || name[i] == '-' || name[i] == '_',
        name.len() == 0 ==> profile_name_error(name) == Some("Profile name cannot be empty"@),
        name.len() > 0 && !crate::profiles::is_alphanumeric(name[0]) ==> profile_name_error(name) == Some(
            "Profile name must start with an alphanumeric character"@,
        ),
        name.len() > 0 && crate::profiles::is_alphanumeric(name[0]) && (exists|i: int|
            0 <= i < name.len() && !crate::profiles::is_alphanumeric(#[trigger] name[i]) && name[i] != '-'
                && name[i] != '_') ==> profile_name_error(name) == Some(
            "Profile name can only contain alphanumeric characters, hyphens, and underscores"@,
        ),
{
}

/// A profile can be deleted exactly if it exists and is neither the default nor the current one.
pub proof fn law_delete_profile(m: ManagerText, name: Seq<char>, exists_on_disk: bool)
    ensures
        delete_error(m, name, exists_on_disk) is None <==> name != "default"@ && name != m.current
            && exists_on_disk,
        name == "default"@ ==> delete_error(m, name, exists_on_disk) == Some(
            "Cannot delete the default profile"@,
        ),
{
}

/// A profile can be renamed exactly if it exists and is not the default one, and the new name can
/// name a profile, is not reserved, and is not taken.
pub proof fn law_rename_profile(from: Seq<char>, to: Seq<char>, old_exists: bool, new_exists: bool)
    ensures
        rename_error(from, to, old_exists, new_exists) is None <==> from != "default"@ && to != "default"@
            && profile_name_error(to) is None && old_exists && !new_exists,
{
}

/// A switch to a profile that exists and can be read makes it the current one, with the
/// configuration of its file, and forgets what hooks of the other profile left; what holds for all
/// profiles stays. A profile that does not exist, other than the default one, does not become
/// the current one.
pub proof fn law_switch_profile(m: ManagerText, name: Seq<char>, exists_on_disk: bool, file: ConfigFile)
    requires
        profile_name_error(name) is None,
    ensures
        ({
            let (now, e) = switched(m, name, exists_on_disk, file);
            &&& now.global == m.global
            &&& now.limit == m.limit
            &&& now.global_cache == m.global_cache
            &&& now.profile_cache == Map::<Seq<char>, String>::empty()
            &&& e is None <==> (exists_on_disk || name == "default"@) && !(file is Unreadable)
            &&& e is None ==> now.current == name && Ok::<ConfigText, Seq<char>>(now.profile) == loaded_config(
                file,
                empty_config(),
            )
            &&& e is Some ==> now.profile == m.profile
            &&& !exists_on_disk && name != "default"@ ==> now.current == m.current
            &&& exists_on_disk && name != "default"@ ==> now.current == name
        }),
{
}

/// The list of profiles begins with the default one, and then has every other directory, in order.
pub proof fn law_all_profiles_are_listed(dirs: Seq<Seq<char>>, res: Seq<Seq<char>>, d: Seq<char>)
    requires
        is_profile_list(dirs, res),
    ensures
        res.len() > 0,
        res[0] == "default"@,
        d != "default"@ ==> (res.contains(d) <==> dirs.contains(d)),
        forall|i: int, j: int| 0 < i < j < res.len() ==> !before(#[trigger] res[j], #[trigger] res[i], false),
{
    let p = not_default();
    let tail = res.skip(1);
    let kept = dirs.filter(p);
    tail.to_multiset_ensures();
    kept.to_multiset_ensures();
    if d != "default"@ {
        if res.contains(d) {
            let i = choose|i: int| 0 <= i < res.len() && res[i] == d;
            assert(tail[i - 1] == d);
            assert(tail.contains(d));
            assert(tail.to_multiset().count(d) > 0);
            assert(kept.contains(d));
            let j = choose|j: int| 0 <= j < kept.len() && kept[j] == d;
            lemma_filter_from(dirs, p, j);
        }
        if dirs.contains(d) {
            let i = choose|i: int| 0 <= i < dirs.len() && dirs[i] == d;
            dirs.lemma_filter_contains(p, i);
            assert(kept.to_multiset().count(d) > 0);
            assert(tail.contains(d));
            let j = choose|j: int| 0 <= j < tail.len() && tail[j] == d;
            assert(res[j + 1] == d);
        }
    }
    assert forall|i: int, j: int| 0 < i < j < res.len() implies !before(
        #[trigger] res[j],
        #[trigger] res[i],
        false,
    ) by {
        assert(tail[i - 1] == res[i]);
        assert(tail[j - 1] == res[j]);
    }
}

pub proof fn lemma_blank(s: Seq<char>)
    ensures
        trim(s).len() == 0 <==> forall|i: int| 0 <= i < s.len() ==> is_white(#[trigger] s[i]),
{
    if forall|i: int| 0 <= i < s.len() ==> is_white(#[trigger] s[i]) {
        law_trim(s, seq![], seq![]);
        assert(s + Seq::<char>::empty() + Seq::<char>::empty() =~= s);
    } else {
        let k = choose|k: int| 0 <= k < s.len() && !is_white(#[trigger] s[k]);
        lemma_keeps_start(s, k);
        let t = trim_start(s);
        let j = choose|j: int| 0 <= j < t.len() && !is_white(#[trigger] t[j]);
        lemma_keeps_end(t, j);
    }
}

proof fn lemma_keeps_start(s: Seq<char>, k: int)
    requires
        0 <= k < s.len(),
        !is_white(s[k]),
    ensures
        exists|j: int| 0 <= j < trim_start(s).len() && !is_white(#[trigger] trim_start(s)[j]),
    decreases s.len(),
{
    if is_white(s[0]) {
        assert(s.skip(1)[k - 1] == s[k]);
        lemma_keeps_start(s.skip(1), k - 1);
        let t = trim_start(s.skip(1));
        assert(trim_start(s) == t);
        let j = choose|j: int| 0 <= j < t.len() && !is_white(#[trigger] t[j]);
        assert(!is_white(trim_start(s)[j]));
    } else {
        assert(trim_start(s) == s);
        assert(!is_white(trim_start(s)[0]));
    }
}

proof fn lemma_keeps_end(s: Seq<char>, k: int)
    requires
        0 <= k < s.len(),
        !is_white(s[k]),
    ensures
        trim_end(s).len() > 0,
    decreases s.len(),
{
    if is_white(s.last()) {
        assert(s.drop_last()[k] == s[k]);
        lemma_keeps_end(s.drop_last(), k);
    }
}

/// A pattern can be trusted exactly if it is not blank, holds nothing dangerous, and is not too large
/// to be compiled.
pub proof fn law_what_can_be_trusted(command: Seq<char>)
    ensures
        trusted_command_error(command) is None <==> {
            &&& exists|i: int| 0 <= i < command.len() && !is_white(#[trigger] command[i])
            &&& !holds_shell_sign(command)
            &&& !holds_destruction(command)
            &&& regex_error(anchored(command)) is None
        },
        trusted_command_error(seq![]) == Some("Command pattern cannot be empty"@),
        dangerous_match(command) is Some && (exists|i: int|
            0 <= i < command.len() && !is_white(#[trigger] command[i])) ==> trusted_command_error(command)
            == Some(
            "Command pattern '"@ + command + "' contains dangerous pattern '"@ + (dangerous_match(command)->0).0
                + (("' ("@ + (match (dangerous_match(command)->0).1 {
                DangerousPatternType::Destructive => "destructive command"@,
                DangerousPatternType::ShellControl => "shell control pattern"@,
                DangerousPatternType::IoRedirection => "I/O redirection pattern"@,
            })) + ") and cannot be trusted"@),
        ),
        dangerous_match(command) is None && (exists|i: int|
            0 <= i < command.len() && !is_white(#[trigger] command[i])) && regex_error(anchored(command)) is Some
            ==> trusted_command_error(command) == Some(
            "Command pattern '"@ + command + "' contains invalid regex syntax"@,
        ),
{
    lemma_blank(command);
    lemma_blank(seq![]);
    law_what_is_dangerous(command);
    law_match_iff_dangerous(command);
}

/// Trusting a pattern records it with its description: in the place of the first one with the same
/// pattern, or at the end. All others stay where they are.
pub proof fn law_trust_is_recorded(list: Seq<TrustedText>, one: TrustedText, i: int)
    ensures
        ({
            let now = with_trusted(list, one);
            let known = exists|j: int| 0 <= j < list.len() && (#[trigger] list[j]).0 == one.0;
            &&& now.contains(one)
            &&& known ==> now.len() == list.len()
            &&& !known ==> now == list.push(one)
            &&& 0 <= i < list.len() && list[i].0 != one.0 ==> now[i] == list[i]
            &&& has_trusted(list, one.0) <==> known
        }),
{
    lemma_find_trusted(list, one.0, 0);
    let at = find_trusted(list, one.0, 0);
    let now = with_trusted(list, one);
    if at < list.len() {
        assert(now[at] == one);
    } else {
        assert(now[list.len() as int] == one);
    }
}

/// A path that begins with `~` is taken from the home directory; any other path stays.
pub proof fn law_home(path: Seq<char>, home: Seq<char>)
    ensures
        expanded("~"@ + path, home) == home + path,
        path.len() == 0 || path[0] != '~' ==> expanded(path, home) == path,
{
    reveal_strlit("~");
    assert(("~"@ + path).skip(1) =~= path);
}

/// A rule is a pattern exactly if it holds a star, a question mark, or an opening bracket.
pub proof fn law_globs(path: Seq<char>)
    ensures
        is_glob(path) <==> exists|i: int|
            0 <= i < path.len() && (#[trigger] path[i] == '*' || path[i] == '?' || path[i] == '['),
{
}

/// A file that was read is added with its path and its content; of a directory every file that was
/// read; and nothing else.
pub proof fn law_files_of_a_path(
    path: Seq<char>,
    content: String,
    e: String,
    entries: Seq<(String, Option<String>)>,
    one: (String, Option<String>),
)
    ensures
        files_at(path, PathContents::File(Ok(content))) == seq![(path, content@)],
        files_at(path, PathContents::File(Err(e))).len() == 0,
        files_at(path, PathContents::Unknown).len() == 0,
        readable(seq![], 0).len() == 0,
        readable(entries.push(one), entries.len() as int + 1) == match one.1 {
            Some(c) => readable(entries, entries.len() as int).push((one.0@, c@)),
            None => readable(entries, entries.len() as int),
        },
{
    lemma_readable_prefix(entries, one, entries.len() as int);
}

proof fn lemma_readable_prefix(
    entries: Seq<(String, Option<String>)>,
    one: (String, Option<String>),
    n: int,
)
    requires
        0 <= n <= entries.len(),
    ensures
        readable(entries.push(one), n) == readable(entries, n),
    decreases n,
{
    if n > 0 {
        lemma_readable_prefix(entries, one, n - 1);
    }
}

/// A search for a pattern adds the files of each match in turn. A place that cannot be searched is
/// passed over, unless rules are checked: then it is an error, and so is finding nothing.
pub proof fn law_pattern_search(
    entries: Seq<GlobEntry>,
    i: int,
    files: Seq<FileText>,
    found: bool,
    path: Seq<char>,
    validating: bool,
)
    requires
        0 <= i,
    ensures
        i >= entries.len() ==> glob_scan(entries, i, files, found, path, validating).0 == files,
        i >= entries.len() ==> (glob_scan(entries, i, files, found, path, validating).1 is None <==> found
            || !validating),
        i < entries.len() ==> match entries[i] {
            GlobEntry::Found(Ok(more)) => glob_scan(entries, i, files, found, path, validating)
                == glob_scan(
                entries,
                i + 1,
                files + crate::context_rules::file_texts(more@),
                true,
                path,
                validating,
            ),
            GlobEntry::Found(Err(e)) => glob_scan(entries, i, files, found, path, validating) == (
                files,
                Some(e@),
            ),
            GlobEntry::Failed(e) => if validating {
                glob_scan(entries, i, files, found, path, validating).0 == files && glob_scan(
                    entries,
                    i,
                    files,
                    found,
                    path,
                    validating,
                ).1 is Some
            } else {
                glob_scan(entries, i, files, found, path, validating) == glob_scan(
                    entries,
                    i + 1,
                    files,
                    found,
                    path,
                    validating,
                )
            },
        },
{
}

/// A rule that is a plain path adds the files there; a path where nothing is adds none, which is an
/// error only where rules are checked.
pub proof fn law_plain_rule(
    path: Seq<char>,
    more: Vec<(String, String)>,
    e: String,
    files: Seq<FileText>,
    validating: bool,
)
    ensures
        processed(path, Findings::Plain(Some(Ok(more))), files, validating) == (
            files + crate::context_rules::file_texts(more@),
            None::<Seq<char>>,
        ),
        processed(path, Findings::Plain(Some(Err(e))), files, validating) == (files, Some(e@)),
        processed(path, Findings::Plain(None), files, true) == (
            files,
            Some("Path '"@ + path + "' does not exist"@),
        ),
        processed(path, Findings::Plain(None), files, false) == (files, None::<Seq<char>>),
        processed(path, Findings::Glob(Err(e)), files, validating) == (files, Some(e@)),
{
}

/// The files of a context stand in the order of their names, each name once; and of the files with
/// one name the first is there, as it was.
pub proof fn law_files_are_arranged(files: Seq<FileText>, res: Seq<FileText>, i: int)
    requires
        arranged(files, res),
        0 <= i < files.len(),
        forall|j: int| 0 <= j < i ==> (#[trigger] files[j]).0 != files[i].0,
    ensures
        res.contains(files[i]),
        forall|a: int, b: int|
            0 <= a < b < res.len() ==> before((#[trigger] res[a]).0, (#[trigger] res[b]).0, false),
        forall|a: int| 0 <= a < res.len() ==> files.contains(#[trigger] res[a]),
{
    assert(has_file(res, files[i].0));
    let k = choose|k: int| 0 <= k < res.len() && (#[trigger] res[k]).0 == files[i].0;
    lemma_first_contents(files, files[i].0, 0, i);
    assert(res[k] == files[i]);
    assert forall|a: int| 0 <= a < res.len() implies files.contains(#[trigger] res[a]) by {
        assert(has_file(files, res[a].0));
        let j = choose|j: int| 0 <= j < files.len() && (#[trigger] files[j]).0 == res[a].0;
        lemma_some_contents(files, res[a].0, 0, j);
    }
}

proof fn lemma_first_contents(files: Seq<FileText>, name: Seq<char>, from: int, i: int)
    requires
        0 <= from <= i < files.len(),
        files[i].0 == name,
        forall|j: int| from <= j < i ==> (#[trigger] files[j]).0 != name,
    ensures
        first_contents(files, name, from) == files[i].1,
    decreases i - from,
{
    if from < i {
        assert(files[from].0 != name);
        lemma_first_contents(files, name, from + 1, i);
    }
}

proof fn lemma_some_contents(files: Seq<FileText>, name: Seq<char>, from: int, i: int)
    requires
        0 <= from <= i < files.len(),
        files[i].0 == name,
    ensures
        files.contains((name, first_contents(files, name, from))),
    decreases i - from,
{
    if files[from].0 == name {
        assert(files[from] == (name, first_contents(files, name, from)));
    } else {
        lemma_some_contents(files, name, from + 1, i);
    }
}

proof fn lemma_first_known(paths: Seq<Seq<char>>, known: Seq<Seq<char>>, from: int)
    requires
        0 <= from <= paths.len(),
    ensures
        from <= first_known(paths, known, from) <= paths.len(),
        forall|i: int| from <= i < first_known(paths, known, from) ==> !known.contains(#[trigger] paths[i]),
        first_known(paths, known, from) < paths.len() ==> known.contains(
            paths[first_known(paths, known, from)],
        ),
    decreases paths.len() - from,
{
    if from < paths.len() && !known.contains(paths[from]) {
        lemma_first_known(paths, known, from + 1);
    }
}

/// Rules that are all new are added behind those that are there, in order, and to no other
/// configuration; nothing else changes.
pub proof fn law_new_rules(m: ManagerText, paths: Seq<Seq<char>>)
    requires
        forall|i: int|
            0 <= i < paths.len() ==> !m.global.paths.contains(#[trigger] paths[i]) && !m.profile.paths.contains(
                paths[i],
            ),
    ensures
        rules_error(m, paths, None) is None,
        rules_added(m, paths, false) == (ManagerText {
            profile: ConfigText { paths: m.profile.paths + paths, ..m.profile },
            ..m
        }),
        rules_added(m, paths, true) == (ManagerText {
            global: ConfigText { paths: m.global.paths + paths, ..m.global },
            ..m
        }),
{
    let known = m.global.paths + m.profile.paths;
    lemma_first_known(paths, known, 0);
    let n = first_known(paths, known, 0);
    if n < paths.len() {
        let k = choose|k: int| 0 <= k < known.len() && known[k] == paths[n];
        if k < m.global.paths.len() {
            assert(m.global.paths[k] == paths[n]);
        } else {
            assert(m.profile.paths[k - m.global.paths.len()] == paths[n]);
        }
    }
    assert(paths.take(n) =~= paths);
}

/// The first rule that some configuration has already ends the adding, with an error that names it.
pub proof fn law_known_rule(m: ManagerText, paths: Seq<Seq<char>>, k: int, global: bool)
    requires
        0 <= k < paths.len(),
        m.global.paths.contains(paths[k]) || m.profile.paths.contains(paths[k]),
        forall|i: int|
            0 <= i < k ==> !m.global.paths.contains(#[trigger] paths[i]) && !m.profile.paths.contains(
                paths[i],
            ),
    ensures
        rules_error(m, paths, None) == Some("Rule '"@ + paths[k] + "' already exists."@),
        rules_added(m, paths, global).config(global).paths == m.config(global).paths + paths.take(k),
        rules_added(m, paths, global).config(!global) == m.config(!global),
{
    let known = m.global.paths + m.profile.paths;
    lemma_first_known(paths, known, 0);
    let n = first_known(paths, known, 0);
    assert(known.contains(paths[k])) by {
        if m.global.paths.contains(paths[k]) {
            let j = choose|j: int| 0 <= j < m.global.paths.len() && m.global.paths[j] == paths[k];
            assert(known[j] == paths[k]);
        } else {
            let j = choose|j: int| 0 <= j < m.profile.paths.len() && m.profile.paths[j] == paths[k];
            assert(known[m.global.paths.len() + j] == paths[k]);
        }
    }
    if n < k {
        let j = choose|j: int| 0 <= j < known.len() && known[j] == paths[n];
        if j < m.global.paths.len() {
            assert(m.global.paths[j] == paths[n]);
        } else {
            assert(m.profile.paths[j - m.global.paths.len()] == paths[n]);
        }
    }
    assert(n == k);
}

/// Removing rules leaves all others, and none of these; it is told whether one was there.
pub proof fn law_rules_are_removed(rules: Seq<Seq<char>>, paths: Seq<Seq<char>>, one: Seq<char>)
    ensures
        rules.filter(not_among(paths)).contains(one) <==> rules.contains(one) && !paths.contains(one),
        any_among(rules, paths) <==> exists|r: Seq<char>| #[trigger] rules.contains(r) && paths.contains(r),
{
    let p = not_among(paths);
    let kept = rules.filter(p);
    if kept.contains(one) {
        let i = choose|i: int| 0 <= i < kept.len() && kept[i] == one;
        lemma_filter_from(rules, p, i);
    }
    if rules.contains(one) && !paths.contains(one) {
        let i = choose|i: int| 0 <= i < rules.len() && rules[i] == one;
        rules.lemma_filter_contains(p, i);
    }
    if any_among(rules, paths) {
        let i = choose|i: int| 0 <= i < rules.len() && paths.contains(#[trigger] rules[i]);
        assert(rules.contains(rules[i]));
    }
    if exists|r: Seq<char>| #[trigger] rules.contains(r) && paths.contains(r) {
        let r = choose|r: Seq<char>| #[trigger] rules.contains(r) && paths.contains(r);
        let i = choose|i: int| 0 <= i < rules.len() && rules[i] == r;
        assert(paths.contains(rules[i]));
    }
}

/// The files that were dropped are left out by name, and no others.
pub proof fn law_dropped_files(files: Seq<FileText>, dropped: Seq<FileText>, one: FileText)
    ensures
        files.filter(not_dropped(dropped)).contains(one) <==> files.contains(one) && forall|i: int|
            0 <= i < dropped.len() ==> (#[trigger] dropped[i]).0 != one.0,
{
    let p = not_dropped(dropped);
    let kept = files.filter(p);
    if kept.contains(one) {
        let i = choose|i: int| 0 <= i < kept.len() && kept[i] == one;
        lemma_filter_from(files, p, i);
    }
    if files.contains(one) && !has_file(dropped, one.0) {
        let i = choose|i: int| 0 <= i < files.len() && files[i] == one;
        files.lemma_filter_contains(p, i);
    }
}

/// Leaving hooks out, or not, touches nothing else of them; and so does telling them their names and
/// whose they are.
pub proof fn law_hooks_are_changed(hooks: HookTexts, name: Seq<char>, flag: bool)
    ensures
        ({
            let now = changed_hooks(hooks, with_disabled(flag));
            &&& now.contains_key(name) <==> hooks.contains_key(name)
            &&& hooks.contains_key(name) ==> {
                &&& now[name].disabled == flag
                &&& now[name].trigger == hooks[name].trigger
                &&& now[name].command == hooks[name].command
                &&& now[name].options == hooks[name].options
                &&& now[name].name == hooks[name].name
                &&& now[name].is_global == hooks[name].is_global
            }
        }),
        ({
            let now = changed_hooks(hooks, with_origin(flag));
            &&& now.contains_key(name) <==> hooks.contains_key(name)
            &&& hooks.contains_key(name) ==> {
                &&& now[name].name == name
                &&& now[name].is_global == flag
                &&& now[name].trigger == hooks[name].trigger
                &&& now[name].command == hooks[name].command
                &&& now[name].options == hooks[name].options
                &&& now[name].disabled == hooks[name].disabled
            }
        }),
{
}

/// `/context` never touches what holds for all profiles, nor hooks and trusted commands; to show the
/// rules changes nothing, and to clear them leaves none.
pub proof fn law_context_command(sub: ContextSubcommand, m: ManagerText, facts: ContextFacts)
    ensures
        ({
            let (action, now) = context_action(sub, m, facts);
            &&& now.global == m.global
            &&& now.current == m.current
            &&& now.profile.hooks == m.profile.hooks
            &&& now.profile.trusted == m.profile.trusted
            &&& sub is Show ==> now == m && action is Print
            &&& sub is Clear ==> now.profile.paths.len() == 0 && action == ContextActionText::Save(
                seq![(Ink::Green, false, "\nCleared context\n\n"@)],
            )
        }),
{
}

/// `/context add` with new rules adds them to the profile and saves; a rule that picks no file ends
/// it, unless it is forced, and then nothing changes.
pub proof fn law_context_add(m: ManagerText, paths: Vec<String>, force: bool, facts: ContextFacts)
    requires
        forall|i: int|
            0 <= i < texts(paths@).len() ==> !m.global.paths.contains(#[trigger] texts(paths@)[i])
                && !m.profile.paths.contains(texts(paths@)[i]),
    ensures
        ({
            let (action, now) = context_action(ContextSubcommand::Add { force, paths }, m, facts);
            if force || facts.invalid is None {
                now.profile.paths == m.profile.paths + texts(paths@) && action == ContextActionText::Save(
                    seq![
                        (
                            Ink::Green,
                            false,
                            "\nAdded "@ + decimal(paths@.len()) + " path(s) to context.\n\n"@,
                        ),
                    ],
                )
            } else {
                now == m && action is Print
            }
        }),
{
    law_new_rules(m, texts(paths@));
}

/// `/context remove` leaves the rules that were not named, and saves, where one of the named rules is
/// there; else it changes nothing.
pub proof fn law_context_remove(m: ManagerText, paths: Vec<String>, facts: ContextFacts, one: Seq<char>)
    ensures
        ({
            let (action, now) = context_action(ContextSubcommand::Remove { paths }, m, facts);
            let any = exists|r: Seq<char>| #[trigger]
                m.profile.paths.contains(r) && texts(paths@).contains(r);
            &&& any ==> action == ContextActionText::Save(
                seq![
                    (
                        Ink::Green,
                        false,
                        "\nRemoved "@ + decimal(paths@.len()) + " path(s) from context.\n\n"@,
                    ),
                ],
            )
            &&& any ==> (now.profile.paths.contains(one) <==> m.profile.paths.contains(one)
                && !texts(paths@).contains(one))
            &&& !any ==> action is Print && now == m
        }),
{
    law_rules_are_removed(m.profile.paths, texts(paths@), one);
}

/// The rules are shown one by one, each with the number of files that it picks, where that is known.
pub proof fn law_rules_are_shown(
    paths: Seq<Seq<char>>,
    matches: Seq<Option<usize>>,
    path: Seq<char>,
    count: Option<usize>,
)
    requires
        paths.len() == matches.len(),
    ensures
        rule_lines(seq![], seq![], 0).len() == 0,
        rule_lines(paths.push(path), matches.push(count), paths.len() as int + 1) == rule_lines(
            paths,
            matches,
            paths.len() as int,
        ) + match count {
            Some(1) => seq![
                (Ink::Plain, false, "    "@ + path + " "@),
                (Ink::Green, false, "("@ + decimal(1) + " match"@ + ""@ + ")"@),
                (Ink::Plain, false, "\n"@),
            ],
            Some(n) => seq![
                (Ink::Plain, false, "    "@ + path + " "@),
                (Ink::Green, false, "("@ + decimal(n as nat) + " match"@ + "es"@ + ")"@),
                (Ink::Plain, false, "\n"@),
            ],
            None => seq![(Ink::Plain, false, "    "@ + path + " "@), (Ink::Plain, false, "\n"@)],
        },
{
    lemma_rule_lines_prefix(paths, matches, path, count, paths.len() as int);
    let was = rule_lines(paths, matches, paths.len() as int);
    let now = rule_lines(paths.push(path), matches.push(count), paths.len() as int + 1);
    match count {
        Some(n) => {
            assert(now =~= was + seq![
                (Ink::Plain, false, "    "@ + path + " "@),
                (Ink::Green, false, match_count(n as nat)),
                (Ink::Plain, false, "\n"@),
            ]);
        },
        None => {
            assert(now =~= was + seq![
                (Ink::Plain, false, "    "@ + path + " "@),
                (Ink::Plain, false, "\n"@),
            ]);
        },
    }
}

proof fn lemma_rule_lines_prefix(
    paths: Seq<Seq<char>>,
    matches: Seq<Option<usize>>,
    path: Seq<char>,
    count: Option<usize>,
    n: int,
)
    requires
        0 <= n <= paths.len(),
        paths.len() == matches.len(),
    ensures
        rule_lines(paths.push(path), matches.push(count), n) == rule_lines(paths, matches, n),
    decreases n,
{
    if n > 0 {
        lemma_rule_lines_prefix(paths, matches, path, count, n - 1);
    }
}

/// The summary of the conversation is shown only where the rules are shown in full.
pub proof fn law_summary_is_shown(
    m: ManagerText,
    matches: Seq<Option<usize>>,
    summary: Option<Seq<char>>,
    width: nat,
)
    ensures
        show_report(m, matches, summary, width, false) == show_report(m, matches, None, width, true),
        m.profile.paths.len() == 0 ==> show_report(m, matches, None, width, true) == seq![
            (Ink::Magenta, true, "\n👤 profile ("@ + m.current + "):\n"@),
            (Ink::DarkGrey, false, "    <none>\n\n"@),
        ],
        m.profile.paths.len() > 0 ==> show_report(m, matches, None, width, true) == seq![
            (Ink::Magenta, true, "\n👤 profile ("@ + m.current + "):\n"@),
        ] + rule_lines(m.profile.paths, matches, m.profile.paths.len() as int) + seq![
            (Ink::Plain, false, "\n"@),
        ],
        summary matches Some(s) ==> {
            let shown = show_report(m, matches, summary, width, true);
            &&& shown.len() == show_report(m, matches, None, width, true).len() + 4
            &&& shown.last() == (Ink::Plain, false, "\n\n"@ + s + "\n\n\n"@)
            &&& width >= 80 ==> shown == show_report(m, matches, None, width, true) + framed(
                s,
                repeated('═', 80),
            )
            &&& width < 80 ==> shown == show_report(m, matches, None, width, true) + framed(
                s,
                repeated('═', width),
            )
        },
{
    if let Some(s) = summary {
        let before = show_report(m, matches, None, width, true);
        let shown = show_report(m, matches, summary, width, true);
        assert(width >= 80 ==> shown =~= before + framed(s, repeated('═', 80)));
        assert(width < 80 ==> shown =~= before + framed(s, repeated('═', width)));
    }
}

/// A summary between two borders.
pub open spec fn framed(summary: Seq<char>, border: Seq<char>) -> Seq<SpanText> {
    seq![
        (Ink::Plain, false, "\n"@),
        (Ink::Cyan, false, border + "\n"@),
        (Ink::Cyan, true, "                       CONVERSATION SUMMARY"@ + "\n"@ + border),
        (Ink::Plain, false, "\n\n"@ + summary + "\n\n\n"@),
    ]
}

} // verus!
