//! What holds of the context across its operations.

use vstd::prelude::*;

use crate::context::{
    add_missing, combined_trusted, find_trusted, has_trusted, lemma_find_trusted, other_pattern,
    trusted_command_error, with_trusted, without_trusted, ConfigFile, ManagerText,
};
use crate::context_rules::{any_among, first_known, not_among, rules_added};
use crate::dangerous_patterns::{is_dangerous, law_match_iff_dangerous};
use crate::execute::{acceptance_needed, law_trusted_runs};
use crate::matcher::{anchored, regex_error};
use crate::name_map::lemma_filter_all;
use crate::profiles::{is_profile_list, not_default, switched};
use crate::trusted_commands::{glob_matches, trusts, TrustedText};

verus! {

/// No pattern is trusted twice.
pub open spec fn is_distinct(list: Seq<TrustedText>) -> bool {
    forall|i: int, j: int|
        0 <= i < j < list.len() ==> (#[trigger] list[i]).0 != (#[trigger] list[j]).0
}

/// A pattern that the context accepts holds no dangerous pattern and can be compiled.
pub proof fn law_accepted_pattern(command: Seq<char>)
    requires
        trusted_command_error(command) is None,
    ensures
        !is_dangerous(command),
        regex_error(anchored(command)) is None,
{
    law_match_iff_dangerous(command);
}

/// Trusting a pattern makes it trusted, and leaves trusted what was.
pub proof fn law_trust_grows(list: Seq<TrustedText>, one: TrustedText, command: Seq<char>)
    ensures
        has_trusted(with_trusted(list, one), one.0),
        trusts(with_trusted(list, one), one.0),
        trusts(list, command) ==> trusts(with_trusted(list, one), command),
{
    let now = with_trusted(list, one);
    let at = find_trusted(list, one.0, 0);
    lemma_find_trusted(list, one.0, 0);
    assert(now[at] == one);
    assert(glob_matches(now[at].0, one.0));
    lemma_has_trusted(now, one.0, at);
    if trusts(list, command) {
        let i = choose|i: int| 0 <= i < list.len() && glob_matches((#[trigger] list[i]).0, command);
        assert(now[i].0 == list[i].0);
    }
}

/// A command that was allowed as it stands runs without acceptance from then on, as long as it
/// can be taken apart into words.
pub proof fn law_allowed_command_runs(
    list: Seq<TrustedText>,
    one: TrustedText,
    args: Seq<Seq<char>>,
)
    requires
        trusted_command_error(one.0) is None,
    ensures
        !acceptance_needed(Some(args), one.0, trusts(with_trusted(list, one), one.0)),
{
    law_accepted_pattern(one.0);
    law_trust_grows(list, one, one.0);
    law_trusted_runs(args, one.0);
}

/// Where no pattern is trusted, no command is.
pub proof fn law_nothing_trusted(command: Seq<char>)
    ensures
        !trusts(seq![], command),
{
}

/// A pattern that stands somewhere in the list is found.
pub proof fn lemma_has_trusted(list: Seq<TrustedText>, command: Seq<char>, i: int)
    requires
        0 <= i < list.len(),
        list[i].0 == command,
    ensures
        has_trusted(list, command),
{
    lemma_find_trusted(list, command, 0);
}

/// Trusting a pattern keeps the patterns distinct.
pub proof fn law_trust_keeps_distinct(list: Seq<TrustedText>, one: TrustedText)
    requires
        is_distinct(list),
    ensures
        is_distinct(with_trusted(list, one)),
{
    lemma_find_trusted(list, one.0, 0);
}

/// Taking a pattern out that was new gives back the list from before.
pub proof fn law_untrust_undoes_trust(list: Seq<TrustedText>, one: TrustedText)
    requires
        !has_trusted(list, one.0),
    ensures
        without_trusted(with_trusted(list, one), one.0) == list,
{
    lemma_find_trusted(list, one.0, 0);
    let p = other_pattern(one.0);
    lemma_filter_all(list, p);
    reveal(Seq::filter);
    assert(list.push(one).drop_last() =~= list);
}

/// A pattern that was taken out is not trusted any more, and no other one is touched.
pub proof fn law_untrusted(list: Seq<TrustedText>, command: Seq<char>)
    ensures
        !has_trusted(without_trusted(list, command), command),
        forall|t: TrustedText| t.0 != command ==> (list.contains(t) <==> #[trigger] without_trusted(
            list,
            command,
        ).contains(t)),
{
    let p = other_pattern(command);
    let rest = without_trusted(list, command);
    broadcast use Seq::lemma_filter_len;

    lemma_find_trusted(rest, command, 0);
    assert forall|i: int| 0 <= i < rest.len() implies (#[trigger] rest[i]).0 != command by {
        list.lemma_filter_pred(p, i);
    }
    assert forall|t: TrustedText| t.0 != command implies (list.contains(t) <==> #[trigger] rest.contains(t)) by {
        if list.contains(t) {
            let i = choose|i: int| 0 <= i < list.len() && list[i] == t;
            list.lemma_filter_contains(p, i);
        }
        if rest.contains(t) {
            let i = choose|i: int| 0 <= i < rest.len() && rest[i] == t;
            lemma_filter_from(list, p, i);
        }
    }
}

/// What is kept of a sequence was in it.
pub proof fn lemma_filter_from<A>(s: Seq<A>, p: spec_fn(A) -> bool, i: int)
    requires
        0 <= i < s.filter(p).len(),
    ensures
        s.contains(s.filter(p)[i]),
        p(s.filter(p)[i]),
    decreases s.len(),
{
    reveal(Seq::filter);
    if s.len() > 0 {
        let kept = s.drop_last().filter(p);
        if i < kept.len() {
            lemma_filter_from(s.drop_last(), p, i);
            let x = kept[i];
            let j = choose|j: int| 0 <= j < s.drop_last().len() && s.drop_last()[j] == x;
            assert(s[j] == x);
        } else {
            assert(s[s.len() - 1] == s.filter(p)[i]);
        }
    }
}

proof fn lemma_add_missing(list: Seq<TrustedText>, more: Seq<TrustedText>, n: int)
    requires
        0 <= n <= more.len(),
    ensures
        list.len() <= add_missing(list, more, n).len(),
        forall|i: int| 0 <= i < list.len() ==> add_missing(list, more, n)[i] == #[trigger] list[i],
        forall|i: int| 0 <= i < n ==> has_trusted(add_missing(list, more, n), (#[trigger] more[i]).0),
        forall|i: int|
            list.len() <= i < add_missing(list, more, n).len() ==> more.contains(
                #[trigger] add_missing(list, more, n)[i],
            ),
        is_distinct(list) ==> is_distinct(add_missing(list, more, n)),
    decreases n,
{
    if n > 0 {
        lemma_add_missing(list, more, n - 1);
        let was = add_missing(list, more, n - 1);
        let now = add_missing(list, more, n);
        lemma_find_trusted(was, more[n - 1].0, 0);
        assert forall|i: int| 0 <= i < n implies has_trusted(now, (#[trigger] more[i]).0) by {
            if i < n - 1 {
                assert(has_trusted(was, more[i].0));
                lemma_find_trusted(was, more[i].0, 0);
                lemma_has_trusted(now, more[i].0, find_trusted(was, more[i].0, 0));
            } else if !has_trusted(was, more[i].0) {
                lemma_has_trusted(now, more[i].0, was.len() as int);
            }
        }
        assert forall|i: int| list.len() <= i < now.len() implies more.contains(#[trigger] now[i]) by {
            if i < was.len() {
                assert(now[i] == was[i]);
            } else {
                assert(now[i] == more[n - 1]);
            }
        }
    }
}

/// A command is trusted by the combined configuration exactly if the global one or that of the
/// profile trusts it.
pub proof fn law_combined_trusts(global: Seq<TrustedText>, profile: Seq<TrustedText>, command: Seq<char>)
    ensures
        trusts(combined_trusted(global, profile), command) <==> trusts(global, command) || trusts(
            profile,
            command,
        ),
{
    let sum = combined_trusted(global, profile);
    lemma_add_missing(global, profile, profile.len() as int);
    if trusts(sum, command) {
        let i = choose|i: int| 0 <= i < sum.len() && glob_matches((#[trigger] sum[i]).0, command);
        if i < global.len() {
            assert(sum[i] == global[i]);
        } else {
            assert(profile.contains(sum[i]));
            let j = choose|j: int| 0 <= j < profile.len() && profile[j] == sum[i];
            assert(glob_matches(profile[j].0, command));
        }
    }
    if trusts(global, command) {
        let i = choose|i: int| 0 <= i < global.len() && glob_matches((#[trigger] global[i]).0, command);
        assert(sum[i] == global[i]);
    }
    if trusts(profile, command) {
        let i = choose|i: int| 0 <= i < profile.len() && glob_matches((#[trigger] profile[i]).0, command);
        assert(has_trusted(sum, profile[i].0));
        lemma_find_trusted(sum, profile[i].0, 0);
        let j = find_trusted(sum, profile[i].0, 0);
        assert(sum[j].0 == profile[i].0);
    }
}

/// The combined configuration begins with the global one, whose descriptions count, and repeats
/// no pattern of a global configuration that repeats none.
pub proof fn law_combined_prefers_global(global: Seq<TrustedText>, profile: Seq<TrustedText>)
    ensures
        global.len() <= combined_trusted(global, profile).len(),
        combined_trusted(global, profile).take(global.len() as int) == global,
        is_distinct(global) ==> is_distinct(combined_trusted(global, profile)),
{
    lemma_add_missing(global, profile, profile.len() as int);
    assert(combined_trusted(global, profile).take(global.len() as int) =~= global);
}

proof fn lemma_first_known(paths: Seq<Seq<char>>, known: Seq<Seq<char>>, from: int)
    requires
        0 <= from <= paths.len(),
        forall|i: int| 0 <= i < paths.len() ==> !known.contains(#[trigger] paths[i]),
    ensures
        first_known(paths, known, from) == paths.len(),
    decreases paths.len() - from,
{
    if from < paths.len() {
        assert(!known.contains(paths[from]));
        lemma_first_known(paths, known, from + 1);
    }
}

/// Removing rules that were just added, and that were all new, gives back the rules from before.
pub proof fn law_remove_undoes_add(m: ManagerText, paths: Seq<Seq<char>>, global: bool)
    requires
        forall|i: int|
            0 <= i < paths.len() ==> !(m.global.paths + m.profile.paths).contains(#[trigger] paths[i]),
    ensures
        rules_added(m, paths, global).config(global).paths.filter(not_among(paths)) == m.config(
            global,
        ).paths,
        paths.len() > 0 ==> any_among(rules_added(m, paths, global).config(global).paths, paths),
{
    let known = m.global.paths + m.profile.paths;
    let rules = m.config(global).paths;
    let p = not_among(paths);
    lemma_first_known(paths, known, 0);
    assert(paths.take(paths.len() as int) =~= paths);
    Seq::filter_distributes_over_add(rules, paths, p);
    assert forall|i: int| 0 <= i < rules.len() implies p(rules[i]) by {
        if paths.contains(rules[i]) {
            let j = choose|j: int| 0 <= j < paths.len() && paths[j] == rules[i];
            let k = if global {
                i
            } else {
                m.global.paths.len() + i
            };
            assert(known[k] == rules[i]);
            assert(known.contains(paths[j]));
        }
    }
    lemma_filter_all(rules, p);
    lemma_filter_none(paths, p);
    assert(rules + Seq::<Seq<char>>::empty() =~= rules);
    if paths.len() > 0 {
        let now = rules + paths;
        assert(now[rules.len() as int] == paths[0]);
        assert(paths.contains(now[rules.len() as int]));
    }
}

/// A sequence of which no element is kept.
pub proof fn lemma_filter_none(s: Seq<Seq<char>>, p: spec_fn(Seq<char>) -> bool)
    requires
        forall|i: int| 0 <= i < s.len() ==> !p(s[i]),
    ensures
        s.filter(p) == Seq::<Seq<char>>::empty(),
    decreases s.len(),
{
    reveal(Seq::filter);
    if s.len() > 0 {
        lemma_filter_none(s.drop_last(), p);
    }
}

/// Switching profiles leaves what holds for all profiles as it was; a switch that succeeds makes
/// the profile the current one, and a refused name changes nothing.
pub proof fn law_switch(m: ManagerText, name: Seq<char>, exists_on_disk: bool, file: ConfigFile)
    ensures
        switched(m, name, exists_on_disk, file).0.global == m.global,
        switched(m, name, exists_on_disk, file).1 is None ==> switched(
            m,
            name,
            exists_on_disk,
            file,
        ).0.current == name,
        crate::profiles::profile_name_error(name) is Some ==> switched(m, name, exists_on_disk, file).0 == m,
{
}

/// Only the first of the listed profiles is the default one.
pub proof fn law_one_default(dirs: Seq<Seq<char>>, res: Seq<Seq<char>>, i: int)
    requires
        is_profile_list(dirs, res),
        0 < i < res.len(),
    ensures
        res[i] != "default"@,
        dirs.contains(res[i]),
{
    let p = not_default();
    let tail = res.skip(1);
    let kept = dirs.filter(p);
    assert(tail[i - 1] == res[i]);
    assert(tail.contains(res[i]));
    tail.to_multiset_ensures();
    kept.to_multiset_ensures();
    assert(tail.to_multiset().count(res[i]) > 0);
    assert(kept.contains(res[i]));
    let j = choose|j: int| 0 <= j < kept.len() && kept[j] == res[i];
    lemma_filter_from(dirs, p, j);
}

} // verus!
