//! Expanding `${NAME}` in texts by the values of environment variables.

use vstd::prelude::*;

use crate::name_map::NameMap;
use crate::split::{join, join_list, replace_all, replaced};
use crate::text::{cat2, cat3, chars_of, lemma_texts_push, occurs_at, string_from, texts};

verus! {

/// A character with which the name of a variable can begin.
pub open spec fn starts_name(c: char) -> bool {
    ('a' <= c && c <= 'z') || ('A' <= c && c <= 'Z') || c == '_'
}

/// A character of the name of a variable.
pub open spec fn is_name_part(c: char) -> bool {
    starts_name(c) || ('0' <= c && c <= '9')
}

fn name_start(c: char) -> (res: bool)
    ensures
        res == starts_name(c),
{
    ('a' <= c && c <= 'z') || ('A' <= c && c <= 'Z') || c == '_'
}

fn name_part(c: char) -> (res: bool)
    ensures
        res == is_name_part(c),
{
    name_start(c) || ('0' <= c && c <= '9')
}

/// Where the run of name characters from `i` on ends.
pub open spec fn name_end(s: Seq<char>, i: int) -> int
    decreases s.len() - i,
{
    if i >= s.len() || !is_name_part(s[i]) {
        i
    } else {
        name_end(s, i + 1)
    }
}

/// Whether `${NAME}` stands at `i`.
pub open spec fn is_placeholder(s: Seq<char>, i: int) -> bool {
    &&& 0 <= i
    &&& i + 2 < s.len()
    &&& s[i] == '$'
    &&& s[i + 1] == '{'
    &&& starts_name(s[i + 2])
    &&& name_end(s, i + 2) < s.len()
    &&& s[name_end(s, i + 2)] == '}'
}

/// The names of the placeholders from `i` on, in the order in which they stand.
pub open spec fn placeholders(s: Seq<char>, i: int) -> Seq<Seq<char>>
    decreases s.len() - i,
{
    if i >= s.len() {
        seq![]
    } else if is_placeholder(s, i) && name_end(s, i + 2) >= i + 2 {
        let e = name_end(s, i + 2);
        seq![s.subrange(i + 2, e)] + placeholders(s, e + 1)
    } else {
        placeholders(s, i + 1)
    }
}

/// The placeholder of a variable.
pub open spec fn placeholder(name: Seq<char>) -> Seq<char> {
    "${"@ + name + "}"@
}

/// A text in which the placeholders of the first `n` names, where the variables exist, were
/// replaced one after the other.
pub open spec fn substituted(
    text: Seq<char>,
    names: Seq<Seq<char>>,
    n: int,
    env: Map<Seq<char>, String>,
) -> Seq<char>
    decreases n,
{
    if n <= 0 {
        text
    } else {
        let before = substituted(text, names, n - 1, env);
        if env.contains_key(names[n - 1]) {
            replace_all(before, placeholder(names[n - 1]), env[names[n - 1]]@)
        } else {
            before
        }
    }
}

/// The names of variables that do not exist.
pub open spec fn unknown(env: Map<Seq<char>, String>) -> spec_fn(Seq<char>) -> bool {
    |name: Seq<char>| !env.contains_key(name)
}

/// The text with its placeholders replaced, or what is said of the variables that do not exist.
pub open spec fn expansion(text: Seq<char>, env: Map<Seq<char>, String>) -> Result<Seq<char>, Seq<char>> {
    let names = placeholders(text, 0);
    let missing = names.filter(unknown(env));
    if missing.len() > 0 {
        Err("Environment variables not found: "@ + join(missing, ", "@))
    } else {
        Ok(substituted(text, names, names.len() as int, env))
    }
}

/// The texts of a result.
pub open spec fn text_result(r: Result<String, String>) -> Result<Seq<char>, Seq<char>> {
    match r {
        Ok(t) => Ok(t@),
        Err(e) => Err(e@),
    }
}

proof fn lemma_name_end(s: Seq<char>, i: int)
    requires
        0 <= i <= s.len(),
    ensures
        i <= name_end(s, i) <= s.len(),
    decreases s.len() - i,
{
    if i < s.len() && is_name_part(s[i]) {
        lemma_name_end(s, i + 1);
    }
}

fn end_of_name(v: &Vec<char>, i: usize) -> (res: usize)
    requires
        i <= v@.len(),
    ensures
        res == name_end(v@, i as int),
        i <= res <= v@.len(),
{
    let mut j: usize = i;
    while j < v.len() && name_part(v[j])
        invariant
            i <= j <= v@.len(),
            name_end(v@, i as int) == name_end(v@, j as int),
        decreases v@.len() - j,
    {
        j += 1;
    }
    j
}

fn find_placeholders(text: &str) -> (res: Vec<String>)
    ensures
        texts(res@) == placeholders(text@, 0),
{
    let v = chars_of(text);
    let ghost all = placeholders(text@, 0);
    let mut out: Vec<String> = Vec::new();
    let mut i: usize = 0;
    assert(texts(out@) + placeholders(text@, 0) =~= all);
    while i < v.len()
        invariant
            v@ == text@,
            i <= v@.len(),
            texts(out@) + placeholders(text@, i as int) == all,
        decreases v@.len() - i,
    {
        let n: usize = v.len();
        if n - i > 2 && v[i] == '$' && v[i + 1] == '{' && name_start(v[i + 2]) {
            let e: usize = end_of_name(&v, i + 2);
            if e < n && v[e] == '}' {
                let name = string_from(&v, i + 2, e);
                let ghost before = out@;
                let ghost rest = placeholders(text@, e as int + 1);
                out.push(name);
                proof {
                    lemma_texts_push(before, name);
                    assert(placeholders(text@, i as int) == seq![name@] + rest);
                    assert(texts(out@) + rest =~= texts(before) + (seq![name@] + rest));
                }
                i = e + 1;
                continue;
            }
        }
        i += 1;
    }
    assert(texts(out@) + placeholders(text@, i as int) =~= texts(out@));
    out
}

/// Replaces each `${NAME}` by the value of the variable. Variables that do not exist are an
/// error that names them all.
pub fn expand_env_vars(input: &str, env: &NameMap<String>) -> (res: Result<String, String>)
    ensures
        text_result(res) == expansion(input@, env@),
{
    let names = find_placeholders(input);
    let ghost ns = placeholders(input@, 0);
    let ghost p = unknown(env@);
    let mut result = String::from_str(input);
    let mut missing: Vec<String> = Vec::new();
    let mut i: usize = 0;
    proof {
        reveal(Seq::filter);
        assert(texts(missing@) =~= ns.take(0).filter(p));
    }
    while i < names.len()
        invariant
            i <= names@.len(),
            ns == texts(names@),
            p == unknown(env@),
            texts(missing@) == ns.take(i as int).filter(p),
            result@ == substituted(input@, ns, i as int, env@),
        decreases names@.len() - i,
    {
        proof {
            reveal(Seq::filter);
            assert(ns.take(i as int + 1).drop_last() =~= ns.take(i as int));
            assert(ns.take(i as int + 1).last() == names@[i as int]@);
        }
        let name: &str = names[i].as_str();
        match env.get(name) {
            Some(value) => {
                let whole = cat3("${", name, "}");
                proof {
                    reveal_strlit("${");
                }
                result = replaced(result.as_str(), whole.as_str(), value.as_str());
            },
            None => {
                let one = String::from_str(name);
                let ghost before = missing@;
                missing.push(one);
                proof {
                    lemma_texts_push(before, one);
                }
            },
        }
        i += 1;
    }
    assert(ns.take(i as int) =~= ns);
    if missing.len() > 0 {
        let list = join_list(&missing, ", ");
        return Err(cat2("Environment variables not found: ", list.as_str()));
    }
    Ok(result)
}

/// The first of the texts from `i` on whose variables do not all exist, or their number.
pub open spec fn first_failing(list: Seq<Seq<char>>, i: int, env: Map<Seq<char>, String>) -> int
    decreases list.len() - i,
{
    if i >= list.len() || expansion(list[i], env) is Err {
        i
    } else {
        first_failing(list, i + 1, env)
    }
}

/// The texts, each expanded, or the first error.
pub open spec fn list_expansion(list: Seq<Seq<char>>, env: Map<Seq<char>, String>) -> Result<
    Seq<Seq<char>>,
    Seq<char>,
> {
    let n = first_failing(list, 0, env);
    if n < list.len() {
        Err(expansion(list[n], env)->Err_0)
    } else {
        Ok(Seq::new(list.len(), |i: int| expansion(list[i], env)->Ok_0))
    }
}

/// The texts of a result.
pub open spec fn list_result(r: Result<Vec<String>, String>) -> Result<Seq<Seq<char>>, Seq<char>> {
    match r {
        Ok(v) => Ok(texts(v@)),
        Err(e) => Err(e@),
    }
}

/// Expands the arguments of a command.
pub fn expand_env_vars_in_args(args: &Vec<String>, env: &NameMap<String>) -> (res: Result<
    Vec<String>,
    String,
>)
    ensures
        list_result(res) == list_expansion(texts(args@), env@),
{
    let ghost list = texts(args@);
    let mut out: Vec<String> = Vec::new();
    let mut i: usize = 0;
    while i < args.len()
        invariant
            i <= args@.len(),
            list == texts(args@),
            out@.len() == i,
            first_failing(list, 0, env@) == first_failing(list, i as int, env@),
            forall|j: int|
                0 <= j < i ==> Ok::<Seq<char>, Seq<char>>((#[trigger] out@[j])@) == expansion(list[j], env@),
        decreases args@.len() - i,
    {
        assert(list[i as int] == args@[i as int]@);
        match expand_env_vars(args[i].as_str(), env) {
            Ok(one) => {
                assert(expansion(list[i as int], env@) == Ok::<Seq<char>, Seq<char>>(one@));
                out.push(one);
            },
            Err(e) => {
                return Err(e);
            },
        }
        i += 1;
    }
    assert(texts(out@) =~= Seq::new(list.len(), |i: int| expansion(list[i], env@)->Ok_0));
    Ok(out)
}

/// Expands a command.
pub fn expand_env_vars_in_command(command: &str, env: &NameMap<String>) -> (res: Result<String, String>)
    ensures
        text_result(res) == expansion(command@, env@),
{
    expand_env_vars(command, env)
}

/// Expands the values of environment variables. Which of several errors is reported is left open
/// by the order of the map.
pub fn expand_env_vars_in_map(env_vars: &NameMap<String>, env: &NameMap<String>) -> (res: Result<
    NameMap<String>,
    String,
>)
    ensures
        match res {
            Ok(m) => {
                &&& list_expansion(texts(env_vars.values()), env@) == Ok::<_, Seq<char>>(texts(m.values()))
                &&& m.keys() == env_vars.keys()
            },
            Err(e) => list_expansion(texts(env_vars.values()), env@) == Err::<Seq<Seq<char>>, _>(e@),
        },
{
    let mut out = env_vars.clone();
    let ghost list = texts(env_vars.values());
    let mut i: usize = 0;
    proof {
        env_vars.lemma_lookup();
    }
    while i < env_vars.len()
        invariant
            list == texts(env_vars.values()),
            env_vars.keys().len() == list.len(),
            i <= list.len(),
            out.keys() == env_vars.keys(),
            out.values().len() == list.len(),
            first_failing(list, 0, env@) == first_failing(list, i as int, env@),
            forall|j: int|
                0 <= j < i ==> Ok::<Seq<char>, Seq<char>>((#[trigger] out.values()[j])@) == expansion(
                    list[j],
                    env@,
                ),
        decreases list.len() - i,
    {
        assert(list[i as int] == env_vars.values()[i as int]@);
        match expand_env_vars(env_vars.value_at(i).as_str(), env) {
            Ok(one) => {
                assert(expansion(list[i as int], env@) == Ok::<Seq<char>, Seq<char>>(one@));
                let place = out.value_mut_at(i);
                *place = one;
            },
            Err(e) => {
                return Err(e);
            },
        }
        i += 1;
    }
    assert(texts(out.values()) =~= Seq::new(list.len(), |i: int| expansion(list[i], env@)->Ok_0));
    Ok(out)
}

/// A text without placeholders is its own expansion, whatever variables exist.
pub proof fn law_no_placeholders(text: Seq<char>, env: Map<Seq<char>, String>)
    requires
        placeholders(text, 0).len() == 0,
    ensures
        expansion(text, env) == Ok::<Seq<char>, Seq<char>>(text),
{
    reveal(Seq::filter);
    assert(placeholders(text, 0).filter(unknown(env)).len() == 0);
}

/// A text expands exactly if every variable that it names exists.
pub proof fn law_expands_if_known(text: Seq<char>, env: Map<Seq<char>, String>)
    ensures
        expansion(text, env) is Ok <==> forall|i: int|
            0 <= i < placeholders(text, 0).len() ==> env.contains_key(#[trigger] placeholders(text, 0)[i]),
{
    let names = placeholders(text, 0);
    let p = unknown(env);
    if expansion(text, env) is Ok {
        assert forall|i: int| 0 <= i < names.len() implies env.contains_key(#[trigger] names[i]) by {
            if p(names[i]) {
                names.lemma_filter_contains(p, i);
            }
        }
    } else if forall|i: int| 0 <= i < names.len() ==> env.contains_key(#[trigger] names[i]) {
        let kept = names.filter(p);
        crate::context_laws::lemma_filter_from(names, p, 0);
        let j = choose|j: int| 0 <= j < names.len() && names[j] == kept[0];
        assert(env.contains_key(names[j]));
    }
}

/// A text without the character with which placeholders begin.
pub open spec fn is_inert(s: Seq<char>) -> bool {
    forall|i: int| 0 <= i < s.len() ==> #[trigger] s[i] != '$'
}

/// The text from `i` on with each placeholder replaced where it stands.
pub open spec fn filled(s: Seq<char>, i: int, env: Map<Seq<char>, String>) -> Seq<char>
    decreases s.len() - i,
{
    if i >= s.len() {
        seq![]
    } else if is_placeholder(s, i) && name_end(s, i + 2) >= i + 2 {
        let e = name_end(s, i + 2);
        env[s.subrange(i + 2, e)]@ + filled(s, e + 1, env)
    } else {
        seq![s[i]] + filled(s, i + 1, env)
    }
}

/// The text expands to itself with every placeholder replaced by the value of its variable,
/// once, where it stands. This holds where every `$` begins a placeholder and no value holds
/// a `$`: else a replacement can make up a placeholder that is replaced in turn.
pub proof fn law_placeholders_are_filled(text: Seq<char>, env: Map<Seq<char>, String>)
    requires
        forall|i: int| 0 <= i < text.len() && #[trigger] text[i] == '$' ==> is_placeholder(text, i),
        forall|i: int|
            0 <= i < placeholders(text, 0).len() ==> env.contains_key(
                #[trigger] placeholders(text, 0)[i],
            ) && is_inert(env[placeholders(text, 0)[i]]@),
    ensures
        expansion(text, env) == Ok::<Seq<char>, Seq<char>>(filled(text, 0, env)),
{
    let names = placeholders(text, 0);
    law_expands_if_known(text, env);
    assert forall|i: int| 0 <= i < names.len() implies can_fill(env, #[trigger] names[i]) by {
        lemma_names(text, 0, i);
    }
    lemma_partly(text, env, names.len() as int);
    assert(names.take(names.len() as int) =~= names);
    lemma_all_filled(text, 0, env, names);
}

/// A name whose variable exists, with a value without `$`.
spec fn can_fill(env: Map<Seq<char>, String>, name: Seq<char>) -> bool {
    &&& env.contains_key(name)
    &&& is_inert(env[name]@)
    &&& forall|i: int| 0 <= i < name.len() ==> is_name_part(#[trigger] name[i])
}

/// The text from `i` on with the placeholders of some names replaced.
spec fn partly(s: Seq<char>, i: int, env: Map<Seq<char>, String>, done: Seq<Seq<char>>) -> Seq<char>
    decreases s.len() - i,
{
    if i >= s.len() {
        seq![]
    } else if is_placeholder(s, i) && name_end(s, i + 2) >= i + 2 {
        let e = name_end(s, i + 2);
        let name = s.subrange(i + 2, e);
        (if done.contains(name) {
            env[name]@
        } else {
            s.subrange(i, e + 1)
        }) + partly(s, e + 1, env, done)
    } else {
        seq![s[i]] + partly(s, i + 1, env, done)
    }
}

proof fn lemma_name_run(s: Seq<char>, i: int, j: int)
    requires
        0 <= i <= j < name_end(s, i),
    ensures
        j < s.len(),
        is_name_part(s[j]),
    decreases j - i,
{
    if i < j {
        lemma_name_run(s, i + 1, j);
    }
}

/// The names of placeholders are made of name characters.
proof fn lemma_names(s: Seq<char>, i: int, k: int)
    requires
        0 <= i,
        0 <= k < placeholders(s, i).len(),
    ensures
        forall|j: int|
            0 <= j < placeholders(s, i)[k].len() ==> is_name_part(
                #[trigger] placeholders(s, i)[k][j],
            ),
    decreases s.len() - i,
{
    if is_placeholder(s, i) && name_end(s, i + 2) >= i + 2 {
        let e = name_end(s, i + 2);
        if k == 0 {
            let name = s.subrange(i + 2, e);
            assert(placeholders(s, i)[0] == name);
            assert forall|j: int| 0 <= j < name.len() implies is_name_part(#[trigger] name[j]) by {
                lemma_name_run(s, i + 2, i + 2 + j);
            }
        } else {
            lemma_names(s, e + 1, k - 1);
            assert(placeholders(s, i)[k] == placeholders(s, e + 1)[k - 1]);
        }
    } else {
        assert(placeholders(s, i) == placeholders(s, i + 1));
        lemma_names(s, i + 1, k);
    }
}

/// Nothing is replaced in a beginning without `$`.
pub proof fn lemma_inert_start(a: Seq<char>, b: Seq<char>, pat: Seq<char>, with: Seq<char>)
    requires
        is_inert(a),
        pat.len() > 0,
        pat[0] == '$',
    ensures
        replace_all(a + b, pat, with) == a + replace_all(b, pat, with),
    decreases a.len(),
{
    if a.len() == 0 {
        assert(a + b =~= b);
        assert(a + replace_all(b, pat, with) =~= replace_all(b, pat, with));
    } else {
        let s = a + b;
        if occurs_at(s, pat, 0) {
            assert(s.subrange(0, pat.len() as int)[0] == s[0]);
            assert(a[0] == '$');
        }
        assert(s.skip(1) =~= a.skip(1) + b);
        assert(is_inert(a.skip(1))) by {
            assert forall|i: int| 0 <= i < a.skip(1).len() implies #[trigger] a.skip(1)[i] != '$' by {
                assert(a.skip(1)[i] == a[i + 1]);
            }
        }
        lemma_inert_start(a.skip(1), b, pat, with);
        assert(a =~= seq![a[0]] + a.skip(1));
        assert(replace_all(s, pat, with) =~= a + replace_all(b, pat, with));
    }
}

/// One placeholder at the beginning is replaced if it is the one that is looked for, and only
/// then.
pub proof fn lemma_first_placeholder(m: Seq<char>, n: Seq<char>, b: Seq<char>, with: Seq<char>)
    requires
        forall|i: int| 0 <= i < m.len() ==> is_name_part(#[trigger] m[i]),
        forall|i: int| 0 <= i < n.len() ==> is_name_part(#[trigger] n[i]),
    ensures
        replace_all(placeholder(m) + b, placeholder(n), with) == (if m == n {
            with
        } else {
            placeholder(m)
        }) + replace_all(b, placeholder(n), with),
{
    reveal_strlit("${");
    reveal_strlit("}");
    let piece = placeholder(m);
    let pat = placeholder(n);
    let s = piece + b;
    assert(pat[0] == '$');
    if m == n {
        assert(s.subrange(0, pat.len() as int) =~= pat);
        assert(s.skip(pat.len() as int) =~= b);
    } else {
        if occurs_at(s, pat, 0) {
            let head = s.subrange(0, pat.len() as int);
            assert(head == pat);
            if n.len() < m.len() {
                assert(head[n.len() + 2int] == pat[n.len() + 2int]);
                assert(s[n.len() + 2int] == m[n.len() as int]);
                assert(pat[n.len() + 2int] == '}');
            } else if n.len() > m.len() {
                assert(head[m.len() + 2int] == pat[m.len() + 2int]);
                assert(s[m.len() + 2int] == '}');
                assert(pat[m.len() + 2int] == n[m.len() as int]);
            } else {
                assert forall|i: int| 0 <= i < m.len() implies m[i] == n[i] by {
                    assert(head[2 + i] == pat[2 + i]);
                    assert(s[2 + i] == m[i]);
                    assert(pat[2 + i] == n[i]);
                }
                assert(m =~= n);
            }
        }
        let tail = piece.skip(1);
        assert(is_inert(tail)) by {
            assert forall|i: int| 0 <= i < tail.len() implies #[trigger] tail[i] != '$' by {
                assert(tail[i] == piece[i + 1]);
                if 1 <= i < 1 + m.len() {
                    assert(piece[i + 1] == m[i - 1]);
                }
            }
        }
        lemma_inert_start(tail, b, pat, with);
        assert(s.skip(1) =~= tail + b);
        assert(piece =~= seq![piece[0]] + tail);
        assert(s[0] == piece[0]);
        assert(replace_all(s, pat, with) =~= piece + replace_all(b, pat, with));
    }
}

/// Replacing the placeholder of one more name.
proof fn lemma_fill_one(
    s: Seq<char>,
    i: int,
    env: Map<Seq<char>, String>,
    done: Seq<Seq<char>>,
    n: Seq<char>,
)
    requires
        0 <= i,
        forall|j: int| 0 <= j < s.len() && #[trigger] s[j] == '$' ==> is_placeholder(s, j),
        forall|j: int| 0 <= j < placeholders(s, i).len() ==> can_fill(env, #[trigger] placeholders(s, i)[j]),
        can_fill(env, n),
    ensures
        replace_all(partly(s, i, env, done), placeholder(n), env[n]@) == partly(
            s,
            i,
            env,
            done.push(n),
        ),
    decreases s.len() - i,
{
    let pat = placeholder(n);
    let with = env[n]@;
    reveal_strlit("${");
    assert(pat[0] == '$');
    if i < s.len() {
        if is_placeholder(s, i) && name_end(s, i + 2) >= i + 2 {
            let e = name_end(s, i + 2);
            let m = s.subrange(i + 2, e);
            let rest = placeholders(s, e + 1);
            assert(placeholders(s, i)[0] == m);
            assert(can_fill(env, m));
            assert forall|j: int| 0 <= j < rest.len() implies can_fill(env, #[trigger] rest[j]) by {
                assert(placeholders(s, i)[j + 1] == rest[j]);
            }
            lemma_fill_one(s, e + 1, env, done, n);
            let b = partly(s, e + 1, env, done);
            assert(done.push(n).contains(m) <==> done.contains(m) || m == n) by {
                if done.contains(m) {
                    let k = choose|k: int| 0 <= k < done.len() && done[k] == m;
                    assert(done.push(n)[k] == m);
                }
                if m == n {
                    assert(done.push(n)[done.len() as int] == m);
                }
            }
            if done.contains(m) {
                lemma_inert_start(env[m]@, b, pat, with);
            } else {
                reveal_strlit("}");
                assert(s.subrange(i, e + 1) =~= placeholder(m));
                lemma_first_placeholder(m, n, b, with);
            }
        } else {
            assert(placeholders(s, i) == placeholders(s, i + 1));
            lemma_fill_one(s, i + 1, env, done, n);
            lemma_name_end_bounds(s, i);
            assert(s[i] != '$');
            lemma_inert_start(seq![s[i]], partly(s, i + 1, env, done), pat, with);
        }
    }
}

/// A name does not end before it begins.
proof fn lemma_name_end_bounds(s: Seq<char>, i: int)
    requires
        0 <= i,
    ensures
        is_placeholder(s, i) ==> name_end(s, i + 2) >= i + 2,
{
    if is_placeholder(s, i) {
        lemma_name_end(s, i + 2);
    }
}

/// Before any name was replaced the text is as it was.
proof fn lemma_none_filled(s: Seq<char>, i: int, env: Map<Seq<char>, String>)
    requires
        0 <= i <= s.len(),
    ensures
        partly(s, i, env, seq![]) == s.skip(i),
    decreases s.len() - i,
{
    if i < s.len() {
        if is_placeholder(s, i) && name_end(s, i + 2) >= i + 2 {
            let e = name_end(s, i + 2);
            lemma_none_filled(s, e + 1, env);
            assert(s.subrange(i, e + 1) + s.skip(e + 1) =~= s.skip(i));
        } else {
            lemma_none_filled(s, i + 1, env);
            assert(seq![s[i]] + s.skip(i + 1) =~= s.skip(i));
        }
    } else {
        assert(s.skip(i) =~= seq![]);
    }
}

/// Once all names were replaced every placeholder is filled.
proof fn lemma_all_filled(
    s: Seq<char>,
    i: int,
    env: Map<Seq<char>, String>,
    done: Seq<Seq<char>>,
)
    requires
        0 <= i,
        forall|j: int| 0 <= j < placeholders(s, i).len() ==> done.contains(#[trigger] placeholders(s, i)[j]),
    ensures
        partly(s, i, env, done) == filled(s, i, env),
    decreases s.len() - i,
{
    if i < s.len() {
        if is_placeholder(s, i) && name_end(s, i + 2) >= i + 2 {
            let e = name_end(s, i + 2);
            let rest = placeholders(s, e + 1);
            assert(done.contains(placeholders(s, i)[0]));
            assert forall|j: int| 0 <= j < rest.len() implies done.contains(#[trigger] rest[j]) by {
                assert(placeholders(s, i)[j + 1] == rest[j]);
            }
            lemma_all_filled(s, e + 1, env, done);
        } else {
            assert(placeholders(s, i) == placeholders(s, i + 1));
            lemma_all_filled(s, i + 1, env, done);
        }
    }
}

/// The text after the first `n` names were replaced.
proof fn lemma_partly(s: Seq<char>, env: Map<Seq<char>, String>, n: int)
    requires
        forall|j: int| 0 <= j < s.len() && #[trigger] s[j] == '$' ==> is_placeholder(s, j),
        forall|j: int| 0 <= j < placeholders(s, 0).len() ==> can_fill(env, #[trigger] placeholders(s, 0)[j]),
        0 <= n <= placeholders(s, 0).len(),
    ensures
        substituted(s, placeholders(s, 0), n, env) == partly(s, 0, env, placeholders(s, 0).take(n)),
    decreases n,
{
    let names = placeholders(s, 0);
    if n == 0 {
        lemma_none_filled(s, 0, env);
        assert(names.take(0) =~= seq![]);
        assert(s.skip(0) =~= s);
    } else {
        lemma_partly(s, env, n - 1);
        let name = names[n - 1];
        assert(can_fill(env, name));
        lemma_fill_one(s, 0, env, names.take(n - 1), name);
        assert(names.take(n - 1).push(name) =~= names.take(n));
    }
}

} // verus!
