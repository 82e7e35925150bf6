//! What becomes of `${NAME}` in texts.

use vstd::prelude::*;

use crate::env_expansion::{
    expansion, filled, first_failing, is_inert, is_name_part, is_placeholder, law_no_placeholders,
    law_placeholders_are_filled, lemma_first_placeholder, lemma_inert_start, list_expansion, name_end,
    placeholder, placeholders, substituted, unknown,
};
use crate::split::{join, replace_all};

verus! {

/// A letter of the alphabet, small or large, or an underscore.
pub open spec fn is_letter(c: char) -> bool {
    ('a' <= c && c <= 'z') || ('A' <= c && c <= 'Z') || c == '_'
}

/// A decimal digit.
pub open spec fn is_digit(c: char) -> bool {
    '0' <= c && c <= '9'
}

/// The name of a variable: letters, digits and underscores, of which a digit is not the first.
pub open spec fn is_variable(name: Seq<char>) -> bool {
    &&& name.len() > 0
    &&& is_letter(name[0])
    &&& forall|i: int| 0 <= i < name.len() ==> is_letter(#[trigger] name[i]) || is_digit(name[i])
}

/// Passing over characters that begin no placeholder.
proof fn lemma_pass(s: Seq<char>, i: int, k: int)
    requires
        0 <= i <= k <= s.len(),
        forall|j: int| i <= j < k ==> !#[trigger] is_placeholder(s, j),
    ensures
        placeholders(s, i) == placeholders(s, k),
    decreases k - i,
{
    if i < k {
        assert(!is_placeholder(s, i));
        lemma_pass(s, i + 1, k);
    }
}

/// Where a run of name characters ends.
proof fn lemma_run(s: Seq<char>, i: int, k: int)
    requires
        0 <= i <= k < s.len(),
        forall|j: int| i <= j < k ==> is_name_part(#[trigger] s[j]),
        !is_name_part(s[k]),
    ensures
        name_end(s, i) == k,
    decreases k - i,
{
    if i < k {
        assert(is_name_part(s[i]));
        lemma_run(s, i + 1, k);
    }
}

/// A placeholder at `i`.
proof fn lemma_here(s: Seq<char>, i: int, name: Seq<char>)
    requires
        is_variable(name),
        0 <= i,
        i + name.len() + 3 <= s.len(),
        s.subrange(i, i + name.len() + 3) == "${"@ + name + "}"@,
    ensures
        is_placeholder(s, i),
        name_end(s, i + 2) == i + 2 + name.len(),
        placeholders(s, i) == seq![name] + placeholders(s, i + name.len() + 3),
{
    reveal_strlit("${");
    reveal_strlit("}");
    let whole = "${"@ + name + "}"@;
    let n = name.len() as int;
    assert forall|j: int| 0 <= j < n + 3 implies s[i + j] == whole[j] by {
        assert(s.subrange(i, i + n + 3)[j] == s[i + j]);
    }
    assert(s[i] == whole[0] && s[i + 1] == whole[1] && s[i + 2] == whole[2] && s[i + 2 + n] == whole[n + 2]);
    assert forall|j: int| i + 2 <= j < i + 2 + n implies is_name_part(#[trigger] s[j]) by {
        assert(s[i + (j - i)] == whole[j - i]);
        assert(whole[j - i] == name[j - i - 2]);
    }
    lemma_run(s, i + 2, i + 2 + n);
    assert(s.subrange(i + 2, i + 2 + n) =~= name) by {
        assert forall|j: int| 0 <= j < n implies s.subrange(i + 2, i + 2 + n)[j] == name[j] by {
            assert(s[i + (j + 2)] == whole[j + 2]);
        }
    }
}

/// A text without `$` holds no placeholder.
pub proof fn law_plain_text(text: Seq<char>, env: Map<Seq<char>, String>)
    requires
        !text.contains('$'),
    ensures
        expansion(text, env) == Ok::<Seq<char>, Seq<char>>(text),
{
    assert forall|j: int| 0 <= j < text.len() implies !#[trigger] is_placeholder(text, j) by {
        assert(text[j] != '$');
    }
    lemma_pass(text, 0, text.len() as int);
    law_no_placeholders(text, env);
}

/// A `$` that no brace follows stays as it is.
pub proof fn law_bare_dollar(text: Seq<char>, env: Map<Seq<char>, String>)
    requires
        forall|i: int| 0 <= i < text.len() - 1 && #[trigger] text[i] == '$' ==> text[i + 1] != '{',
    ensures
        expansion(text, env) == Ok::<Seq<char>, Seq<char>>(text),
{
    assert forall|j: int| 0 <= j < text.len() implies !#[trigger] is_placeholder(text, j) by {}
    lemma_pass(text, 0, text.len() as int);
    law_no_placeholders(text, env);
}

/// What stands in braces after a `$` and is no name of a variable stays as it is.
pub proof fn law_no_name(a: Seq<char>, what: Seq<char>, b: Seq<char>, env: Map<Seq<char>, String>)
    requires
        !a.contains('$'),
        !b.contains('$'),
        !what.contains('$'),
        !what.contains('}'),
        !is_variable(what),
    ensures
        expansion(a + "${"@ + what + "}"@ + b, env) == Ok::<Seq<char>, Seq<char>>(
            a + "${"@ + what + "}"@ + b,
        ),
{
    reveal_strlit("${");
    reveal_strlit("}");
    let s = a + "${"@ + what + "}"@ + b;
    let at = a.len() as int;
    let n = what.len() as int;
    assert forall|j: int| 0 <= j < s.len() && j != at implies #[trigger] s[j] != '$' by {
        if j < at {
            assert(s[j] == a[j]);
        } else if j == at + 1 {
        } else if j < at + 2 + n {
            assert(s[j] == what[j - at - 2]);
        } else if j > at + 2 + n {
            assert(s[j] == b[j - at - 3 - n]);
        }
    }
    assert(!is_placeholder(s, at)) by {
        if n == 0 {
            assert(s[at + 2] == '}');
        } else {
            assert(s[at + 2] == what[0]);
            if is_letter(what[0]) {
                let k = choose|k: int|
                    0 <= k < what.len() && !(is_letter(#[trigger] what[k]) || is_digit(what[k]));
                lemma_end_at_most(s, at + 2, at + 2 + k);
                let e = name_end(s, at + 2);
                assert(s[at + 2 + k] == what[k]);
                assert(s[e] == what[e - at - 2]);
            }
        }
    }
    assert forall|j: int| 0 <= j < s.len() implies !#[trigger] is_placeholder(s, j) by {}
    lemma_pass(s, 0, s.len() as int);
    law_no_placeholders(s, env);
}

proof fn lemma_end_at_most(s: Seq<char>, i: int, k: int)
    requires
        0 <= i <= k < s.len(),
        !is_name_part(s[k]),
    ensures
        i <= name_end(s, i) <= k,
    decreases k - i,
{
    if i < k && is_name_part(s[i]) {
        lemma_end_at_most(s, i + 1, k);
    }
}

/// The name of a variable in braces after a `$` gives way to the value of the variable, whatever
/// that is; what stands around it stays. A variable that does not exist is an error that names
/// it.
pub proof fn law_variable(a: Seq<char>, name: Seq<char>, b: Seq<char>, env: Map<Seq<char>, String>)
    requires
        !a.contains('$'),
        !b.contains('$'),
        is_variable(name),
    ensures
        expansion(a + "${"@ + name + "}"@ + b, env) == if env.contains_key(name) {
            Ok(a + env[name]@ + b)
        } else {
            Err("Environment variables not found: "@ + name)
        },
{
    reveal_strlit("${");
    reveal_strlit("}");
    let whole = "${"@ + name + "}"@;
    let s = a + "${"@ + name + "}"@ + b;
    let at = a.len() as int;
    let end = at + name.len() + 3;
    assert(s =~= a + (whole + b));
    assert(s.subrange(at, end) =~= whole);
    assert forall|j: int| 0 <= j < at implies !#[trigger] is_placeholder(s, j) by {
        assert(s[j] == a[j]);
    }
    lemma_pass(s, 0, at);
    lemma_here(s, at, name);
    assert forall|j: int| end <= j < s.len() implies !#[trigger] is_placeholder(s, j) by {
        assert(s[j] == b[j - end]);
    }
    lemma_pass(s, end, s.len() as int);
    let names = placeholders(s, 0);
    assert(names =~= seq![name]);
    reveal(Seq::filter);
    let p = unknown(env);
    assert(names.drop_last() =~= seq![]);
    assert(names.drop_last().filter(p) =~= seq![]);
    assert(is_inert(a));
    assert(is_inert(b));
    if env.contains_key(name) {
        let v = env[name]@;
        assert(names.filter(p) =~= seq![]);
        reveal_with_fuel(substituted, 2);
        assert(substituted(s, names, 1, env) == replace_all(s, placeholder(name), v));
        assert(placeholder(name) == whole);
        lemma_inert_start(a, whole + b, whole, v);
        assert forall|i: int| 0 <= i < name.len() implies is_name_part(#[trigger] name[i]) by {}
        lemma_first_placeholder(name, name, b, v);
        assert(b + Seq::<char>::empty() =~= b);
        lemma_inert_start(b, seq![], whole, v);
        assert(replace_all(b, whole, v) =~= b);
        assert(a + (v + b) =~= a + v + b);
    } else {
        assert(names.filter(p) =~= seq![name]);
        assert(join(seq![name], ", "@) == name);
    }
}

/// Two variables in one text: both give way to their values, each where it stands, unless a value
/// holds a `$` itself; and where some do not exist the error names these, in order.
pub proof fn law_two_variables(
    a: Seq<char>,
    m: Seq<char>,
    b: Seq<char>,
    n: Seq<char>,
    c: Seq<char>,
    env: Map<Seq<char>, String>,
)
    requires
        !a.contains('$'),
        !b.contains('$'),
        !c.contains('$'),
        is_variable(m),
        is_variable(n),
    ensures
        ({
            let text = a + "${"@ + m + "}"@ + b + "${"@ + n + "}"@ + c;
            let told = "Environment variables not found: "@;
            &&& env.contains_key(m) && env.contains_key(n) && !env[m]@.contains('$') && !env[n]@.contains('$')
                ==> expansion(text, env) == Ok::<Seq<char>, Seq<char>>(
                a + env[m]@ + b + env[n]@ + c,
            )
            &&& env.contains_key(m) && !env.contains_key(n) ==> expansion(text, env) == Err::<
                Seq<char>,
                Seq<char>,
            >(told + n)
            &&& !env.contains_key(m) && env.contains_key(n) ==> expansion(text, env) == Err::<
                Seq<char>,
                Seq<char>,
            >(told + m)
            &&& !env.contains_key(m) && !env.contains_key(n) ==> expansion(text, env) == Err::<
                Seq<char>,
                Seq<char>,
            >(told + (m + ", "@ + n))
        }),
{
    reveal_strlit("${");
    reveal_strlit("}");
    let s = a + "${"@ + m + "}"@ + b + "${"@ + n + "}"@ + c;
    let i = a.len() as int;
    let j = i + m.len() + 3;
    let k = j + b.len();
    let l = k + n.len() + 3;
    assert(s.subrange(i, j) =~= "${"@ + m + "}"@);
    assert(s.subrange(k, l) =~= "${"@ + n + "}"@);
    assert forall|x: int| 0 <= x < s.len() && x != i && x != k implies #[trigger] s[x] != '$' by {
        if x < i {
            assert(s[x] == a[x]);
        } else if x == i + 1 {
        } else if i + 2 <= x < i + 2 + m.len() {
            assert(s[x] == m[x - i - 2]);
        } else if j <= x < k {
            assert(s[x] == b[x - j]);
        } else if x == k + 1 {
        } else if k + 2 <= x < k + 2 + n.len() {
            assert(s[x] == n[x - k - 2]);
        } else if x >= l {
            assert(s[x] == c[x - l]);
        }
    }
    lemma_pass(s, 0, i);
    lemma_here(s, i, m);
    lemma_pass(s, j, k);
    lemma_here(s, k, n);
    lemma_pass(s, l, s.len() as int);
    let names = placeholders(s, 0);
    assert(names =~= seq![m, n]);
    reveal(Seq::filter);
    let p = unknown(env);
    assert(names.drop_last() =~= seq![m]);
    assert(names.drop_last().drop_last() =~= seq![]);
    assert(names.drop_last().drop_last().filter(p) =~= seq![]);
    let first = names.drop_last().filter(p);
    assert(first =~= if env.contains_key(m) {
        seq![]
    } else {
        seq![m]
    });
    let missing = names.filter(p);
    if !env.contains_key(m) && !env.contains_key(n) {
        assert(missing =~= seq![m, n]);
        assert(missing.drop_last() =~= seq![m]);
        assert(join(missing.drop_last(), ", "@) == m);
        assert(join(missing, ", "@) == m + ", "@ + n);
    } else if !env.contains_key(m) {
        assert(missing =~= seq![m]);
    } else if !env.contains_key(n) {
        assert(missing =~= seq![n]);
    } else if !env[m]@.contains('$') && !env[n]@.contains('$') {
        assert(is_inert(env[m]@));
        assert(is_inert(env[n]@));
        law_placeholders_are_filled(s, env);
        lemma_filled_pass(s, 0, i, env);
        lemma_filled_here(s, i, m, env);
        lemma_filled_pass(s, j, k, env);
        lemma_filled_here(s, k, n, env);
        lemma_filled_pass(s, l, s.len() as int, env);
        assert(s.subrange(0, i) =~= a);
        assert(s.subrange(j, k) =~= b);
        assert(s.subrange(l, s.len() as int) =~= c);
        assert(filled(s, 0, env) =~= a + env[m]@ + b + env[n]@ + c);
    }
}

proof fn lemma_filled_pass(s: Seq<char>, i: int, k: int, env: Map<Seq<char>, String>)
    requires
        0 <= i <= k <= s.len(),
        forall|j: int| i <= j < k ==> #[trigger] s[j] != '$',
    ensures
        filled(s, i, env) == s.subrange(i, k) + filled(s, k, env),
    decreases k - i,
{
    if i < k {
        assert(s[i] != '$');
        lemma_filled_pass(s, i + 1, k, env);
        assert(s.subrange(i, k) =~= seq![s[i]] + s.subrange(i + 1, k));
        assert(filled(s, i, env) =~= s.subrange(i, k) + filled(s, k, env));
    } else {
        assert(s.subrange(i, k) + filled(s, k, env) =~= filled(s, k, env));
    }
}

proof fn lemma_filled_here(s: Seq<char>, i: int, name: Seq<char>, env: Map<Seq<char>, String>)
    requires
        is_variable(name),
        0 <= i,
        i + name.len() + 3 <= s.len(),
        s.subrange(i, i + name.len() + 3) == "${"@ + name + "}"@,
    ensures
        filled(s, i, env) == env[name]@ + filled(s, i + name.len() + 3, env),
{
    lemma_here(s, i, name);
    reveal_strlit("${");
    reveal_strlit("}");
    let n = name.len() as int;
    let whole = "${"@ + name + "}"@;
    assert(s.subrange(i + 2, i + 2 + n) =~= name) by {
        assert forall|j: int| 0 <= j < n implies s.subrange(i + 2, i + 2 + n)[j] == name[j] by {
            assert(s.subrange(i, i + n + 3)[j + 2] == whole[j + 2]);
        }
    }
}

/// Texts are expanded one by one, in order: all of them, or the first that cannot be expanded
/// says why.
pub proof fn law_each_is_expanded(list: Seq<Seq<char>>, env: Map<Seq<char>, String>)
    ensures
        match list_expansion(list, env) {
            Ok(out) => {
                &&& out.len() == list.len()
                &&& forall|i: int|
                    0 <= i < list.len() ==> expansion(#[trigger] list[i], env) == Ok::<
                        Seq<char>,
                        Seq<char>,
                    >(out[i])
            },
            Err(e) => exists|i: int|
                {
                    &&& 0 <= i < list.len()
                    &&& expansion(#[trigger] list[i], env) == Err::<Seq<char>, Seq<char>>(e)
                    &&& forall|j: int| 0 <= j < i ==> expansion(#[trigger] list[j], env) is Ok
                },
        },
{
    lemma_first_failing(list, 0, env);
    let n = first_failing(list, 0, env);
    if n < list.len() {
        assert(expansion(list[n], env) == Err::<Seq<char>, Seq<char>>(expansion(list[n], env)->Err_0));
    }
}

proof fn lemma_first_failing(list: Seq<Seq<char>>, i: int, env: Map<Seq<char>, String>)
    requires
        0 <= i <= list.len(),
    ensures
        i <= first_failing(list, i, env) <= list.len(),
        first_failing(list, i, env) < list.len() ==> expansion(
            list[first_failing(list, i, env)],
            env,
        ) is Err,
        forall|j: int| i <= j < first_failing(list, i, env) ==> expansion(#[trigger] list[j], env) is Ok,
    decreases list.len() - i,
{
    if i < list.len() && expansion(list[i], env) is Ok {
        lemma_first_failing(list, i + 1, env);
    }
}

} // verus!
