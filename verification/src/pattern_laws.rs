//! Which texts patterns match, and which paths name the same place.

use vstd::prelude::*;

use crate::fs::{counted_parts, normal_path};
use crate::matcher::{anchored, blank_words, expression, expression_of, path_match, wildcard_match};
use crate::paths::{joined, profile_dir};
use crate::split::join;
use crate::text_laws::{law_join, law_split};
use crate::trusted_commands::{
    glob_matches, is_literal, is_one_line, lemma_literal_prefix, trusts, TrustedText,
};

verus! {

/// A question mark in a pattern stands for exactly one character, which is no line break; what stands
/// round it stands for itself.
pub proof fn law_one_character(a: Seq<char>, b: Seq<char>, command: Seq<char>)
    requires
        is_literal(a),
        is_literal(b),
    ensures
        wildcard_match(a + seq!['?'] + b, command) <==> {
            &&& command.len() == a.len() + 1 + b.len()
            &&& command.take(a.len() as int) == a
            &&& command[a.len() as int] != '\n'
            &&& command.skip(a.len() as int + 1) == b
        },
{
    let n = a.len() as int;
    let rest = seq!['?'] + b;
    assert(a + seq!['?'] + b =~= a + rest);
    lemma_literal_prefix(a, rest, command);
    if command.len() > n {
        let tail = command.skip(n);
        assert(rest.skip(1) =~= b);
        assert(rest[0] == '?');
        assert(tail.skip(1) =~= command.skip(n + 1));
        lemma_literal(b, tail.skip(1));
    }
}

proof fn lemma_literal(b: Seq<char>, text: Seq<char>)
    requires
        is_literal(b),
    ensures
        wildcard_match(b, text) <==> text == b,
{
    lemma_literal_prefix(b, seq![], text);
    assert(b + seq![] =~= b);
    assert(text.take(text.len() as int) =~= text);
}

/// A star between two texts stands for any run of characters on one line.
pub proof fn law_any_run(a: Seq<char>, run: Seq<char>, b: Seq<char>, command: Seq<char>)
    requires
        is_literal(a),
        is_literal(b),
    ensures
        is_one_line(run) ==> wildcard_match(a + seq!['*'] + b, a + run + b),
        wildcard_match(a + seq!['*'] + b, command) ==> exists|k: int|
            a.len() <= k <= command.len() && command.take(a.len() as int) == a && is_one_line(
                command.subrange(a.len() as int, k),
            ) && #[trigger] command.skip(k) == b,
{
    let n = a.len() as int;
    let rest = seq!['*'] + b;
    assert(a + seq!['*'] + b =~= a + rest);
    let whole = a + run + b;
    lemma_literal_prefix(a, rest, whole);
    assert(whole.take(n) =~= a);
    assert(whole.skip(n) =~= run + b);
    if is_one_line(run) {
        lemma_star_takes(run, b);
    }
    lemma_literal_prefix(a, rest, command);
    if wildcard_match(a + rest, command) {
        let tail = command.skip(n);
        let m = lemma_star_gives(b, tail);
        assert(tail.skip(m) =~= command.skip(n + m));
        assert(command.subrange(n, n + m) =~= tail.take(m));
        assert(command.skip(n + m) == b);
    }
}

proof fn lemma_star_takes(run: Seq<char>, b: Seq<char>)
    requires
        is_literal(b),
        is_one_line(run),
    ensures
        wildcard_match(seq!['*'] + b, run + b),
    decreases run.len(),
{
    let rest = seq!['*'] + b;
    assert(rest.skip(1) =~= b);
    assert(rest[0] == '*');
    if run.len() == 0 {
        assert(run + b =~= b);
        lemma_literal(b, b);
    } else {
        let less = run.skip(1);
        assert forall|i: int| 0 <= i < less.len() implies #[trigger] less[i] != '\n' by {
            assert(less[i] == run[i + 1]);
        }
        lemma_star_takes(less, b);
        assert((run + b).skip(1) =~= less + b);
        assert((run + b)[0] == run[0]);
    }
}

proof fn lemma_star_gives(b: Seq<char>, text: Seq<char>) -> (m: int)
    requires
        is_literal(b),
        wildcard_match(seq!['*'] + b, text),
    ensures
        0 <= m <= text.len(),
        is_one_line(text.take(m)),
        text.skip(m) == b,
    decreases text.len(),
{
    let rest = seq!['*'] + b;
    assert(rest.skip(1) =~= b);
    assert(rest[0] == '*');
    if wildcard_match(b, text) {
        lemma_literal(b, text);
        assert(text.skip(0) =~= text);
        0
    } else {
        let m = lemma_star_gives(b, text.skip(1));
        assert(text.skip(1).skip(m) =~= text.skip(m + 1));
        assert forall|i: int| 0 <= i < m + 1 implies #[trigger] text.take(m + 1)[i] != '\n' by {
            if i > 0 {
                assert(text.skip(1).take(m)[i - 1] == text[i]);
            }
        }
        m + 1
    }
}

/// How a pattern is written as an expression: the signs of expressions lose their meaning, a star
/// becomes any run, a question mark any one character, and the whole text has to fit.
pub proof fn law_expression(pattern: Seq<char>, c: char)
    ensures
        anchored(pattern).len() >= 2,
        anchored(pattern)[0] == '^',
        anchored(pattern).last() == '$',
        anchored(pattern).subrange(1, anchored(pattern).len() - 1) == expression(pattern, pattern.len() as int),
        expression(seq![], 0).len() == 0,
        expression(pattern.push(c), pattern.len() as int + 1) == expression(pattern, pattern.len() as int)
            + expression_of(c),
        expression_of('*') == seq!['.', '*'],
        expression_of('?') == seq!['.'],
        expression_of('.') == seq!['\\', '.'],
        expression_of('\\') == seq!['\\', '\\'],
        expression_of('+') == seq!['\\', '+'],
        expression_of('(') == seq!['\\', '('],
        expression_of(')') == seq!['\\', ')'],
        expression_of('|') == seq!['\\', '|'],
        expression_of('[') == seq!['\\', '['],
        expression_of(']') == seq!['\\', ']'],
        expression_of('{') == seq!['\\', '{'],
        expression_of('}') == seq!['\\', '}'],
        expression_of('^') == seq!['\\', '^'],
        expression_of('$') == seq!['\\', '$'],
        c != '*' && c != '?' && c != '\\' && c != '.' && c != '+' && c != '(' && c != ')' && c != '|' && c
            != '[' && c != ']' && c != '{' && c != '}' && c != '^' && c != '$' ==> expression_of(c) == seq![c],
{
    lemma_expression_prefix(pattern, c, pattern.len() as int);
    let e = expression(pattern, pattern.len() as int);
    assert(anchored(pattern).subrange(1, anchored(pattern).len() - 1) =~= e);
}

proof fn lemma_expression_prefix(pattern: Seq<char>, c: char, n: int)
    requires
        0 <= n <= pattern.len(),
    ensures
        expression(pattern.push(c), n) == expression(pattern, n),
    decreases n,
{
    if n > 0 {
        lemma_expression_prefix(pattern, c, n - 1);
    }
}

/// One trusted pattern that covers a command is enough, wherever it stands; without one the command
/// is not trusted.
pub proof fn law_one_pattern_is_enough(list: Seq<TrustedText>, command: Seq<char>, i: int)
    ensures
        0 <= i < list.len() && list[i].0 == command ==> trusts(list, command),
        0 <= i < list.len() && glob_matches(list[i].0, command) ==> trusts(list, command),
        (forall|j: int| 0 <= j < list.len() ==> !glob_matches((#[trigger] list[j]).0, command)) ==> !trusts(
            list,
            command,
        ),
{
}

/// In a path pattern a question mark stands for one character, and a star for any run of characters,
/// slashes among them; a pattern without them matches itself alone.
pub proof fn law_path_patterns(a: Seq<char>, run: Seq<char>, b: Seq<char>, c: char, text: Seq<char>)
    requires
        is_literal(a),
        is_literal(b),
    ensures
        path_match(a, text) <==> text == a,
        path_match(a + seq!['?'] + b, a + seq![c] + b),
        path_match(a + seq!['*'] + b, a + run + b),
        path_match(a + seq!['*'], text) ==> text.len() >= a.len() && text.take(a.len() as int) == a,
        path_match(seq!['*'] + b, text) ==> text.len() >= b.len() && text.skip(text.len() - b.len()) == b,
{
    lemma_path_prefix(a, seq![], text);
    assert(a + seq![] =~= a);
    assert(text.take(text.len() as int) =~= text);
    let one = seq!['?'] + b;
    assert(a + seq!['?'] + b =~= a + one);
    let t1 = a + seq![c] + b;
    lemma_path_prefix(a, one, t1);
    assert(t1.take(a.len() as int) =~= a);
    let s1 = t1.skip(a.len() as int);
    assert(s1 =~= seq![c] + b);
    assert(one.skip(1) =~= b && s1.skip(1) =~= b);
    lemma_path_literal(b, b);
    assert(one[0] == '?');
    assert(path_match(one, s1));
    let any = seq!['*'] + b;
    assert(a + seq!['*'] + b =~= a + any);
    let t2 = a + run + b;
    lemma_path_prefix(a, any, t2);
    assert(t2.take(a.len() as int) =~= a);
    assert(t2.skip(a.len() as int) =~= run + b);
    lemma_path_star(run, b);
    lemma_path_prefix(a, seq!['*'], text);
    if path_match(any, text) {
        lemma_path_star_end(b, text);
    }
}

proof fn lemma_path_literal(b: Seq<char>, text: Seq<char>)
    requires
        is_literal(b),
    ensures
        path_match(b, text) <==> text == b,
{
    lemma_path_prefix(b, seq![], text);
    assert(b + seq![] =~= b);
    assert(text.take(text.len() as int) =~= text);
}

proof fn lemma_path_star(run: Seq<char>, b: Seq<char>)
    requires
        is_literal(b),
    ensures
        path_match(seq!['*'] + b, run + b),
    decreases run.len(),
{
    let any = seq!['*'] + b;
    assert(any.skip(1) =~= b);
    assert(any[0] == '*');
    if run.len() == 0 {
        assert(run + b =~= b);
        lemma_path_literal(b, b);
    } else {
        lemma_path_star(run.skip(1), b);
        assert((run + b).skip(1) =~= run.skip(1) + b);
    }
}

proof fn lemma_path_star_end(b: Seq<char>, text: Seq<char>)
    requires
        is_literal(b),
        path_match(seq!['*'] + b, text),
    ensures
        text.len() >= b.len(),
        text.skip(text.len() - b.len()) == b,
    decreases text.len(),
{
    let any = seq!['*'] + b;
    assert(any.skip(1) =~= b);
    assert(any[0] == '*');
    if path_match(b, text) {
        lemma_path_literal(b, text);
        assert(text.skip(0) =~= text);
    } else {
        lemma_path_star_end(b, text.skip(1));
        let rest = text.skip(1);
        assert(rest.skip(rest.len() - b.len()) =~= text.skip(text.len() - b.len()));
    }
}

proof fn lemma_path_prefix(prefix: Seq<char>, rest: Seq<char>, text: Seq<char>)
    requires
        is_literal(prefix),
    ensures
        path_match(prefix + rest, text) <==> text.len() >= prefix.len() && text.take(prefix.len() as int)
            == prefix && path_match(rest, text.skip(prefix.len() as int)),
    decreases prefix.len(),
{
    let n = prefix.len() as int;
    if n == 0 {
        assert(prefix + rest =~= rest);
        assert(text.skip(0) =~= text);
        assert(text.take(0) =~= prefix);
    } else {
        let whole = prefix + rest;
        let shorter = prefix.skip(1);
        assert(whole.skip(1) =~= shorter + rest);
        assert(prefix[0] != '*' && prefix[0] != '?');
        assert(whole[0] == prefix[0]);
        assert forall|i: int| 0 <= i < shorter.len() implies #[trigger] shorter[i] != '*' && shorter[i] != '?' by {
            assert(shorter[i] == prefix[i + 1]);
        }
        if text.len() > 0 {
            let tail = text.skip(1);
            lemma_path_prefix(shorter, rest, tail);
            if text.len() >= n {
                assert(tail.skip(n - 1) =~= text.skip(n));
                assert(tail.take(n - 1) =~= text.take(n).skip(1));
                if text[0] == prefix[0] && tail.take(n - 1) == shorter {
                    assert(text.take(n) =~= prefix) by {
                        assert forall|i: int| 0 <= i < n implies text.take(n)[i] == prefix[i] by {
                            if i > 0 {
                                assert(tail.take(n - 1)[i - 1] == shorter[i - 1]);
                            }
                        }
                    }
                }
                if text.take(n) == prefix {
                    assert(text[0] == text.take(n)[0]);
                }
            }
        }
    }
}

/// The words of a command without quotes are its runs of characters between spaces, tabs and line
/// breaks.
pub proof fn law_shell_words(gap: Seq<char>, word: Seq<char>, c: char, rest: Seq<char>)
    requires
        forall|i: int| 0 <= i < gap.len() ==> #[trigger] gap[i] == ' ' || gap[i] == '\t' || gap[i] == '\n',
        word.len() > 0,
        forall|i: int| 0 <= i < word.len() ==> #[trigger] word[i] != ' ' && word[i] != '\t' && word[i] != '\n',
        c == ' ' || c == '\t' || c == '\n',
    ensures
        blank_words(gap, seq![]) == Seq::<Seq<char>>::empty(),
        blank_words(gap + word, seq![]) == seq![word],
        blank_words(gap + word + seq![c] + rest, seq![]) == seq![word] + blank_words(rest, seq![]),
{
    assert(gap + Seq::<char>::empty() =~= gap);
    lemma_gap(gap, seq![]);
    lemma_gap(gap, word);
    assert(word + Seq::<char>::empty() =~= word);
    lemma_run(seq![], word, seq![]);
    let tail = seq![c] + rest;
    assert(gap + word + seq![c] + rest =~= gap + (word + tail));
    lemma_gap(gap, word + tail);
    lemma_run(seq![], word, tail);
    assert(Seq::<char>::empty() + word =~= word);
    assert(tail.skip(1) =~= rest);
    assert(tail[0] == c);
}

proof fn lemma_gap(gap: Seq<char>, rest: Seq<char>)
    requires
        forall|i: int| 0 <= i < gap.len() ==> #[trigger] gap[i] == ' ' || gap[i] == '\t' || gap[i] == '\n',
    ensures
        blank_words(gap + rest, seq![]) == blank_words(rest, seq![]),
    decreases gap.len(),
{
    if gap.len() == 0 {
        assert(gap + rest =~= rest);
    } else {
        let less = gap.skip(1);
        assert forall|i: int| 0 <= i < less.len() implies #[trigger] less[i] == ' ' || less[i] == '\t' || less[i]
            == '\n' by {
            assert(less[i] == gap[i + 1]);
        }
        lemma_gap(less, rest);
        assert((gap + rest).skip(1) =~= less + rest);
        assert((gap + rest)[0] == gap[0]);
    }
}

proof fn lemma_run(word: Seq<char>, more: Seq<char>, rest: Seq<char>)
    requires
        forall|i: int| 0 <= i < more.len() ==> #[trigger] more[i] != ' ' && more[i] != '\t' && more[i] != '\n',
    ensures
        blank_words(more + rest, word) == blank_words(rest, word + more),
    decreases more.len(),
{
    if more.len() == 0 {
        assert(more + rest =~= rest);
        assert(word + more =~= word);
    } else {
        let less = more.skip(1);
        assert forall|i: int| 0 <= i < less.len() implies #[trigger] less[i] != ' ' && less[i] != '\t' && less[i]
            != '\n' by {
            assert(less[i] == more[i + 1]);
        }
        lemma_run(word.push(more[0]), less, rest);
        assert((more + rest).skip(1) =~= less + rest);
        assert((more + rest)[0] == more[0]);
        assert(word.push(more[0]) + less =~= word + more);
    }
}

/// A path is taken from a directory: below it, unless it is absolute.
pub proof fn law_joined(base: Seq<char>, part: Seq<char>)
    requires
        part.len() > 0,
    ensures
        part[0] == '/' ==> joined(base, part) == part,
        part[0] != '/' && base.len() > 0 && base.last() != '/' ==> joined(base, part) == base + seq!['/'] + part,
        part[0] != '/' && base.len() > 0 && base.last() == '/' ==> joined(base, part) == base + part,
        part[0] != '/' ==> joined(seq![], part) == part,
        profile_dir(base, part) == joined(base, part),
{
    reveal_strlit("/");
    assert("/"@ =~= seq!['/']);
    assert(Seq::<char>::empty() + part =~= part);
}

/// A part of a path with a name.
pub open spec fn is_named(part: Seq<char>) -> bool {
    part.len() > 0 && part != seq!['.'] && forall|i: int| 0 <= i < part.len() ==> #[trigger] part[i] != '/'
}

/// Paths that differ in doubled or final slashes, or in `.` behind a slash, name the same place; a `.`
/// at the start and a slash at the start do not go away.
pub proof fn law_same_place(a: Seq<char>, b: Seq<char>)
    requires
        is_named(a),
        is_named(b),
    ensures
        normal_path(a) == a,
        normal_path(a + seq!['/'] + b) == a + seq!['/'] + b,
        normal_path(a + seq!['/'] + (seq![] + seq!['/'] + b)) == a + seq!['/'] + b,
        normal_path(a + seq!['/'] + (seq!['.'] + seq!['/'] + b)) == a + seq!['/'] + b,
        normal_path(a + seq!['/'] + seq![]) == a,
        normal_path(a + seq!['/'] + seq!['.']) == a,
        normal_path(seq!['.'] + seq!['/'] + a) == seq!['.'] + seq!['/'] + a,
        normal_path(seq![] + seq!['/'] + a) == seq!['/'] + a,
        normal_path(seq![] + seq!['/'] + (a + seq!['/'] + b)) == seq!['/'] + a + seq!['/'] + b,
{
    let e = Seq::<char>::empty();
    let dot = seq!['.'];
    reveal_strlit("/");
    reveal_strlit(".");
    reveal_strlit("");
    assert("/"@ =~= seq!['/']);
    assert("."@ =~= dot);
    assert(""@ =~= e);
    law_split(a, '/', b);
    law_split(b, '/', b);
    law_split(a, '/', e + seq!['/'] + b);
    law_split(e, '/', b);
    law_split(a, '/', dot + seq!['/'] + b);
    law_split(dot, '/', b);
    law_split(a, '/', e);
    law_split(a, '/', dot);
    law_split(dot, '/', a);
    law_split(e, '/', a);
    law_split(e, '/', a + seq!['/'] + b);
    lemma_parts_one(a);
    lemma_parts_two(a, b);
    law_join(seq![a], b, seq!['/']);
    law_join(seq![], a, seq!['/']);
    law_join(seq![dot], a, seq!['/']);
    law_join(seq![], dot, seq!['/']);
    assert(seq![a].push(b) =~= seq![a, b]);
    assert(seq![dot].push(a) =~= seq![dot, a]);
    reveal_with_fuel(counted_parts, 5);
    assert(e + a =~= a);
    // The parts of each of the paths.
    assert(seq![a] + seq![b] =~= seq![a, b]);
    assert(seq![a] + (seq![e] + seq![b]) =~= seq![a, e, b]);
    assert(seq![a] + (seq![dot] + seq![b]) =~= seq![a, dot, b]);
    assert(seq![a] + seq![e] =~= seq![a, e]);
    assert(seq![a] + seq![dot] =~= seq![a, dot]);
    assert(seq![dot] + seq![a] =~= seq![dot, a]);
    assert(seq![e] + seq![a] =~= seq![e, a]);
    assert(seq![e] + (seq![a] + seq![b]) =~= seq![e, a, b]);
    assert(counted_parts(seq![a, e, b], 3) =~= seq![a, b]);
    assert(counted_parts(seq![a, dot, b], 3) =~= seq![a, b]);
    assert(counted_parts(seq![a, e], 2) =~= seq![a]);
    assert(counted_parts(seq![a, dot], 2) =~= seq![a]);
    assert(counted_parts(seq![dot, a], 2) =~= seq![dot, a]);
    assert(counted_parts(seq![e, a], 2) =~= seq![a]);
    assert(counted_parts(seq![e, a, b], 3) =~= seq![a, b]);
    assert((a + seq!['/'] + b)[0] == a[0]);
    assert((a + seq!['/'] + (e + seq!['/'] + b))[0] == a[0]);
    assert((a + seq!['/'] + (dot + seq!['/'] + b))[0] == a[0]);
    assert((a + seq!['/'] + e)[0] == a[0]);
    assert((a + seq!['/'] + dot)[0] == a[0]);
    assert((dot + seq!['/'] + a)[0] == '.');
    assert((e + seq!['/'] + a)[0] == '/');
    assert((e + seq!['/'] + (a + seq!['/'] + b))[0] == '/');
    let ab = a + seq!['/'] + b;
    assert(join(seq![a, b], "/"@) == ab);
    assert(join(seq![dot, a], "/"@) == dot + seq!['/'] + a);
    assert(e + ab =~= ab);
    assert(e + (dot + seq!['/'] + a) =~= dot + seq!['/'] + a);
    assert(seq!['/'] + ab =~= seq!['/'] + a + seq!['/'] + b);
}

proof fn lemma_parts_one(a: Seq<char>)
    requires
        is_named(a),
    ensures
        counted_parts(seq![a], 1) == seq![a],
{
    reveal_strlit(".");
    assert("."@ =~= seq!['.']);
    reveal_with_fuel(counted_parts, 2);
    assert(counted_parts(seq![a], 1) =~= seq![a]);
}

proof fn lemma_parts_two(a: Seq<char>, b: Seq<char>)
    requires
        is_named(a),
        is_named(b),
    ensures
        counted_parts(seq![a, b], 2) == seq![a, b],
{
    reveal_strlit(".");
    assert("."@ =~= seq!['.']);
    reveal_with_fuel(counted_parts, 3);
    assert(counted_parts(seq![a, b], 2) =~= seq![a, b]);
}

/// Of the parts of a path, one more counts if it has a name and is not `.`.
pub proof fn law_one_more_part(parts: Seq<Seq<char>>, part: Seq<char>)
    requires
        parts.len() > 0,
    ensures
        counted_parts(parts.push(part), parts.len() as int + 1) == if part.len() > 0 && part != seq!['.'] {
            counted_parts(parts, parts.len() as int).push(part)
        } else {
            counted_parts(parts, parts.len() as int)
        },
{
    reveal_strlit(".");
    assert("."@ =~= seq!['.']);
    lemma_parts_prefix(parts, part, parts.len() as int);
}

proof fn lemma_parts_prefix(parts: Seq<Seq<char>>, part: Seq<char>, n: int)
    requires
        0 <= n <= parts.len(),
    ensures
        counted_parts(parts.push(part), n) == counted_parts(parts, n),
    decreases n,
{
    if n > 0 {
        lemma_parts_prefix(parts, part, n - 1);
    }
}

} // verus!
