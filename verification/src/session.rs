//! What the chat offers about a command that waits for confirmation.

use vstd::prelude::*;

use crate::matcher::{anchored, regex_error, wildcard_match};
use crate::split::{find_white, is_white, lemma_find_white, lemma_trim_start, trim_start, words, words_of};
use crate::text::{cat2, cat3, cat4, starts_with_text, str_starts_with};
use crate::trusted_commands::{glob_matches, is_one_line, lemma_star_any};

verus! {

/// A chat.
#[derive(Debug)]
pub struct ChatSession {}

/// A pattern that can be trusted, with its description.
pub type OptionText = (Seq<char>, Seq<char>);

/// The texts of a list of options.
pub open spec fn option_list(v: Seq<(String, String)>) -> Seq<OptionText> {
    Seq::new(v.len(), |i: int| (v[i].0@, v[i].1@))
}

/// The patterns that are offered for a command: the command itself; its first two words, where
/// the second is no flag and another word follows; and its first word, where another follows.
pub open spec fn pattern_options(command: Seq<char>) -> Seq<OptionText> {
    let w = words(command);
    let exact = seq![(command, "Trust this exact command only"@)];
    let two = if w.len() >= 3 && !starts_with_text(w[1], "-"@) {
        seq![
            (
                w[0] + " "@ + w[1] + "*"@,
                "Trust all '"@ + (w[0] + " "@ + w[1]) + "' commands (up to first argument)"@,
            ),
        ]
    } else {
        seq![]
    };
    let one = if w.len() >= 2 {
        seq![(w[0] + "*"@, "Trust all '"@ + w[0] + "' commands (first word only)"@)]
    } else {
        seq![]
    };
    exact + two + one
}

impl ChatSession {
    /// The patterns that are offered for a command, from the narrowest to the widest.
    pub fn generate_pattern_options(command: &str) -> (res: Vec<(String, String)>)
        ensures
            option_list(res@) == pattern_options(command@),
    {
        let w = words_of(command);
        let ghost ws = words(command@);
        let mut out: Vec<(String, String)> = Vec::new();
        out.push((String::from_str(command), String::from_str("Trust this exact command only")));
        if w.len() >= 3 {
            assert(ws[0] == w@[0]@ && ws[1] == w@[1]@);
            if !str_starts_with(w[1].as_str(), "-") {
                let pair = cat3(w[0].as_str(), " ", w[1].as_str());
                out.push(
                    (
                        cat4(w[0].as_str(), " ", w[1].as_str(), "*"),
                        cat3("Trust all '", pair.as_str(), "' commands (up to first argument)"),
                    ),
                );
            }
        }
        if w.len() >= 2 {
            assert(ws[0] == w@[0]@);
            out.push(
                (
                    cat2(w[0].as_str(), "*"),
                    cat3("Trust all '", w[0].as_str(), "' commands (first word only)"),
                ),
            );
        }
        assert(option_list(out@) =~= pattern_options(command@));
        out
    }
}

/// A text without whitespace.
pub open spec fn is_solid(s: Seq<char>) -> bool {
    forall|i: int| 0 <= i < s.len() ==> !is_white(#[trigger] s[i])
}

/// A word is not empty and holds no whitespace.
pub proof fn lemma_word_shape(s: Seq<char>, i: int)
    requires
        0 <= i < words(s).len(),
    ensures
        words(s)[i].len() > 0,
        is_solid(words(s)[i]),
    decreases s.len(),
{
    let t = trim_start(s);
    let e = find_white(t, 0);
    lemma_trim_start(s);
    lemma_find_white(t, 0);
    if i > 0 {
        lemma_word_shape(t.skip(e), i - 1);
    }
}

/// A text without whitespace is one word at most.
proof fn lemma_solid_words(s: Seq<char>)
    requires
        is_solid(s),
    ensures
        words(s).len() <= 1,
{
    let e = find_white(s, 0);
    lemma_find_white(s, 0);
    if s.len() > 0 {
        assert(!is_white(s[0]));
        assert(trim_start(s) == s);
        assert(e == s.len());
        assert(s.skip(e) =~= Seq::<char>::empty());
        assert(words(s.skip(e)).len() == 0);
    }
}

/// Two words with a space between them are two words.
proof fn lemma_two_words(a: Seq<char>, b: Seq<char>)
    requires
        a.len() > 0,
        is_solid(a),
        b.len() > 0,
        is_solid(b),
    ensures
        words(a + " "@ + b).len() == 2,
{
    reveal_strlit(" ");
    let s = a + " "@ + b;
    let e = find_white(s, 0);
    assert(s[0] == a[0]);
    assert(s[a.len() as int] == ' ');
    assert(trim_start(s) == s);
    lemma_find_white(s, 0);
    if e < a.len() {
        assert(s[e] == a[e]);
    }
    assert(e == a.len());
    let t = s.skip(e);
    assert(t[0] == ' ');
    assert(t.skip(1) =~= b);
    assert(trim_start(b) == b) by {
        assert(!is_white(b[0]));
    }
    assert(trim_start(t) == b) by {
        reveal_with_fuel(trim_start, 2);
    }
    lemma_find_white(b, 0);
    assert(find_white(b, 0) == b.len());
    assert(b.skip(b.len() as int) =~= Seq::<char>::empty());
    reveal_with_fuel(words, 3);
    assert(words(t) =~= seq![b.take(b.len() as int)] + words(b.skip(b.len() as int)));
}

/// No pattern is offered twice.
pub proof fn law_options_distinct(command: Seq<char>, i: int, j: int)
    requires
        0 <= i < j < pattern_options(command).len(),
    ensures
        pattern_options(command)[i].0 != pattern_options(command)[j].0,
{
    reveal_strlit("*");
    reveal_strlit(" ");
    let w = words(command);
    lemma_word_shape(command, 0);
    lemma_word_shape(command, 1);
    let one = w[0] + "*"@;
    let long = w[1] + "*"@;
    let two = w[0] + " "@ + w[1] + "*"@;
    assert(is_solid(one)) by {
        assert forall|k: int| 0 <= k < one.len() implies !is_white(#[trigger] one[k]) by {
            if k < w[0].len() {
                assert(one[k] == w[0][k]);
            }
        }
    }
    assert(is_solid(long)) by {
        assert forall|k: int| 0 <= k < long.len() implies !is_white(#[trigger] long[k]) by {
            if k < w[1].len() {
                assert(long[k] == w[1][k]);
            }
        }
    }
    lemma_solid_words(one);
    lemma_two_words(w[0], long);
    assert(two =~= w[0] + " "@ + long);
    assert(two[w[0].len() as int] == ' ');
    assert(one[w[0].len() as int] == '*');
}

/// A text matches itself, whatever follows on the same line, with a star at its end.
proof fn lemma_prefix_star(prefix: Seq<char>, rest: Seq<char>)
    requires
        is_one_line(rest),
    ensures
        wildcard_match(prefix + seq!['*'], prefix + rest),
    decreases prefix.len(),
{
    let p = prefix + seq!['*'];
    let c = prefix + rest;
    if prefix.len() == 0 {
        lemma_star_any(rest);
        assert(p =~= seq!['*']);
        assert(c =~= rest);
    } else {
        lemma_prefix_star(prefix.skip(1), rest);
        assert(p.skip(1) =~= prefix.skip(1) + seq!['*']);
        assert(c.skip(1) =~= prefix.skip(1) + rest);
        assert(p[0] == c[0]);
        if p[0] == '*' {
            assert(wildcard_match(p, c.skip(1)));
        }
    }
}

/// Each pattern that is offered for a command on one line covers that command, where the command
/// begins with the words that the pattern names and the pattern is not too large to be compiled.
pub proof fn law_options_cover(command: Seq<char>, i: int)
    requires
        0 < i < pattern_options(command).len(),
        is_one_line(command),
        starts_with_text(command, pattern_options(command)[i].0.drop_last()),
        regex_error(anchored(pattern_options(command)[i].0)) is None,
    ensures
        glob_matches(pattern_options(command)[i].0, command),
{
    reveal_strlit("*");
    reveal_strlit(" ");
    let pattern = pattern_options(command)[i].0;
    let prefix = pattern.drop_last();
    let n = prefix.len() as int;
    let rest = command.skip(n);
    assert(pattern =~= prefix + seq!['*']);
    assert(command =~= prefix + rest) by {
        assert(command.subrange(0, n) == prefix);
        assert forall|k: int| 0 <= k < n implies command[k] == prefix[k] by {
            assert(command.subrange(0, n)[k] == command[k]);
        }
    }
    assert(is_one_line(rest)) by {
        assert forall|k: int| 0 <= k < rest.len() implies #[trigger] rest[k] != '\n' by {
            assert(rest[k] == command[k + n]);
        }
    }
    lemma_prefix_star(prefix, rest);
}

/// The pattern of the exact command covers it.
pub proof fn law_exact_option_covers(command: Seq<char>)
    ensures
        pattern_options(command)[0].0 == command,
        glob_matches(command, command),
{
}

} // verus!
