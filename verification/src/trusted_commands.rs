//! Command patterns that the user trusts, and the commands that they match.

use vstd::prelude::*;

use crate::matcher::{
    anchored, compile, expression, expression_of, is_match, is_meta, regex_error, wildcard_match,
};
use crate::text::{chars_of, copy_option, option_text, same_text, string_from};

verus! {

/// A pattern of commands that run without the user's confirmation.
#[derive(Debug, PartialEq)]
pub struct TrustedCommand {
    /// The pattern, in which `*` stands for any run of characters and `?` for any one.
    pub command: String,
    /// What the pattern is for.
    pub description: Option<String>,
}

/// The text of a trusted command and of its description.
pub type TrustedText = (Seq<char>, Option<Seq<char>>);

impl View for TrustedCommand {
    type V = TrustedText;

    open spec fn view(&self) -> TrustedText {
        (self.command@, option_text(self.description))
    }
}

impl Clone for TrustedCommand {
    fn clone(&self) -> (res: Self)
        ensures
            res@ == self@,
    {
        TrustedCommand {
            command: String::from_str(self.command.as_str()),
            description: copy_option(&self.description),
        }
    }
}

/// The patterns that a configuration trusts.
#[derive(Debug, PartialEq)]
pub struct TrustedCommandsConfig {
    /// The patterns, oldest first.
    pub trusted_commands: Vec<TrustedCommand>,
}

/// The texts of a list of trusted commands.
pub open spec fn trusted_texts(v: Seq<TrustedCommand>) -> Seq<TrustedText> {
    Seq::new(v.len(), |i: int| v[i]@)
}

impl View for TrustedCommandsConfig {
    type V = Seq<TrustedText>;

    open spec fn view(&self) -> Seq<TrustedText> {
        trusted_texts(self.trusted_commands@)
    }
}

impl Default for TrustedCommandsConfig {
    fn default() -> (res: Self)
        ensures
            res@ == Seq::<TrustedText>::empty(),
    {
        let res = TrustedCommandsConfig { trusted_commands: Vec::new() };
        assert(res@ =~= Seq::<TrustedText>::empty());
        res
    }
}

impl Clone for TrustedCommandsConfig {
    fn clone(&self) -> (res: Self)
        ensures
            res@ == self@,
    {
        let trusted_commands = self.trusted_commands.clone();
        let res = TrustedCommandsConfig { trusted_commands };
        assert(res@ =~= self@);
        res
    }
}

/// Trusted patterns, ready to be matched against commands.
#[derive(Debug)]
pub struct ProcessedTrustedCommands {
    patterns: Vec<(String, Option<String>)>,
}

impl View for ProcessedTrustedCommands {
    type V = Seq<TrustedText>;

    closed spec fn view(&self) -> Seq<TrustedText> {
        pattern_texts(self.patterns@)
    }
}

/// The texts of a list of patterns with their descriptions.
pub open spec fn pattern_texts(v: Seq<(String, Option<String>)>) -> Seq<TrustedText> {
    Seq::new(v.len(), |i: int| (v[i].0@, option_text(v[i].1)))
}

/// Whether the pattern matches the whole command. A pattern whose expression is too large to be
/// compiled matches only the command that is written like it.
pub open spec fn pattern_matches(pattern: Seq<char>, command: Seq<char>) -> bool {
    ||| pattern == command
    ||| regex_error(anchored(pattern)) is None && wildcard_match(pattern, command)
}

/// Whether the pattern ends in a wildcard that is a word of its own.
pub open spec fn has_open_end(pattern: Seq<char>) -> bool {
    pattern.len() >= 2 && pattern[pattern.len() - 2] == ' ' && pattern.last() == '*'
}

/// Whether a trusted pattern covers a command. A final ` *` also covers the command without
/// arguments: `docker ps *` covers `docker ps`.
pub open spec fn glob_matches(pattern: Seq<char>, command: Seq<char>) -> bool {
    ||| pattern_matches(pattern, command)
    ||| has_open_end(pattern) && pattern_matches(pattern.take(pattern.len() - 2), command)
}

/// Whether one of the patterns covers the command.
pub open spec fn trusts(patterns: Seq<TrustedText>, command: Seq<char>) -> bool {
    exists|i: int| 0 <= i < patterns.len() && glob_matches((#[trigger] patterns[i]).0, command)
}

/// Whether a character means something else than itself in a regular expression.
fn means_more(c: char) -> (res: bool)
    ensures
        res == is_meta(c),
{
    c == '\\' || c == '.' || c == '+' || c == '(' || c == ')' || c == '|' || c == '[' || c == ']'
        || c == '{' || c == '}' || c == '^' || c == '$'
}

/// The expression of a pattern, which has to match a whole text.
pub fn anchored_expression(pattern: &str) -> (res: String)
    ensures
        res@ == anchored(pattern@),
{
    let chars = chars_of(pattern);
    let mut out = String::from_str("");
    proof {
        reveal_strlit("");
    }
    out.push('^');
    let mut i: usize = 0;
    assert(out@ =~= seq!['^'] + expression(pattern@, 0));
    while i < chars.len()
        invariant
            i <= chars@.len(),
            chars@ == pattern@,
            out@ == seq!['^'] + expression(pattern@, i as int),
        decreases chars@.len() - i,
    {
        let c: char = chars[i];
        let ghost before = out@;
        if c == '*' {
            out.push('.');
            out.push('*');
        } else if c == '?' {
            out.push('.');
        } else {
            if means_more(c) {
                out.push('\\');
            }
            out.push(c);
        }
        assert(out@ =~= before + expression_of(c));
        i += 1;
        assert(out@ =~= seq!['^'] + expression(pattern@, i as int));
    }
    out.push('$');
    assert(out@ =~= anchored(pattern@));
    out
}

impl ProcessedTrustedCommands {
    /// Makes the patterns of a configuration ready.
    pub fn new(config: TrustedCommandsConfig) -> (res: Self)
        ensures
            res@ == config@,
    {
        let mut patterns: Vec<(String, Option<String>)> = Vec::new();
        let mut i: usize = 0;
        while i < config.trusted_commands.len()
            invariant
                i <= config.trusted_commands@.len(),
                pattern_texts(patterns@) == config@.take(i as int),
            decreases config.trusted_commands@.len() - i,
        {
            let one = config.trusted_commands[i].clone();
            let ghost before = patterns@;
            let ghost text = one@;
            patterns.push((one.command, one.description));
            i += 1;
            assert(pattern_texts(patterns@) =~= pattern_texts(before).push(text));
            assert(config@.take(i as int) =~= config@.take(i as int - 1).push(text));
        }
        assert(config@.take(i as int) =~= config@);
        ProcessedTrustedCommands { patterns }
    }

    /// Whether one of the patterns covers the command.
    pub fn is_trusted(&self, command: &str) -> (res: bool)
        ensures
            res == trusts(self@, command@),
    {
        let mut i: usize = 0;
        while i < self.patterns.len()
            invariant
                i <= self.patterns@.len(),
                forall|j: int| 0 <= j < i ==> !glob_matches((#[trigger] self@[j]).0, command@),
            decreases self.patterns@.len() - i,
        {
            let found = Self::glob_match(self.patterns[i].0.as_str(), command);
            assert(self@[i as int].0 == self.patterns@[i as int].0@);
            if found {
                return true;
            }
            i += 1;
        }
        false
    }

    fn match_whole(pattern: &str, command: &str) -> (res: bool)
        ensures
            res == pattern_matches(pattern@, command@),
    {
        if same_text(pattern, command) {
            return true;
        }
        let expression = anchored_expression(pattern);
        match compile(expression.as_str()) {
            Ok(re) => is_match(&re, command),
            Err(_) => false,
        }
    }

    fn glob_match(pattern: &str, command: &str) -> (res: bool)
        ensures
            res == glob_matches(pattern@, command@),
    {
        if Self::match_whole(pattern, command) {
            return true;
        }
        let chars = chars_of(pattern);
        let n: usize = chars.len();
        if n >= 2 && chars[n - 2] == ' ' && chars[n - 1] == '*' {
            let shorter = string_from(&chars, 0, n - 2);
            assert(shorter@ =~= pattern@.take(n - 2));
            return Self::match_whole(shorter.as_str(), command);
        }
        false
    }

    /// The patterns with their descriptions.
    pub fn patterns(&self) -> (res: &Vec<(String, Option<String>)>)
        ensures
            pattern_texts(res@) == self@,
    {
        &self.patterns
    }
}

/// A pattern matches the command that is written like it.
pub proof fn lemma_wildcard_self(pattern: Seq<char>)
    ensures
        wildcard_match(pattern, pattern),
    decreases pattern.len(),
{
    if pattern.len() > 0 {
        lemma_wildcard_self(pattern.skip(1));
        if pattern[0] == '*' {
            lemma_star_takes_one(pattern, pattern);
        }
    }
}

/// A star takes one character and then nothing more.
proof fn lemma_star_takes_one(pattern: Seq<char>, command: Seq<char>)
    requires
        pattern.len() > 0,
        pattern[0] == '*',
        command.len() > 0,
        command[0] != '\n',
        wildcard_match(pattern.skip(1), command.skip(1)),
    ensures
        wildcard_match(pattern, command),
{
    assert(wildcard_match(pattern, command.skip(1)));
}

/// A text without wildcards.
pub open spec fn is_literal(pattern: Seq<char>) -> bool {
    forall|i: int| 0 <= i < pattern.len() ==> #[trigger] pattern[i] != '*' && pattern[i] != '?'
}

/// A text on one line.
pub open spec fn is_one_line(text: Seq<char>) -> bool {
    forall|i: int| 0 <= i < text.len() ==> #[trigger] text[i] != '\n'
}

/// A lone star matches every text on one line, and no other.
pub proof fn lemma_star_any(command: Seq<char>)
    ensures
        wildcard_match(seq!['*'], command) <==> is_one_line(command),
    decreases command.len(),
{
    reveal_with_fuel(wildcard_match, 2);
    let star = seq!['*'];
    assert(star.skip(1) =~= Seq::<char>::empty());
    if command.len() > 0 {
        lemma_star_any(command.skip(1));
        assert forall|i: int| 0 <= i < command.skip(1).len() implies #[trigger] command.skip(1)[i] == command[i
            + 1] by {}
        if command[0] != '\n' && is_one_line(command.skip(1)) {
            assert forall|i: int| 0 <= i < command.len() implies #[trigger] command[i] != '\n' by {
                if i > 0 {
                    assert(command.skip(1)[i - 1] == command[i]);
                }
            }
        }
        if is_one_line(command) {
            assert(command[0] != '\n');
            assert(is_one_line(command.skip(1)));
        }
    }
}

/// A literal beginning of a pattern matches the same beginning of a command.
pub proof fn lemma_literal_prefix(prefix: Seq<char>, rest: Seq<char>, command: Seq<char>)
    requires
        is_literal(prefix),
    ensures
        wildcard_match(prefix + rest, command) <==> command.len() >= prefix.len() && command.take(
            prefix.len() as int,
        ) == prefix && wildcard_match(rest, command.skip(prefix.len() as int)),
    decreases prefix.len(),
{
    let n = prefix.len() as int;
    if n == 0 {
        assert(prefix + rest =~= rest);
        assert(command.skip(0) =~= command);
        assert(command.take(0) =~= prefix);
    } else {
        let whole = prefix + rest;
        let shorter = prefix.skip(1);
        assert(whole.skip(1) =~= shorter + rest);
        assert(prefix[0] != '*' && prefix[0] != '?');
        assert(whole[0] == prefix[0]);
        assert forall|i: int| 0 <= i < shorter.len() implies #[trigger] shorter[i] != '*' && shorter[i] != '?' by {
            assert(shorter[i] == prefix[i + 1]);
        }
        if command.len() > 0 {
            let tail = command.skip(1);
            lemma_literal_prefix(shorter, rest, tail);
            if command.len() >= n {
                assert(tail.skip(n - 1) =~= command.skip(n));
                assert(tail.take(n - 1) =~= command.take(n).skip(1));
                if command[0] == prefix[0] && tail.take(n - 1) == shorter {
                    assert(command.take(n) =~= prefix) by {
                        assert forall|i: int| 0 <= i < n implies command.take(n)[i] == prefix[i] by {
                            if i > 0 {
                                assert(tail.take(n - 1)[i - 1] == shorter[i - 1]);
                            }
                        }
                    }
                }
                if command.take(n) == prefix {
                    assert(command[0] == command.take(n)[0]);
                }
            }
        }
    }
}

/// A pattern without wildcards covers exactly the command that it spells out, whatever
/// characters it holds.
pub proof fn law_exact_pattern(pattern: Seq<char>, command: Seq<char>)
    requires
        is_literal(pattern),
    ensures
        glob_matches(pattern, command) <==> pattern == command,
{
    lemma_literal_prefix(pattern, seq![], command);
    assert(pattern + seq![] =~= pattern);
    assert(command.take(command.len() as int) =~= command);
    if pattern.len() > 0 {
        assert(pattern.last() == pattern[pattern.len() - 1]);
    }
}

/// A word with a final star covers every command on one line that begins with the word, as long
/// as the pattern is not too large to be compiled.
pub proof fn law_prefix_pattern(word: Seq<char>, command: Seq<char>)
    requires
        is_literal(word),
        word.len() == 0 || word.last() != ' ',
        regex_error(anchored(word + seq!['*'])) is None,
    ensures
        glob_matches(word + seq!['*'], command) <==> command.len() >= word.len() && command.take(
            word.len() as int,
        ) == word && is_one_line(command.skip(word.len() as int)),
{
    let n = word.len() as int;
    lemma_wildcard_self(word + seq!['*']);
    lemma_literal_prefix(word, seq!['*'], command);
    lemma_star_any(command.skip(n));
    if n > 0 {
        assert((word + seq!['*'])[n - 1] == word.last());
    }
}

/// A pattern that ends in ` *` covers the command before that end alone, and with any
/// arguments on one line: `npm *` covers `npm` and whatever begins with `npm `, as long as the
/// pattern is not too large to be compiled.
pub proof fn law_open_pattern(word: Seq<char>, command: Seq<char>)
    requires
        is_literal(word),
        regex_error(anchored(word + seq![' ', '*'])) is None,
    ensures
        glob_matches(word + seq![' ', '*'], command) <==> command == word || (command.len() > word.len()
            && command.take(word.len() as int + 1) == word.push(' ') && is_one_line(
            command.skip(word.len() as int + 1),
        )),
{
    let n = word.len() as int;
    let pattern = word + seq![' ', '*'];
    let start = word.push(' ');
    assert(pattern =~= start + seq!['*']);
    assert(pattern.take(pattern.len() - 2) =~= word);
    assert(is_literal(start)) by {
        assert forall|i: int| 0 <= i < start.len() implies #[trigger] start[i] != '*' && start[i] != '?' by {
            if i < n {
                assert(start[i] == word[i]);
            }
        }
    }
    lemma_wildcard_self(pattern);
    lemma_literal_prefix(start, seq!['*'], command);
    lemma_star_any(command.skip(n + 1));
    lemma_literal_prefix(word, seq![], command);
    assert(word + seq![] =~= word);
    assert(command.take(command.len() as int) =~= command);
    assert(command.skip(n).len() == 0 ==> command.len() <= n);
}

} // verus!
