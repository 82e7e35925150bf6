//! Regular expressions, path patterns and shell words: the calls into the `regex`, `glob` and
//! `shlex` crates.

use vstd::prelude::*;

use crate::text::{option_text, option_texts};

verus! {

/// The type of compiled expressions of the `regex` crate.
#[verifier::external_type_specification]
#[verifier::external_body]
pub struct ExRegex(regex::Regex);

/// A compiled regular expression with its source. Only [`compile`] makes one, so `compiled` is
/// always what `regex::Regex::new` made of `source`.
#[derive(Debug)]
pub struct TextRegex {
    source: String,
    compiled: regex::Regex,
}

impl TextRegex {
    /// The text that was compiled.
    pub closed spec fn source(&self) -> Seq<char> {
        self.source@
    }
}

/// The message with which `regex::Regex::new` refuses an expression, or `None` where it accepts
/// it. Whether a very large expression is refused depends on the size of the compiled form.
pub uninterp spec fn regex_error(source: Seq<char>) -> Option<Seq<char>>;

/// Whether `regex::Regex::is_match` finds the expression somewhere in the text.
pub uninterp spec fn regex_found(source: Seq<char>, text: Seq<char>) -> bool;

/// The text that the first group of the expression takes in the first match that
/// `regex::Regex::captures` finds, or `None` where there is no match or the group took no part.
pub uninterp spec fn regex_capture(source: Seq<char>, text: Seq<char>) -> Option<Seq<char>>;

/// The words into which `shlex::split` takes a command apart, or `None` for a command that ends
/// inside a quotation or after a backslash.
pub uninterp spec fn shell_words(command: Seq<char>) -> Option<Seq<Seq<char>>>;

/// Characters that mean something else than themselves in a regular expression, other than
/// the wildcards `*` and `?`.
pub open spec fn is_meta(c: char) -> bool {
    c == '\\' || c == '.' || c == '+' || c == '(' || c == ')' || c == '|' || c == '[' || c == ']'
        || c == '{' || c == '}' || c == '^' || c == '$'
}

/// The part of an expression for one character of a pattern: `*` stands for any run of
/// characters, `?` for any one character, any other character for itself.
pub open spec fn expression_of(c: char) -> Seq<char> {
    if c == '*' {
        seq!['.', '*']
    } else if c == '?' {
        seq!['.']
    } else if is_meta(c) {
        seq!['\\', c]
    } else {
        seq![c]
    }
}

/// The expression of the first `n` characters of a pattern.
pub open spec fn expression(pattern: Seq<char>, n: int) -> Seq<char>
    decreases n,
{
    if n <= 0 {
        seq![]
    } else {
        expression(pattern, n - 1) + expression_of(pattern[n - 1])
    }
}

/// The expression of a pattern, which has to match a whole text.
pub open spec fn anchored(pattern: Seq<char>) -> Seq<char> {
    seq!['^'] + expression(pattern, pattern.len() as int) + seq!['$']
}

/// Whether a pattern matches a whole text: `*` stands for any run of characters on one line,
/// `?` for any one character but a line break, any other character for itself.
pub open spec fn wildcard_match(pattern: Seq<char>, text: Seq<char>) -> bool
    decreases pattern.len(), text.len(),
{
    if pattern.len() == 0 {
        text.len() == 0
    } else if pattern[0] == '*' {
        ||| wildcard_match(pattern.skip(1), text)
        ||| text.len() > 0 && text[0] != '\n' && wildcard_match(pattern, text.skip(1))
    } else if pattern[0] == '?' {
        text.len() > 0 && text[0] != '\n' && wildcard_match(pattern.skip(1), text.skip(1))
    } else {
        text.len() > 0 && text[0] == pattern[0] && wildcard_match(pattern.skip(1), text.skip(1))
    }
}

/// Compiles an expression with `regex::Regex::new`. What is claimed: the call either accepts
/// the expression or refuses it with a message, and which of the two, and the message, depend
/// on the expression alone.
#[verifier::external_body]
pub(crate) fn compile(source: &str) -> (res: Result<TextRegex, String>)
    ensures
        match res {
            Ok(re) => regex_error(source@) is None && re.source() == source@,
            Err(e) => regex_error(source@) == Some(e@),
        },
{
    match regex::Regex::new(source) {
        Ok(compiled) => Ok(TextRegex { source: source.to_string(), compiled }),
        Err(e) => Err(e.to_string()),
    }
}

/// Looks for an expression in a text with `regex::Regex::is_match`. What is claimed: the answer
/// depends on the expression and the text alone; and of the expression of a pattern, in which `^`
/// and `$` are the ends of the text, `.` is any character but a line break, and a backslash
/// makes the next character stand for itself, the answer is whether the pattern matches the
/// whole text.
#[verifier::external_body]
pub(crate) fn is_match(re: &TextRegex, text: &str) -> (res: bool)
    ensures
        res == regex_found(re.source(), text@),
        forall|pattern: Seq<char>|
            re.source() == #[trigger] anchored(pattern) ==> res == wildcard_match(pattern, text@),
{
    re.compiled.is_match(text)
}

/// Looks for an expression in a text with `regex::Regex::captures`, and takes its first group.
/// What is claimed: the answer depends on the expression and the text alone.
#[verifier::external_body]
pub(crate) fn capture(re: &TextRegex, text: &str) -> (res: Option<String>)
    ensures
        option_text(res) == regex_capture(re.source(), text@),
{
    match re.compiled.captures(text) {
        Some(found) => match found.get(1) {
            Some(group) => Some(group.as_str().to_string()),
            None => None,
        },
        None => None,
    }
}

/// The type of compiled path patterns of the `glob` crate.
#[verifier::external_type_specification]
#[verifier::external_body]
pub struct ExPattern(glob::Pattern);

/// Asks `std::path::is_separator` whether a character separates the parts of a path. Nothing is
/// claimed of the answer, which depends on the machine.
#[verifier::external_body]
fn is_path_separator(c: char) -> bool {
    std::path::is_separator(c)
}

/// Gives `std::path::MAIN_SEPARATOR`. Nothing is claimed of it: it depends on the machine.
#[verifier::external_body]
fn main_separator() -> char {
    std::path::MAIN_SEPARATOR
}

/// How paths are written: the separator that is preferred, whether `/` is one, and whether a
/// backslash is.
pub type PathStyle = (char, bool, bool);

/// How paths are written on this machine. Only [`Separators::of_machine`] makes one, so it is
/// always what the standard library says of the machine.
#[derive(Debug, Clone, Copy)]
pub struct Separators {
    main: char,
    slash: bool,
    backslash: bool,
}

impl View for Separators {
    type V = PathStyle;

    closed spec fn view(&self) -> PathStyle {
        (self.main, self.slash, self.backslash)
    }
}

impl Separators {
    /// How paths are written on this machine. Which of the ways it is the contract leaves open: it
    /// is not the same on every machine.
    pub fn of_machine() -> (res: Self) {
        Separators {
            main: main_separator(),
            slash: is_path_separator('/'),
            backslash: is_path_separator('\\'),
        }
    }
}

/// A compiled path pattern with its source. Only [`compile_glob`] makes one, so `compiled` is
/// always what `glob::Pattern::new` made of `source` on this machine.
#[derive(Debug)]
pub struct TextGlob {
    source: String,
    machine: Separators,
    compiled: glob::Pattern,
}

impl TextGlob {
    /// The text that was compiled, and how paths are written where that was done.
    pub closed spec fn glob(&self) -> GlobText {
        (self.source@, self.machine@)
    }
}

/// The message with which `glob::Pattern::new` refuses a pattern on a machine that writes paths in
/// this way, or `None` where it accepts it.
pub uninterp spec fn glob_error(source: Seq<char>, style: (char, bool, bool)) -> Option<Seq<char>>;

/// Whether `glob::Pattern::matches` says, on a machine that writes paths in this way, that the
/// pattern matches the text.
pub uninterp spec fn glob_found(
    source: Seq<char>,
    text: Seq<char>,
    style: (char, bool, bool),
) -> bool;

/// A path pattern with the way in which paths are written where it is used.
pub type GlobText = (Seq<char>, PathStyle);

/// Whether a path pattern matches a text where it is used.
pub open spec fn glob_hits(glob: GlobText, text: Seq<char>) -> bool {
    glob_found(glob.0, text, glob.1)
}

/// Whether it is the same everywhere, and as [`path_match`] says, whether a path pattern matches
/// a text.
pub open spec fn is_portable(glob: GlobText, text: Seq<char>) -> bool {
    is_simple_glob(glob.0) && has_no_backslash(glob.0) && has_no_backslash(text)
}

/// A path pattern without sets of characters and without two stars in a row.
pub open spec fn is_simple_glob(pattern: Seq<char>) -> bool {
    &&& forall|i: int| 0 <= i < pattern.len() ==> #[trigger] pattern[i] != '['
    &&& forall|i: int, j: int|
        0 <= i < pattern.len() && 0 <= j < pattern.len() && j == i + 1 && #[trigger] pattern[i]
            == '*' ==> #[trigger] pattern[j] != '*'
}

/// A text without backslashes, which separate the parts of a path on some machines only.
pub open spec fn has_no_backslash(text: Seq<char>) -> bool {
    forall|i: int| 0 <= i < text.len() ==> #[trigger] text[i] != '\\'
}

/// Whether a simple path pattern matches a whole text: `*` stands for any run of characters,
/// `?` for any one character, any other character for itself.
pub open spec fn path_match(pattern: Seq<char>, text: Seq<char>) -> bool
    decreases pattern.len(), text.len(),
{
    if pattern.len() == 0 {
        text.len() == 0
    } else if pattern[0] == '*' {
        ||| path_match(pattern.skip(1), text)
        ||| text.len() > 0 && path_match(pattern, text.skip(1))
    } else {
        text.len() > 0 && (pattern[0] == '?' || text[0] == pattern[0]) && path_match(
            pattern.skip(1),
            text.skip(1),
        )
    }
}

/// Compiles a path pattern with `glob::Pattern::new`. What is claimed: the call either accepts
/// the pattern or refuses it with a message; which of the two, and the message, depend on the
/// pattern and on how this machine writes paths; and a simple pattern is accepted everywhere.
#[verifier::external_body]
pub(crate) fn compile_glob(source: &str, machine: &Separators) -> (res: Result<TextGlob, String>)
    ensures
        match res {
            Ok(g) => glob_error(source@, machine@) is None && g.glob() == (source@, machine@),
            Err(e) => glob_error(source@, machine@) == Some(e@),
        },
        is_simple_glob(source@) ==> res is Ok,
{
    match glob::Pattern::new(source) {
        Ok(compiled) => Ok(TextGlob { source: source.to_string(), machine: *machine, compiled }),
        Err(e) => Err(e.to_string()),
    }
}

/// Holds a text against a path pattern with `glob::Pattern::matches`. What is claimed: the answer
/// depends on the pattern, the text, and how this machine writes paths; and of a simple pattern
/// and a text that both hold no backslash, the answer is everywhere whether the pattern matches
/// the whole text, where `/` is a character like any other.
#[verifier::external_body]
pub(crate) fn matches_glob(g: &TextGlob, text: &str) -> (res: bool)
    ensures
        res == glob_found(g.glob().0, text@, g.glob().1),
        is_portable(g.glob(), text@) ==> res == path_match(g.glob().0, text@),
{
    g.compiled.matches(text)
}

/// A blank of the shell.
pub open spec fn is_shell_blank(c: char) -> bool {
    c == ' ' || c == '\t' || c == '\n'
}

/// A command without quotes, backslashes and comments.
pub open spec fn is_unquoted(command: Seq<char>) -> bool {
    forall|i: int|
        0 <= i < command.len() ==> #[trigger] command[i] != '"' && command[i] != '\'' && command[i]
            != '\\' && command[i] != '#'
}

/// The runs of characters between blanks; `word` is the run read so far.
pub open spec fn blank_words(command: Seq<char>, word: Seq<char>) -> Seq<Seq<char>>
    decreases command.len(),
{
    if command.len() == 0 {
        if word.len() == 0 {
            seq![]
        } else {
            seq![word]
        }
    } else if is_shell_blank(command[0]) {
        if word.len() == 0 {
            blank_words(command.skip(1), word)
        } else {
            seq![word] + blank_words(command.skip(1), seq![])
        }
    } else {
        blank_words(command.skip(1), word.push(command[0]))
    }
}

/// Takes a command apart into words with `shlex::split`. What is claimed: the words, or that
/// there are none, depend on the command alone; and a command without quotes, backslashes and
/// comments is taken apart at spaces, tabs and line breaks.
#[verifier::external_body]
pub(crate) fn split_words(command: &str) -> (res: Option<Vec<String>>)
    ensures
        option_texts(res) == shell_words(command@),
        is_unquoted(command@) ==> option_texts(res) == Some(blank_words(command@, seq![])),
{
    shlex::split(command)
}

} // verus!
