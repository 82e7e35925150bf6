//! The words of a `/tools` command: what they ask for, and why they ask for nothing.

use vstd::prelude::*;

use crate::matcher::{shell_words, split_words};
use crate::text::{
    chars_of, lemma_texts_push, option_text, same_text, starts_with_text, str_starts_with,
    string_from, texts,
};
use crate::tools::{AllowSubcommand, RemoveSubcommand, ToolsArgs, ToolsSubcommand};

verus! {

/// Why words are no command.
#[derive(Debug, PartialEq, Eq)]
pub enum ArgsError {
    /// They ask for help.
    HelpRequested,
    /// They name no subcommand where one is needed.
    MissingSubcommand,
    /// They name a subcommand that does not exist.
    UnknownSubcommand(String),
    /// A word stands where none is expected.
    UnexpectedArgument(String),
    /// An option is given without a value.
    MissingValue(String),
    /// An option that can be given once is given again.
    RepeatedOption(String),
    /// What is needed is not given.
    MissingArgument,
    /// Both patterns and all patterns are meant.
    CommandWithAll,
}

/// What a reason why words are no command holds.
pub enum ErrorText {
    HelpRequested,
    MissingSubcommand,
    UnknownSubcommand(Seq<char>),
    UnexpectedArgument(Seq<char>),
    MissingValue(Seq<char>),
    RepeatedOption(Seq<char>),
    MissingArgument,
    CommandWithAll,
}

impl View for ArgsError {
    type V = ErrorText;

    open spec fn view(&self) -> ErrorText {
        match *self {
            ArgsError::HelpRequested => ErrorText::HelpRequested,
            ArgsError::MissingSubcommand => ErrorText::MissingSubcommand,
            ArgsError::UnknownSubcommand(s) => ErrorText::UnknownSubcommand(s@),
            ArgsError::UnexpectedArgument(s) => ErrorText::UnexpectedArgument(s@),
            ArgsError::MissingValue(s) => ErrorText::MissingValue(s@),
            ArgsError::RepeatedOption(s) => ErrorText::RepeatedOption(s@),
            ArgsError::MissingArgument => ErrorText::MissingArgument,
            ArgsError::CommandWithAll => ErrorText::CommandWithAll,
        }
    }
}

/// What a `/tools` command asks for.
#[allow(inconsistent_fields)]
pub enum ToolsText {
    Schema,
    Trust(Seq<Seq<char>>),
    Untrust(Seq<Seq<char>>),
    TrustAll,
    Reset,
    ResetSingle(Seq<char>),
    Allow { command: Seq<Seq<char>>, description: Option<Seq<char>>, global: bool },
    Remove { command: Seq<Seq<char>>, global: bool, all: bool },
}

impl View for ToolsSubcommand {
    type V = ToolsText;

    open spec fn view(&self) -> ToolsText {
        match *self {
            ToolsSubcommand::Schema => ToolsText::Schema,
            ToolsSubcommand::Trust { tool_names } => ToolsText::Trust(texts(tool_names@)),
            ToolsSubcommand::Untrust { tool_names } => ToolsText::Untrust(texts(tool_names@)),
            ToolsSubcommand::TrustAll => ToolsText::TrustAll,
            ToolsSubcommand::Reset => ToolsText::Reset,
            ToolsSubcommand::ResetSingle { tool_name } => ToolsText::ResetSingle(tool_name@),
            ToolsSubcommand::Allow {
                subcommand: AllowSubcommand::ExecuteBash { command, description, global },
            } => ToolsText::Allow {
                command: texts(command@),
                description: option_text(description),
                global,
            },
            ToolsSubcommand::Remove {
                subcommand: RemoveSubcommand::ExecuteBash { command, global, all },
            } => ToolsText::Remove { command: texts(command@), global, all },
        }
    }
}

/// What a command asks for, or why it asks for nothing.
pub open spec fn outcome(res: Result<ToolsSubcommand, ArgsError>) -> Result<ToolsText, ErrorText> {
    match res {
        Ok(s) => Ok(s@),
        Err(e) => Err(e@),
    }
}

/// Whether a word is an option and no value: it begins with a dash and goes on.
pub open spec fn is_option(word: Seq<char>) -> bool {
    word.len() >= 2 && word[0] == '-'
}

/// Whether a word asks for help.
pub open spec fn is_help(word: Seq<char>) -> bool {
    word == "-h"@ || word == "--help"@
}

/// What has been read of the options of `execute_bash`.
#[verifier::ext_equal]
pub struct OptionsText {
    /// The patterns.
    pub command: Seq<Seq<char>>,
    /// The description.
    pub description: Option<Seq<char>>,
    /// Whether the global option was given.
    pub global: bool,
    /// Whether all patterns are meant.
    pub all: bool,
    /// Whether a value is a pattern.
    pub taking: bool,
    /// Whether a pattern must come next.
    pub wants_command: bool,
    /// Whether a description must come next.
    pub wants_description: bool,
    /// Whether `--` was given, after which there are no options.
    pub ended: bool,
}

/// What has been read before the first option.
pub open spec fn no_options() -> OptionsText {
    OptionsText {
        command: seq![],
        description: None,
        global: false,
        all: false,
        taking: false,
        wants_command: false,
        wants_description: false,
        ended: false,
    }
}

/// What has been read after one more word. Patterns follow `--command` up to the next option, or
/// stand behind `--command=`. `allow` says whether patterns are to be trusted: then there is a
/// description; else all patterns can be meant.
pub open spec fn after_word(state: OptionsText, word: Seq<char>, allow: bool) -> Result<
    OptionsText,
    ErrorText,
> {
    let next = OptionsText { taking: false, ..state };
    if state.ended {
        Err(ErrorText::UnexpectedArgument(word))
    } else if state.wants_description {
        if is_option(word) {
            Err(ErrorText::MissingValue("--description"@))
        } else {
            Ok(OptionsText { description: Some(word), wants_description: false, ..next })
        }
    } else if !is_option(word) {
        if state.taking {
            Ok(OptionsText { command: state.command.push(word), wants_command: false, ..state })
        } else {
            Err(ErrorText::UnexpectedArgument(word))
        }
    } else if state.wants_command {
        Err(ErrorText::MissingValue("--command"@))
    } else if word == "--"@ {
        Ok(OptionsText { ended: true, ..next })
    } else if word == "--command"@ {
        Ok(OptionsText { taking: true, wants_command: true, ..state })
    } else if starts_with_text(word, "--command="@) {
        Ok(OptionsText { command: state.command.push(word.skip("--command="@.len() as int)), ..next })
    } else if word == "--global"@ || word == "-g"@ {
        if state.global {
            Err(ErrorText::RepeatedOption("--global"@))
        } else {
            Ok(OptionsText { global: true, ..next })
        }
    } else if allow && word == "--description"@ {
        if state.description is Some {
            Err(ErrorText::RepeatedOption("--description"@))
        } else {
            Ok(OptionsText { wants_description: true, ..next })
        }
    } else if allow && starts_with_text(word, "--description="@) {
        if state.description is Some {
            Err(ErrorText::RepeatedOption("--description"@))
        } else {
            Ok(
                OptionsText {
                    description: Some(word.skip("--description="@.len() as int)),
                    ..next
                },
            )
        }
    } else if !allow && word == "--all"@ {
        if state.all {
            Err(ErrorText::RepeatedOption("--all"@))
        } else {
            Ok(OptionsText { all: true, ..next })
        }
    } else if is_help(word) {
        Err(ErrorText::HelpRequested)
    } else {
        Err(ErrorText::UnexpectedArgument(word))
    }
}

/// What the options mean once all words have been read.
pub open spec fn options_end(state: OptionsText, allow: bool) -> Result<ToolsText, ErrorText> {
    if state.wants_command {
        Err(ErrorText::MissingValue("--command"@))
    } else if state.wants_description {
        Err(ErrorText::MissingValue("--description"@))
    } else if state.all && state.command.len() > 0 {
        Err(ErrorText::CommandWithAll)
    } else if !state.all && state.command.len() == 0 {
        Err(ErrorText::MissingArgument)
    } else if allow {
        Ok(
            ToolsText::Allow {
                command: state.command,
                description: state.description,
                global: state.global,
            },
        )
    } else {
        Ok(ToolsText::Remove { command: state.command, global: state.global, all: state.all })
    }
}

/// What the words from the `i`-th on mean, where `state` was read before.
pub open spec fn read_options(state: OptionsText, words: Seq<Seq<char>>, i: int, allow: bool) -> Result<
    ToolsText,
    ErrorText,
>
    decreases words.len() - i,
{
    if i >= words.len() {
        options_end(state, allow)
    } else {
        match after_word(state, words[i], allow) {
            Ok(next) => read_options(next, words, i + 1, allow),
            Err(e) => Err(e),
        }
    }
}

/// The names among the words from the `i`-th on, after `names`; `ended` says whether `--` was
/// given, after which there are no options.
pub open spec fn read_names(
    names: Seq<Seq<char>>,
    words: Seq<Seq<char>>,
    i: int,
    ended: bool,
) -> Result<Seq<Seq<char>>, ErrorText>
    decreases words.len() - i,
{
    if i >= words.len() {
        Ok(names)
    } else if ended || !is_option(words[i]) {
        read_names(names.push(words[i]), words, i + 1, ended)
    } else if words[i] == "--"@ {
        read_names(names, words, i + 1, true)
    } else if is_help(words[i]) {
        Err(ErrorText::HelpRequested)
    } else {
        Err(ErrorText::UnexpectedArgument(words[i]))
    }
}

/// What `execute_bash` and the words after it mean, from the `i`-th word on.
pub open spec fn read_target(words: Seq<Seq<char>>, i: int, allow: bool) -> Result<
    ToolsText,
    ErrorText,
> {
    if i >= words.len() {
        Err(ErrorText::MissingSubcommand)
    } else if words[i] == "execute_bash"@ {
        read_options(no_options(), words, i + 1, allow)
    } else if is_help(words[i]) || words[i] == "help"@ {
        Err(ErrorText::HelpRequested)
    } else if is_option(words[i]) {
        Err(ErrorText::UnexpectedArgument(words[i]))
    } else {
        Err(ErrorText::UnknownSubcommand(words[i]))
    }
}

/// What the words of a command mean from the `i`-th word on, which names the subcommand.
pub open spec fn read_tools(words: Seq<Seq<char>>, i: int) -> Result<ToolsText, ErrorText> {
    if i >= words.len() {
        Err(ErrorText::MissingSubcommand)
    } else if words[i] == "allow"@ {
        read_target(words, i + 1, true)
    } else if words[i] == "remove"@ {
        read_target(words, i + 1, false)
    } else if words[i] == "trust"@ || words[i] == "untrust"@ || words[i] == "reset-single"@
        || words[i] == "schema"@ || words[i] == "trust-all"@ || words[i] == "reset"@ {
        match read_names(seq![], words, i + 1, false) {
            Err(e) => Err(e),
            Ok(names) => named_tools(words[i], names),
        }
    } else if is_help(words[i]) || words[i] == "help"@ {
        Err(ErrorText::HelpRequested)
    } else if is_option(words[i]) {
        Err(ErrorText::UnexpectedArgument(words[i]))
    } else {
        Err(ErrorText::UnknownSubcommand(words[i]))
    }
}

/// What a subcommand with names means: at least one name, exactly one, or none is needed.
pub open spec fn named_tools(word: Seq<char>, names: Seq<Seq<char>>) -> Result<
    ToolsText,
    ErrorText,
> {
    if word == "trust"@ || word == "untrust"@ {
        if names.len() == 0 {
            Err(ErrorText::MissingArgument)
        } else if word == "trust"@ {
            Ok(ToolsText::Trust(names))
        } else {
            Ok(ToolsText::Untrust(names))
        }
    } else if word == "reset-single"@ {
        if names.len() == 0 {
            Err(ErrorText::MissingArgument)
        } else if names.len() > 1 {
            Err(ErrorText::UnexpectedArgument(names[1]))
        } else {
            Ok(ToolsText::ResetSingle(names[0]))
        }
    } else if names.len() > 0 {
        Err(ErrorText::UnexpectedArgument(names[0]))
    } else if word == "schema"@ {
        Ok(ToolsText::Schema)
    } else if word == "trust-all"@ {
        Ok(ToolsText::TrustAll)
    } else {
        Ok(ToolsText::Reset)
    }
}

/// What has been read of the options of `execute_bash`.
struct Options {
    command: Vec<String>,
    description: Option<String>,
    global: bool,
    all: bool,
    taking: bool,
    wants_command: bool,
    wants_description: bool,
    ended: bool,
}

impl View for Options {
    type V = OptionsText;

    closed spec fn view(&self) -> OptionsText {
        OptionsText {
            command: texts(self.command@),
            description: option_text(self.description),
            global: self.global,
            all: self.all,
            taking: self.taking,
            wants_command: self.wants_command,
            wants_description: self.wants_description,
            ended: self.ended,
        }
    }
}

/// Whether a word is an option and no value.
fn option_word(word: &str) -> (res: bool)
    ensures
        res == is_option(word@),
{
    let v = chars_of(word);
    v.len() >= 2 && v[0] == '-'
}

/// Whether a word asks for help.
fn help_word(word: &str) -> (res: bool)
    ensures
        res == is_help(word@),
{
    same_text(word, "-h") || same_text(word, "--help")
}

/// What follows the beginning of a word.
fn rest_of(word: &str, head: &str) -> (res: String)
    requires
        starts_with_text(word@, head@),
    ensures
        res@ == word@.skip(head@.len() as int),
{
    let v = chars_of(word);
    let h = chars_of(head);
    let res = string_from(&v, h.len(), v.len());
    assert(res@ =~= word@.skip(head@.len() as int));
    res
}

impl Options {
    /// Reads one more word.
    fn read(&mut self, word: &String, allow: bool) -> (res: Result<(), ArgsError>)
        ensures
            match (after_word(old(self)@, word@, allow), res) {
                (Ok(next), Ok(_)) => final(self)@ == next,
                (Err(e), Err(found)) => found@ == e,
                _ => false,
            },
    {
        let ghost state = self@;
        let w = word.as_str();
        if self.ended {
            return Err(ArgsError::UnexpectedArgument(word.clone()));
        }
        let option = option_word(w);
        if self.wants_description {
            if option {
                return Err(ArgsError::MissingValue(String::from_str("--description")));
            }
            self.description = Some(word.clone());
            self.wants_description = false;
            self.taking = false;
            return Ok(());
        }
        if !option {
            if !self.taking {
                return Err(ArgsError::UnexpectedArgument(word.clone()));
            }
            proof {
                lemma_texts_push(self.command@, *word);
            }
            self.command.push(word.clone());
            self.wants_command = false;
            assert(texts(self.command@) =~= state.command.push(word@));
            return Ok(());
        }
        if self.wants_command {
            return Err(ArgsError::MissingValue(String::from_str("--command")));
        }
        if same_text(w, "--") {
            self.ended = true;
            self.taking = false;
            return Ok(());
        }
        if same_text(w, "--command") {
            self.taking = true;
            self.wants_command = true;
            return Ok(());
        }
        if str_starts_with(w, "--command=") {
            let value = rest_of(w, "--command=");
            let ghost shown = value@;
            self.command.push(value);
            self.taking = false;
            assert(texts(self.command@) =~= state.command.push(shown));
            return Ok(());
        }
        if same_text(w, "--global") || same_text(w, "-g") {
            if self.global {
                return Err(ArgsError::RepeatedOption(String::from_str("--global")));
            }
            self.global = true;
            self.taking = false;
            return Ok(());
        }
        if allow && same_text(w, "--description") {
            if self.description.is_some() {
                return Err(ArgsError::RepeatedOption(String::from_str("--description")));
            }
            self.wants_description = true;
            self.taking = false;
            return Ok(());
        }
        if allow && str_starts_with(w, "--description=") {
            if self.description.is_some() {
                return Err(ArgsError::RepeatedOption(String::from_str("--description")));
            }
            self.description = Some(rest_of(w, "--description="));
            self.taking = false;
            return Ok(());
        }
        if !allow && same_text(w, "--all") {
            if self.all {
                return Err(ArgsError::RepeatedOption(String::from_str("--all")));
            }
            self.all = true;
            self.taking = false;
            return Ok(());
        }
        if help_word(w) {
            return Err(ArgsError::HelpRequested);
        }
        Err(ArgsError::UnexpectedArgument(word.clone()))
    }
}

/// Reads the options of `execute_bash`, from the `from`-th word on.
fn options_from(words: &Vec<String>, from: usize, allow: bool) -> (res: Result<
    ToolsSubcommand,
    ArgsError,
>)
    requires
        from <= words@.len(),
    ensures
        outcome(res) == read_options(no_options(), texts(words@), from as int, allow),
{
    let ghost w = texts(words@);
    let mut state = Options {
        command: Vec::new(),
        description: None,
        global: false,
        all: false,
        taking: false,
        wants_command: false,
        wants_description: false,
        ended: false,
    };
    assert(state@ =~= no_options()) by {
        assert(texts(state.command@) =~= seq![]);
    }
    let mut i: usize = from;
    while i < words.len()
        invariant
            from <= i <= words@.len(),
            w == texts(words@),
            read_options(state@, w, i as int, allow) == read_options(
                no_options(),
                w,
                from as int,
                allow,
            ),
        decreases words@.len() - i,
    {
        assert(w[i as int] == words@[i as int]@);
        match state.read(&words[i], allow) {
            Ok(_) => {},
            Err(e) => {
                return Err(e);
            },
        }
        i += 1;
    }
    if state.wants_command {
        return Err(ArgsError::MissingValue(String::from_str("--command")));
    }
    if state.wants_description {
        return Err(ArgsError::MissingValue(String::from_str("--description")));
    }
    if state.all && state.command.len() > 0 {
        return Err(ArgsError::CommandWithAll);
    }
    if !state.all && state.command.len() == 0 {
        return Err(ArgsError::MissingArgument);
    }
    if allow {
        Ok(
            ToolsSubcommand::Allow {
                subcommand: AllowSubcommand::ExecuteBash {
                    command: state.command,
                    description: state.description,
                    global: state.global,
                },
            },
        )
    } else {
        Ok(
            ToolsSubcommand::Remove {
                subcommand: RemoveSubcommand::ExecuteBash {
                    command: state.command,
                    global: state.global,
                    all: state.all,
                },
            },
        )
    }
}

/// Names, or why there are none.
spec fn name_outcome(res: Result<Vec<String>, ArgsError>) -> Result<Seq<Seq<char>>, ErrorText> {
    match res {
        Ok(v) => Ok(texts(v@)),
        Err(e) => Err(e@),
    }
}

/// Reads names, from the `from`-th word on.
fn names_from(words: &Vec<String>, from: usize) -> (res: Result<Vec<String>, ArgsError>)
    requires
        from <= words@.len(),
    ensures
        name_outcome(res) == read_names(seq![], texts(words@), from as int, false),
{
    let ghost w = texts(words@);
    let mut names: Vec<String> = Vec::new();
    let mut ended = false;
    let mut i: usize = from;
    assert(texts(names@) =~= seq![]);
    while i < words.len()
        invariant
            from <= i <= words@.len(),
            w == texts(words@),
            read_names(texts(names@), w, i as int, ended) == read_names(
                seq![],
                w,
                from as int,
                false,
            ),
        decreases words@.len() - i,
    {
        assert(w[i as int] == words@[i as int]@);
        let word = words[i].as_str();
        if ended || !option_word(word) {
            let ghost prior = texts(names@);
            names.push(words[i].clone());
            assert(texts(names@) =~= prior.push(w[i as int]));
        } else if same_text(word, "--") {
            ended = true;
        } else if help_word(word) {
            return Err(ArgsError::HelpRequested);
        } else {
            return Err(ArgsError::UnexpectedArgument(words[i].clone()));
        }
        i += 1;
    }
    Ok(names)
}

/// Reads `execute_bash` and its options, from the `from`-th word on.
fn target_from(words: &Vec<String>, from: usize, allow: bool) -> (res: Result<
    ToolsSubcommand,
    ArgsError,
>)
    requires
        from <= words@.len(),
    ensures
        outcome(res) == read_target(texts(words@), from as int, allow),
{
    if from >= words.len() {
        return Err(ArgsError::MissingSubcommand);
    }
    let word = words[from].as_str();
    assert(texts(words@)[from as int] == word@);
    if same_text(word, "execute_bash") {
        options_from(words, from + 1, allow)
    } else if help_word(word) || same_text(word, "help") {
        Err(ArgsError::HelpRequested)
    } else if option_word(word) {
        Err(ArgsError::UnexpectedArgument(words[from].clone()))
    } else {
        Err(ArgsError::UnknownSubcommand(words[from].clone()))
    }
}

/// What a subcommand with names means.
fn tools_with_names(word: &str, names: Vec<String>) -> (res: Result<ToolsSubcommand, ArgsError>)
    ensures
        outcome(res) == named_tools(word@, texts(names@)),
{
    if same_text(word, "trust") || same_text(word, "untrust") {
        if names.len() == 0 {
            Err(ArgsError::MissingArgument)
        } else if same_text(word, "trust") {
            Ok(ToolsSubcommand::Trust { tool_names: names })
        } else {
            Ok(ToolsSubcommand::Untrust { tool_names: names })
        }
    } else if same_text(word, "reset-single") {
        if names.len() == 0 {
            Err(ArgsError::MissingArgument)
        } else if names.len() > 1 {
            Err(ArgsError::UnexpectedArgument(names[1].clone()))
        } else {
            Ok(ToolsSubcommand::ResetSingle { tool_name: names[0].clone() })
        }
    } else if names.len() > 0 {
        Err(ArgsError::UnexpectedArgument(names[0].clone()))
    } else if same_text(word, "schema") {
        Ok(ToolsSubcommand::Schema)
    } else if same_text(word, "trust-all") {
        Ok(ToolsSubcommand::TrustAll)
    } else {
        Ok(ToolsSubcommand::Reset)
    }
}

/// Reads a subcommand, from the `from`-th word on.
fn tools_from(words: &Vec<String>, from: usize) -> (res: Result<ToolsSubcommand, ArgsError>)
    requires
        from <= words@.len(),
    ensures
        outcome(res) == read_tools(texts(words@), from as int),
{
    if from >= words.len() {
        return Err(ArgsError::MissingSubcommand);
    }
    let word = words[from].as_str();
    assert(texts(words@)[from as int] == word@);
    if same_text(word, "allow") {
        target_from(words, from + 1, true)
    } else if same_text(word, "remove") {
        target_from(words, from + 1, false)
    } else if same_text(word, "trust") || same_text(word, "untrust") || same_text(
        word,
        "reset-single",
    ) || same_text(word, "schema") || same_text(word, "trust-all") || same_text(word, "reset") {
        match names_from(words, from + 1) {
            Err(e) => Err(e),
            Ok(names) => tools_with_names(word, names),
        }
    } else if help_word(word) || same_text(word, "help") {
        Err(ArgsError::HelpRequested)
    } else if option_word(word) {
        Err(ArgsError::UnexpectedArgument(words[from].clone()))
    } else {
        Err(ArgsError::UnknownSubcommand(words[from].clone()))
    }
}

impl ToolsSubcommand {
    /// Reads a subcommand; the first word is the name of the program.
    pub fn try_parse_from(words: &Vec<String>) -> (res: Result<ToolsSubcommand, ArgsError>)
        ensures
            outcome(res) == read_tools(texts(words@), 1),
    {
        if words.len() == 0 {
            Err(ArgsError::MissingSubcommand)
        } else {
            tools_from(words, 1)
        }
    }
}

/// What a command asks for, or why it asks for nothing.
pub open spec fn args_outcome(res: Result<ToolsArgs, ArgsError>) -> Result<
    Option<ToolsText>,
    ErrorText,
> {
    match res {
        Ok(args) => Ok(
            match args.subcommand {
                Some(s) => Some(s@),
                None => None,
            },
        ),
        Err(e) => Err(e@),
    }
}

/// What the words of a `/tools` command mean: without a subcommand the tools are listed.
pub open spec fn read_slash(words: Seq<Seq<char>>) -> Result<Option<ToolsText>, ErrorText> {
    if words.len() == 0 {
        Err(ErrorText::MissingSubcommand)
    } else if words[0] != "tools"@ {
        Err(ErrorText::UnknownSubcommand(words[0]))
    } else if words.len() == 1 {
        Ok(None)
    } else {
        match read_tools(words, 1) {
            Ok(s) => Ok(Some(s)),
            Err(e) => Err(e),
        }
    }
}

impl ToolsArgs {
    /// Reads a `/tools` command; the first word is `tools`.
    pub fn from_words(words: &Vec<String>) -> (res: Result<ToolsArgs, ArgsError>)
        ensures
            args_outcome(res) == read_slash(texts(words@)),
    {
        if words.len() == 0 {
            return Err(ArgsError::MissingSubcommand);
        }
        assert(texts(words@)[0] == words@[0]@);
        if !same_text(words[0].as_str(), "tools") {
            return Err(ArgsError::UnknownSubcommand(words[0].clone()));
        }
        if words.len() == 1 {
            return Ok(ToolsArgs { subcommand: None });
        }
        match tools_from(words, 1) {
            Ok(s) => Ok(ToolsArgs { subcommand: Some(s) }),
            Err(e) => Err(e),
        }
    }

    /// Reads what was typed; `None` where it is no slash command: where it does not begin with a
    /// slash, or ends inside a quotation or after a backslash.
    pub fn from_input(input: &str) -> (res: Option<Result<ToolsArgs, ArgsError>>)
        ensures
            match res {
                None => input@.len() == 0 || input@[0] != '/' || shell_words(input@.skip(1)) is None,
                Some(found) => {
                    &&& input@.len() > 0 && input@[0] == '/'
                    &&& shell_words(input@.skip(1)) matches Some(words) && args_outcome(found)
                        == read_slash(words)
                },
            },
    {
        let v = chars_of(input);
        if v.len() == 0 || v[0] != '/' {
            return None;
        }
        let rest = string_from(&v, 1, v.len());
        assert(rest@ =~= input@.skip(1));
        match split_words(rest.as_str()) {
            None => None,
            Some(words) => Some(ToolsArgs::from_words(&words)),
        }
    }
}

/// The words that ask for a command.
pub open spec fn words_for(asked: ToolsText) -> Seq<Seq<char>> {
    match asked {
        ToolsText::Schema => seq!["schema"@],
        ToolsText::Trust(names) => seq!["trust"@, "--"@] + names,
        ToolsText::Untrust(names) => seq!["untrust"@, "--"@] + names,
        ToolsText::TrustAll => seq!["trust-all"@],
        ToolsText::Reset => seq!["reset"@],
        ToolsText::ResetSingle(name) => seq!["reset-single"@, "--"@, name],
        ToolsText::Allow { command, description, global } => seq!["allow"@, "execute_bash"@] + (
        if global {
            seq!["--global"@]
        } else {
            seq![]
        }) + (match description {
            Some(d) => seq!["--description="@ + d],
            None => seq![],
        }) + Seq::new(command.len(), |i: int| "--command="@ + command[i]),
        ToolsText::Remove { command, global, all } => seq!["remove"@, "execute_bash"@] + (
        if global {
            seq!["--global"@]
        } else {
            seq![]
        }) + (if all {
            seq!["--all"@]
        } else {
            seq![]
        }) + Seq::new(command.len(), |i: int| "--command="@ + command[i]),
    }
}

/// What words can ask for: at least one tool to trust, and either patterns or all of them.
pub open spec fn can_be_asked(asked: ToolsText) -> bool {
    match asked {
        ToolsText::Trust(names) => names.len() > 0,
        ToolsText::Untrust(names) => names.len() > 0,
        ToolsText::Allow { command, .. } => command.len() > 0,
        ToolsText::Remove { command, all, .. } => all == (command.len() == 0),
        _ => true,
    }
}

/// Everything that can be asked for can be asked for in words, and is what those words mean,
/// whatever characters the names, patterns and descriptions hold.
pub proof fn law_words_are_read_back(asked: ToolsText)
    requires
        can_be_asked(asked),
    ensures
        read_tools(words_for(asked), 0) == Ok::<ToolsText, ErrorText>(asked),
{
    let w = words_for(asked);
    reveal_literals();
    match asked {
        ToolsText::Trust(names) => {
            lemma_after_dashes(names, w);
            assert(read_tools(w, 0) == Ok::<ToolsText, ErrorText>(asked));
        },
        ToolsText::Untrust(names) => {
            lemma_after_dashes(names, w);
            assert(read_tools(w, 0) == Ok::<ToolsText, ErrorText>(asked));
        },
        ToolsText::ResetSingle(name) => {
            let names = seq![name];
            lemma_after_dashes(names, w);
            assert(read_tools(w, 0) == Ok::<ToolsText, ErrorText>(asked));
        },
        ToolsText::Schema => {
            reveal_with_fuel(read_names, 2);
            assert(read_tools(w, 0) == Ok::<ToolsText, ErrorText>(asked));
        },
        ToolsText::TrustAll => {
            reveal_with_fuel(read_names, 2);
            assert(read_tools(w, 0) == Ok::<ToolsText, ErrorText>(asked));
        },
        ToolsText::Reset => {
            reveal_with_fuel(read_names, 2);
            assert(read_tools(w, 0) == Ok::<ToolsText, ErrorText>(asked));
        },
        ToolsText::Allow { command, description, global } => {
            let start = no_options();
            let a: int = if global {
                3
            } else {
                2
            };
            let b: int = if description is Some {
                a + 1
            } else {
                a
            };
            let first = OptionsText { global, ..start };
            let second = OptionsText { description, ..first };
            assert(first == start || global);
            if global {
                assert(w[2] == "--global"@);
                assert(after_word(start, w[2], true) == Ok::<OptionsText, ErrorText>(first));
            } else {
                assert(first == start);
            }
            if description is Some {
                let d = description->0;
                let word = "--description="@ + d;
                assert(w[a] == word);
                assert(word.skip("--description="@.len() as int) =~= d);
                assert(word.subrange(0, "--description="@.len() as int) =~= "--description="@);
                assert(word[2] == 'd');
                assert(after_word(first, word, true) == Ok::<OptionsText, ErrorText>(second));
            } else {
                assert(second == first);
            }
            assert(command.take(0) =~= seq![]);
            lemma_commands(second, command, w, b, 0, true);
            assert(second.command =~= command.take(0));
            assert(read_tools(w, 0) == Ok::<ToolsText, ErrorText>(asked));
        },
        ToolsText::Remove { command, global, all } => {
            let start = no_options();
            let a: int = if global {
                3
            } else {
                2
            };
            let b: int = if all {
                a + 1
            } else {
                a
            };
            let first = OptionsText { global, ..start };
            let second = OptionsText { all, ..first };
            if global {
                assert(w[2] == "--global"@);
                assert(after_word(start, w[2], false) == Ok::<OptionsText, ErrorText>(first));
            } else {
                assert(first == start);
            }
            if all {
                assert(w[a] == "--all"@);
                assert(after_word(first, w[a], false) == Ok::<OptionsText, ErrorText>(second));
            } else {
                assert(second == first);
            }
            assert(command.take(0) =~= seq![]);
            lemma_commands(second, command, w, b, 0, false);
            assert(second.command =~= command.take(0));
            assert(read_tools(w, 0) == Ok::<ToolsText, ErrorText>(asked));
        },
    }
}

/// The characters of the words that mean something.
proof fn reveal_literals()
    ensures
        "--"@ == seq!['-', '-'],
        "--command"@ == seq!['-', '-', 'c', 'o', 'm', 'm', 'a', 'n', 'd'],
        "--command="@ == seq!['-', '-', 'c', 'o', 'm', 'm', 'a', 'n', 'd', '='],
        "--global"@ == seq!['-', '-', 'g', 'l', 'o', 'b', 'a', 'l'],
        "-g"@ == seq!['-', 'g'],
        "--all"@ == seq!['-', '-', 'a', 'l', 'l'],
        "--description"@.len() == 13,
        "--description"@[2] == 'd',
        "--description="@.len() == 14,
        "--description="@[0] == '-',
        "--description="@[2] == 'd',
        "schema"@.len() == 6,
        "schema"@[0] == 's',
        "trust"@.len() == 5,
        "untrust"@.len() == 7,
        "untrust"@[0] == 'u',
        "trust-all"@.len() == 9,
        "trust-all"@[0] == 't',
        "reset"@.len() == 5,
        "reset"@[0] == 'r',
        "trust"@[0] == 't',
        "reset-single"@.len() == 12,
        "reset-single"@[0] == 'r',
        "allow"@.len() == 5,
        "allow"@[0] == 'a',
        "remove"@.len() == 6,
        "remove"@[0] == 'r',
{
    reveal_strlit("--");
    reveal_strlit("--command");
    reveal_strlit("--command=");
    reveal_strlit("--global");
    reveal_strlit("-g");
    reveal_strlit("--all");
    reveal_strlit("--description");
    reveal_strlit("--description=");
    reveal_strlit("schema");
    reveal_strlit("trust");
    reveal_strlit("untrust");
    reveal_strlit("trust-all");
    reveal_strlit("reset");
    reveal_strlit("reset-single");
    reveal_strlit("allow");
    reveal_strlit("remove");
}

/// Names that follow the subcommand and `--` are read as they are.
proof fn lemma_after_dashes(names: Seq<Seq<char>>, words: Seq<Seq<char>>)
    requires
        words.len() == 2 + names.len(),
        words[1] == "--"@,
        forall|i: int| 0 <= i < names.len() ==> words[2 + i] == #[trigger] names[i],
    ensures
        read_names(seq![], words, 1, false) == Ok::<Seq<Seq<char>>, ErrorText>(names),
{
    reveal_strlit("--");
    lemma_names(names, words, 2, 0);
    assert(names.take(0) =~= seq![]);
    assert(read_names(seq![], words, 1, false) == read_names(seq![], words, 2, true));
}

/// Names that follow `--` are read as they are.
proof fn lemma_names(names: Seq<Seq<char>>, words: Seq<Seq<char>>, from: int, k: int)
    requires
        0 <= k <= names.len(),
        from >= 0,
        words.len() == from + names.len(),
        forall|i: int| 0 <= i < names.len() ==> words[from + i] == #[trigger] names[i],
    ensures
        read_names(names.take(k), words, from + k, true) == Ok::<Seq<Seq<char>>, ErrorText>(names),
    decreases names.len() - k,
{
    if k < names.len() {
        lemma_names(names, words, from, k + 1);
        assert(words[from + k] == names[k]);
        assert(names.take(k).push(names[k]) =~= names.take(k + 1));
    } else {
        assert(names.take(k) =~= names);
    }
}

/// Patterns that stand behind `--command=` are read as they are.
proof fn lemma_commands(
    state: OptionsText,
    command: Seq<Seq<char>>,
    words: Seq<Seq<char>>,
    from: int,
    k: int,
    allow: bool,
)
    requires
        0 <= k <= command.len(),
        from >= 0,
        words.len() == from + command.len(),
        forall|i: int|
            0 <= i < command.len() ==> words[from + i] == "--command="@ + #[trigger] command[i],
        state.command == command.take(k),
        !state.ended,
        !state.wants_description,
        !state.wants_command,
        !state.taking,
    ensures
        read_options(state, words, from + k, allow) == options_end(
            (OptionsText { command, ..state }),
            allow,
        ),
    decreases command.len() - k,
{
    if k < command.len() {
        let word = "--command="@ + command[k];
        assert(words[from + k] == word);
        let next = OptionsText { command: command.take(k + 1), ..state };
        reveal_strlit("--command=");
        reveal_strlit("--command");
        reveal_strlit("--");
        assert(word.subrange(0, "--command="@.len() as int) =~= "--command="@);
        assert(word.skip("--command="@.len() as int) =~= command[k]);
        assert(command.take(k).push(command[k]) =~= command.take(k + 1));
        assert(after_word(state, word, allow) == Ok::<OptionsText, ErrorText>(next));
        lemma_commands(next, command, words, from, k + 1, allow);
    } else {
        assert(command.take(k) =~= command);
    }
}

} // verus!
