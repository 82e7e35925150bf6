//! The context of a chat: rules that pick files, hooks, and trusted commands, kept for all
//! profiles and for the current one.

use vstd::prelude::*;

use crate::dangerous_patterns::{check_all_dangerous_patterns, dangerous_match, DangerousPatternType};
use crate::hook::{copy_hooks, hook_texts, Hook, HookTexts};
use crate::matcher::{anchored, compile, regex_error};
use crate::name_map::NameMap;
use crate::split::{is_blank, trim};
use crate::text::{cat3, cat4, cat5, copy_list, same_text, texts};
use crate::trusted_commands::{
    anchored_expression, trusted_texts, ProcessedTrustedCommands, TrustedCommand, TrustedCommandsConfig,
    TrustedText,
};

verus! {

/// A file name that is part of the context wherever it exists.
pub const AMAZONQ_FILENAME: &'static str = "AmazonQ.md";

/// What is configured for one profile, or for all of them.
#[derive(Debug)]
pub struct ContextConfig {
    /// Paths and glob patterns of files.
    pub paths: Vec<String>,
    /// Hooks by name.
    pub hooks: NameMap<Hook>,
    /// Trusted commands, if any were ever configured.
    pub trusted_commands: Option<TrustedCommandsConfig>,
}

/// What a configuration holds.
pub struct ConfigText {
    pub paths: Seq<Seq<char>>,
    pub hooks: HookTexts,
    pub trusted: Option<Seq<TrustedText>>,
}

/// The texts of a list of trusted commands that may be absent.
pub open spec fn option_trusted(t: Option<TrustedCommandsConfig>) -> Option<Seq<TrustedText>> {
    match t {
        Some(t) => Some(t@),
        None => None,
    }
}

impl View for ContextConfig {
    type V = ConfigText;

    open spec fn view(&self) -> ConfigText {
        ConfigText {
            paths: texts(self.paths@),
            hooks: hook_texts(self.hooks@),
            trusted: option_trusted(self.trusted_commands),
        }
    }
}

impl ConfigText {
    /// The trusted commands; none if none were ever configured.
    pub open spec fn trusted_list(self) -> Seq<TrustedText> {
        match self.trusted {
            Some(t) => t,
            None => seq![],
        }
    }
}

/// The configuration of a profile that has none.
pub open spec fn empty_config() -> ConfigText {
    ConfigText { paths: seq![], hooks: Map::empty(), trusted: None }
}

impl Default for ContextConfig {
    fn default() -> (res: Self)
        ensures
            res@ == empty_config(),
    {
        let res = ContextConfig { paths: Vec::new(), hooks: NameMap::new(), trusted_commands: None };
        assert(res@.paths =~= empty_config().paths);
        assert(res@.hooks =~= empty_config().hooks);
        res
    }
}

impl Clone for ContextConfig {
    fn clone(&self) -> (res: Self)
        ensures
            res@ == self@,
    {
        ContextConfig {
            paths: copy_list(&self.paths),
            hooks: copy_hooks(&self.hooks),
            trusted_commands: match &self.trusted_commands {
                Some(t) => Some(t.clone()),
                None => None,
            },
        }
    }
}

/// The global configuration where none was saved.
pub open spec fn default_global_config() -> ConfigText {
    ConfigText {
        paths: seq![".amazonq/rules/**/*.md"@, "README.md"@, "AmazonQ.md"@],
        hooks: Map::empty(),
        trusted: None,
    }
}

/// The global configuration where none was saved.
pub fn get_default_global_config() -> (res: ContextConfig)
    ensures
        res@ == default_global_config(),
{
    let mut paths: Vec<String> = Vec::new();
    paths.push(String::from_str(".amazonq/rules/**/*.md"));
    paths.push(String::from_str("README.md"));
    paths.push(String::from_str(AMAZONQ_FILENAME));
    let res = ContextConfig { paths, hooks: NameMap::new(), trusted_commands: None };
    assert(res@.paths =~= default_global_config().paths);
    assert(res@.hooks =~= default_global_config().hooks);
    res
}

/// What the file of a configuration was found to be.
#[derive(Debug)]
pub enum ConfigFile {
    /// There is no such file.
    Missing,
    /// It cannot be read, for this reason.
    Unreadable(String),
    /// It holds no configuration.
    Invalid,
    /// It holds this configuration.
    Loaded(ContextConfig),
}

/// What a configuration file stands for, where `fallback` stands for a missing or invalid one.
pub open spec fn loaded_config(file: ConfigFile, fallback: ConfigText) -> Result<ConfigText, Seq<char>> {
    match file {
        ConfigFile::Missing => Ok(fallback),
        ConfigFile::Unreadable(e) => Err(e@),
        ConfigFile::Invalid => Ok(fallback),
        ConfigFile::Loaded(c) => Ok(c@),
    }
}

/// The texts of a result.
pub open spec fn config_result(r: Result<ContextConfig, String>) -> Result<ConfigText, Seq<char>> {
    match r {
        Ok(c) => Ok(c@),
        Err(e) => Err(e@),
    }
}

/// The global configuration of a file.
pub fn load_global_config(file: ConfigFile) -> (res: Result<ContextConfig, String>)
    ensures
        config_result(res) == loaded_config(file, default_global_config()),
{
    match file {
        ConfigFile::Missing => Ok(get_default_global_config()),
        ConfigFile::Unreadable(e) => Err(e),
        ConfigFile::Invalid => Ok(get_default_global_config()),
        ConfigFile::Loaded(c) => Ok(c),
    }
}

/// The configuration of a profile's file.
pub fn load_profile_config(file: ConfigFile) -> (res: Result<ContextConfig, String>)
    ensures
        config_result(res) == loaded_config(file, empty_config()),
{
    match file {
        ConfigFile::Missing => Ok(ContextConfig::default()),
        ConfigFile::Unreadable(e) => Err(e),
        ConfigFile::Invalid => Ok(ContextConfig::default()),
        ConfigFile::Loaded(c) => Ok(c),
    }
}

/// What hooks left to be used again.
#[derive(Debug)]
pub struct HookExecutor {
    /// Output of hooks of all profiles, by name.
    pub global_cache: NameMap<String>,
    /// Output of hooks of the current profile, by name.
    pub profile_cache: NameMap<String>,
}

/// The manager of the context.
#[derive(Debug)]
pub struct ContextManager {
    /// The most tokens of context files that are sent.
    pub max_context_files_size: usize,
    /// What holds for all profiles.
    pub global_config: ContextConfig,
    /// The name of the current profile.
    pub current_profile: String,
    /// What holds for the current profile.
    pub profile_config: ContextConfig,
    /// The runner of hooks.
    pub hook_executor: HookExecutor,
}

/// What a manager holds.
pub struct ManagerText {
    pub limit: nat,
    pub global: ConfigText,
    pub current: Seq<char>,
    pub profile: ConfigText,
    pub global_cache: Map<Seq<char>, String>,
    pub profile_cache: Map<Seq<char>, String>,
}

impl View for ContextManager {
    type V = ManagerText;

    open spec fn view(&self) -> ManagerText {
        ManagerText {
            limit: self.max_context_files_size as nat,
            global: self.global_config@,
            current: self.current_profile@,
            profile: self.profile_config@,
            global_cache: self.hook_executor.global_cache@,
            profile_cache: self.hook_executor.profile_cache@,
        }
    }
}

impl ManagerText {
    /// The configuration of all profiles, or of the current one.
    pub open spec fn config(self, global: bool) -> ConfigText {
        if global {
            self.global
        } else {
            self.profile
        }
    }

    /// The manager with another configuration.
    pub open spec fn with_config(self, global: bool, config: ConfigText) -> ManagerText {
        if global {
            ManagerText { global: config, ..self }
        } else {
            ManagerText { profile: config, ..self }
        }
    }
}

/// The most tokens of context files where nothing else is asked for.
pub const CONTEXT_FILES_MAX_SIZE: usize = 150_000;

/// The message of a result that is an error.
pub open spec fn failure(r: Result<(), String>) -> Option<Seq<char>> {
    match r {
        Ok(_) => None,
        Err(e) => Some(e@),
    }
}

impl ContextManager {
    /// The manager of the default profile.
    pub fn new(
        max_context_files_size: Option<usize>,
        global_file: ConfigFile,
        profile_file: ConfigFile,
    ) -> (res: Result<Self, String>)
        ensures
            match (
                loaded_config(global_file, default_global_config()),
                loaded_config(profile_file, empty_config()),
            ) {
                (Err(e), _) => res matches Err(x) && x@ == e,
                (Ok(_), Err(e)) => res matches Err(x) && x@ == e,
                (Ok(g), Ok(p)) => res matches Ok(m) && m@ == (ManagerText {
                    limit: match max_context_files_size {
                        Some(n) => n as nat,
                        None => CONTEXT_FILES_MAX_SIZE as nat,
                    },
                    global: g,
                    current: "default"@,
                    profile: p,
                    global_cache: Map::empty(),
                    profile_cache: Map::empty(),
                }),
            },
    {
        let limit: usize = match max_context_files_size {
            Some(n) => n,
            None => CONTEXT_FILES_MAX_SIZE,
        };
        match load_global_config(global_file) {
            Err(e) => Err(e),
            Ok(global_config) => match load_profile_config(profile_file) {
                Err(e) => Err(e),
                Ok(profile_config) => Ok(
                    ContextManager {
                        max_context_files_size: limit,
                        global_config,
                        current_profile: String::from_str("default"),
                        profile_config,
                        hook_executor: HookExecutor {
                            global_cache: NameMap::new(),
                            profile_cache: NameMap::new(),
                        },
                    },
                ),
            },
        }
    }

    /// Takes the configurations from their files again. Where the global file cannot be read
    /// nothing changes; where that of the profile cannot be read only the global one does.
    pub fn reload_config(&mut self, global_file: ConfigFile, profile_file: ConfigFile) -> (res: Result<
        (),
        String,
    >)
        ensures
            match (
                loaded_config(global_file, default_global_config()),
                loaded_config(profile_file, empty_config()),
            ) {
                (Err(e), _) => failure(res) == Some(e) && final(self)@ == old(self)@,
                (Ok(g), Err(e)) => failure(res) == Some(e) && final(self)@ == old(self)@.with_config(true, g),
                (Ok(g), Ok(p)) => res is Ok && final(self)@ == old(self)@.with_config(true, g).with_config(
                    false,
                    p,
                ),
            },
    {
        match load_global_config(global_file) {
            Err(e) => Err(e),
            Ok(global_config) => {
                self.global_config = global_config;
                match load_profile_config(profile_file) {
                    Err(e) => Err(e),
                    Ok(profile_config) => {
                        self.profile_config = profile_config;
                        Ok(())
                    },
                }
            },
        }
    }

    /// Removes all rules.
    pub fn clear(&mut self, global: bool)
        ensures
            final(self)@ == old(self)@.with_config(
                global,
                (ConfigText { paths: seq![], ..old(self)@.config(global) }),
            ),
    {
        if global {
            self.global_config.paths = Vec::new();
            assert(self.global_config@.paths =~= seq![]);
        } else {
            self.profile_config.paths = Vec::new();
            assert(self.profile_config@.paths =~= seq![]);
        }
    }
}

/// Why a dangerous pattern cannot be trusted.
pub open spec fn danger_reason(kind: DangerousPatternType) -> Seq<char> {
    match kind {
        DangerousPatternType::Destructive => "destructive command"@,
        DangerousPatternType::ShellControl => "shell control pattern"@,
        DangerousPatternType::IoRedirection => "I/O redirection pattern"@,
    }
}

/// Why a dangerous pattern cannot be trusted.
pub fn danger_reason_text(kind: DangerousPatternType) -> (res: &'static str)
    ensures
        res@ == danger_reason(kind),
{
    match kind {
        DangerousPatternType::Destructive => "destructive command",
        DangerousPatternType::ShellControl => "shell control pattern",
        DangerousPatternType::IoRedirection => "I/O redirection pattern",
    }
}

/// Why a pattern cannot be trusted, or `None` for one that can be.
pub open spec fn trusted_command_error(command: Seq<char>) -> Option<Seq<char>> {
    if trim(command).len() == 0 {
        Some("Command pattern cannot be empty"@)
    } else {
        match dangerous_match(command) {
            Some(m) => Some(
                "Command pattern '"@ + command + "' contains dangerous pattern '"@ + m.0 + (("' ("@
                    + danger_reason(m.1)) + ") and cannot be trusted"@),
            ),
            None => if regex_error(anchored(command)) is Some {
                Some("Command pattern '"@ + command + "' contains invalid regex syntax"@)
            } else {
                None
            },
        }
    }
}

/// The position of a pattern among trusted commands at or after `from`, or their number.
pub open spec fn find_trusted(list: Seq<TrustedText>, command: Seq<char>, from: int) -> int
    decreases list.len() - from,
{
    if from >= list.len() {
        list.len() as int
    } else if list[from].0 == command {
        from
    } else {
        find_trusted(list, command, from + 1)
    }
}

/// What `find_trusted` finds.
pub proof fn lemma_find_trusted(list: Seq<TrustedText>, command: Seq<char>, from: int)
    requires
        0 <= from <= list.len(),
    ensures
        from <= find_trusted(list, command, from) <= list.len(),
        find_trusted(list, command, from) < list.len() ==> list[find_trusted(list, command, from)].0
            == command,
        forall|i: int|
            from <= i < find_trusted(list, command, from) ==> (#[trigger] list[i]).0 != command,
    decreases list.len() - from,
{
    if from < list.len() && list[from].0 != command {
        lemma_find_trusted(list, command, from + 1);
    }
}

/// Whether the pattern is among the trusted commands.
pub open spec fn has_trusted(list: Seq<TrustedText>, command: Seq<char>) -> bool {
    find_trusted(list, command, 0) < list.len()
}

/// The trusted commands with one more, or with the description of the one that has the same
/// pattern.
pub open spec fn with_trusted(list: Seq<TrustedText>, one: TrustedText) -> Seq<TrustedText> {
    if has_trusted(list, one.0) {
        list.update(find_trusted(list, one.0, 0), one)
    } else {
        list.push(one)
    }
}

/// The trusted commands with another pattern.
pub open spec fn other_pattern(command: Seq<char>) -> spec_fn(TrustedText) -> bool {
    |t: TrustedText| t.0 != command
}

/// The trusted commands without a pattern.
pub open spec fn without_trusted(list: Seq<TrustedText>, command: Seq<char>) -> Seq<TrustedText> {
    list.filter(other_pattern(command))
}

/// The first `n` of further trusted commands added to `list`, each unless its pattern is there.
pub open spec fn add_missing(list: Seq<TrustedText>, more: Seq<TrustedText>, n: int) -> Seq<TrustedText>
    decreases n,
{
    if n <= 0 {
        list
    } else {
        let sum = add_missing(list, more, n - 1);
        if has_trusted(sum, more[n - 1].0) {
            sum
        } else {
            sum.push(more[n - 1])
        }
    }
}

/// The trusted commands of all profiles, then those of the current one with other patterns.
pub open spec fn combined_trusted(global: Seq<TrustedText>, profile: Seq<TrustedText>) -> Seq<TrustedText> {
    add_missing(global, profile, profile.len() as int)
}

/// How a trusted command changed a configuration.
#[derive(Debug, Clone, Copy, PartialEq, Eq, Structural)]
pub enum TrustedChange {
    /// The pattern was there, and has the new description.
    Updated,
    /// The pattern is new.
    Added,
}

fn position_of_trusted(list: &Vec<TrustedCommand>, command: &str) -> (res: usize)
    ensures
        res == find_trusted(trusted_texts(list@), command@, 0),
        res <= list@.len(),
{
    let mut i: usize = 0;
    while i < list.len()
        invariant
            i <= list@.len(),
            find_trusted(trusted_texts(list@), command@, 0) == find_trusted(
                trusted_texts(list@),
                command@,
                i as int,
            ),
        decreases list@.len() - i,
    {
        if same_text(list[i].command.as_str(), command) {
            return i;
        }
        i += 1;
    }
    i
}

impl ContextConfig {
    fn add_trusted(&mut self, one: TrustedCommand) -> (res: TrustedChange)
        ensures
            final(self)@ == (ConfigText {
                trusted: Some(with_trusted(old(self)@.trusted_list(), one@)),
                ..old(self)@
            }),
            res == if has_trusted(old(self)@.trusted_list(), one@.0) {
                TrustedChange::Updated
            } else {
                TrustedChange::Added
            },
    {
        let ghost list = old(self)@.trusted_list();
        let ghost text = one@;
        let mut config: TrustedCommandsConfig = TrustedCommandsConfig::default();
        if let Some(t) = &self.trusted_commands {
            config = t.clone();
        }
        assert(config@ == list);
        let i: usize = position_of_trusted(&config.trusted_commands, one.command.as_str());
        if i < config.trusted_commands.len() {
            config.trusted_commands.set(i, one);
            assert(config@ =~= list.update(i as int, text));
            self.trusted_commands = Some(config);
            TrustedChange::Updated
        } else {
            config.trusted_commands.push(one);
            assert(config@ =~= list.push(text));
            self.trusted_commands = Some(config);
            TrustedChange::Added
        }
    }

    fn remove_trusted(&mut self, command: &str) -> (res: Result<(), String>)
        ensures
            match old(self)@.trusted {
                None => failure(res) == Some("No trusted commands configuration found"@) && final(self)@
                    == old(self)@,
                Some(list) => if has_trusted(list, command@) {
                    res is Ok && final(self)@ == (ConfigText {
                        trusted: Some(without_trusted(list, command@)),
                        ..old(self)@
                    })
                } else {
                    failure(res) == Some("Trusted command pattern '"@ + command@ + "' not found"@) && final(self)@ == old(self)@
                },
            },
    {
        match &self.trusted_commands {
            None => Err(String::from_str("No trusted commands configuration found")),
            Some(t) => {
                let i: usize = position_of_trusted(&t.trusted_commands, command);
                if i >= t.trusted_commands.len() {
                    return Err(cat3("Trusted command pattern '", command, "' not found"));
                }
                let ghost list = t@;
                let ghost p = other_pattern(command@);
                let mut kept: Vec<TrustedCommand> = Vec::new();
                let mut j: usize = 0;
                proof {
                    reveal(Seq::filter);
                    assert(trusted_texts(kept@) =~= list.take(0).filter(p));
                }
                while j < t.trusted_commands.len()
                    invariant
                        j <= t.trusted_commands@.len(),
                        list == t@,
                        p == other_pattern(command@),
                        trusted_texts(kept@) == list.take(j as int).filter(p),
                    decreases t.trusted_commands@.len() - j,
                {
                    let one = t.trusted_commands[j].clone();
                    proof {
                        reveal(Seq::filter);
                        assert(list.take(j as int + 1).drop_last() =~= list.take(j as int));
                        assert(list.take(j as int + 1).last() == one@);
                    }
                    if !same_text(one.command.as_str(), command) {
                        let ghost before = kept@;
                        let ghost text = one@;
                        kept.push(one);
                        assert(trusted_texts(kept@) =~= trusted_texts(before).push(text));
                    }
                    j += 1;
                }
                assert(list.take(j as int) =~= list);
                self.trusted_commands = Some(TrustedCommandsConfig { trusted_commands: kept });
                Ok(())
            },
        }
    }
}

impl ContextManager {
    /// Whether a pattern can be trusted, and why not.
    pub fn validate_trusted_command(&self, trusted_command: &TrustedCommand) -> (res: Result<(), String>)
        ensures
            failure(res) == trusted_command_error(trusted_command.command@),
    {
        let command: &str = trusted_command.command.as_str();
        if is_blank(command) {
            return Err(String::from_str("Command pattern cannot be empty"));
        }
        if let Some(m) = check_all_dangerous_patterns(command) {
            let reason = cat3("' (", danger_reason_text(m.pattern_type), ") and cannot be trusted");
            return Err(
                cat5(
                    "Command pattern '",
                    command,
                    "' contains dangerous pattern '",
                    m.pattern,
                    reason.as_str(),
                ),
            );
        }
        let expression = anchored_expression(command);
        match compile(expression.as_str()) {
            Ok(_) => Ok(()),
            Err(_) => Err(cat3("Command pattern '", command, "' contains invalid regex syntax")),
        }
    }

    /// Trusts a pattern. The change is to be saved; a pattern that cannot be trusted changes
    /// nothing.
    pub fn add_trusted_command(&mut self, trusted_command: TrustedCommand, global: bool) -> (res: Result<
        TrustedChange,
        String,
    >)
        ensures
            match trusted_command_error(trusted_command.command@) {
                Some(e) => res matches Err(x) && x@ == e && final(self)@ == old(self)@,
                None => {
                    let list = old(self)@.config(global).trusted_list();
                    &&& res == Ok::<TrustedChange, String>(
                        if has_trusted(list, trusted_command.command@) {
                            TrustedChange::Updated
                        } else {
                            TrustedChange::Added
                        },
                    )
                    &&& final(self)@ == old(self)@.with_config(
                        global,
                        (ConfigText {
                            trusted: Some(with_trusted(list, trusted_command@)),
                            ..old(self)@.config(global)
                        }),
                    )
                },
            },
    {
        match self.validate_trusted_command(&trusted_command) {
            Err(e) => Err(e),
            Ok(_) => {
                if global {
                    Ok(self.global_config.add_trusted(trusted_command))
                } else {
                    Ok(self.profile_config.add_trusted(trusted_command))
                }
            },
        }
    }

    /// The trusted commands of all profiles, or of the current one.
    pub fn get_trusted_commands(&self, global: bool) -> (res: TrustedCommandsConfig)
        ensures
            res@ == self@.config(global).trusted_list(),
    {
        let found = if global {
            &self.global_config.trusted_commands
        } else {
            &self.profile_config.trusted_commands
        };
        match found {
            Some(t) => t.clone(),
            None => TrustedCommandsConfig::default(),
        }
    }

    /// The trusted commands of all profiles, then those of the current one with other patterns.
    pub fn get_combined_trusted_commands(&self) -> (res: TrustedCommandsConfig)
        ensures
            res@ == combined_trusted(self@.global.trusted_list(), self@.profile.trusted_list()),
    {
        let mut combined = self.get_trusted_commands(true);
        let ghost global = combined@;
        let more = self.get_trusted_commands(false);
        let mut i: usize = 0;
        while i < more.trusted_commands.len()
            invariant
                i <= more.trusted_commands@.len(),
                combined@ == add_missing(global, more@, i as int),
            decreases more.trusted_commands@.len() - i,
        {
            let one = more.trusted_commands[i].clone();
            let ghost text = one@;
            assert(more@[i as int] == text);
            let at: usize = position_of_trusted(&combined.trusted_commands, one.command.as_str());
            if at >= combined.trusted_commands.len() {
                let ghost before = combined@;
                combined.trusted_commands.push(one);
                assert(combined@ =~= before.push(text));
            }
            i += 1;
        }
        combined
    }

    /// The trusted commands that hold for the current profile, ready to be matched.
    pub fn get_processed_trusted_commands(&self) -> (res: ProcessedTrustedCommands)
        ensures
            res@ == combined_trusted(self@.global.trusted_list(), self@.profile.trusted_list()),
    {
        ProcessedTrustedCommands::new(self.get_combined_trusted_commands())
    }

    /// Takes a pattern out of the trusted commands. The change is to be saved; where the pattern
    /// is not there nothing changes.
    pub fn remove_trusted_command(&mut self, command_pattern: &str, global: bool) -> (res: Result<(), String>)
        ensures
            match old(self)@.config(global).trusted {
                None => failure(res) == Some("No trusted commands configuration found"@) && final(self)@
                    == old(self)@,
                Some(list) => if has_trusted(list, command_pattern@) {
                    res is Ok && final(self)@ == old(self)@.with_config(
                        global,
                        (ConfigText {
                            trusted: Some(without_trusted(list, command_pattern@)),
                            ..old(self)@.config(global)
                        }),
                    )
                } else {
                    failure(res) == Some("Trusted command pattern '"@ + command_pattern@ + "' not found"@)
                        && final(self)@ == old(self)@
                },
            },
    {
        if global {
            self.global_config.remove_trusted(command_pattern)
        } else {
            self.profile_config.remove_trusted(command_pattern)
        }
    }

    /// Takes all patterns out of the trusted commands. The change is to be saved.
    pub fn clear_trusted_commands(&mut self, global: bool)
        ensures
            final(self)@ == old(self)@.with_config(
                global,
                (ConfigText { trusted: Some(seq![]), ..old(self)@.config(global) }),
            ),
    {
        if global {
            self.global_config.trusted_commands = Some(TrustedCommandsConfig::default());
        } else {
            self.profile_config.trusted_commands = Some(TrustedCommandsConfig::default());
        }
    }
}

/// What is said where a change of trusted commands could not be saved.
pub open spec fn save_failure(change: TrustedChange, command: Seq<char>, error: Seq<char>) -> Seq<char> {
    match change {
        TrustedChange::Updated => "Failed to update trusted command '"@ + command + "': "@ + error,
        TrustedChange::Added => "Failed to save trusted command '"@ + command + "': "@ + error,
    }
}

/// What is said where a change of trusted commands could not be saved.
pub fn save_failure_text(change: TrustedChange, command: &str, error: &str) -> (res: String)
    ensures
        res@ == save_failure(change, command@, error@),
{
    match change {
        TrustedChange::Updated => cat4("Failed to update trusted command '", command, "': ", error),
        TrustedChange::Added => cat4("Failed to save trusted command '", command, "': ", error),
    }
}

} // verus!
