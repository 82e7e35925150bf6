//! The patterns that make a shell command dangerous, and the search for them.

use vstd::prelude::*;

use crate::text::{contains_text, occurs_at, str_contains};

verus! {

/// Why a pattern is dangerous.
#[derive(Debug, Clone, Copy, PartialEq, Eq, Structural)]
pub enum DangerousPatternType {
    /// It controls how the shell runs commands.
    ShellControl,
    /// It destroys data and is never to be trusted.
    Destructive,
    /// It redirects input or output.
    IoRedirection,
}

/// A dangerous pattern that was found in a command.
#[derive(Debug, Clone, Copy, PartialEq, Eq)]
pub struct DangerousPatternMatch {
    /// The pattern.
    pub pattern: &'static str,
    /// Why it is dangerous.
    pub pattern_type: DangerousPatternType,
}

impl DangerousPatternMatch {
    /// The pattern's text and kind.
    pub open spec fn parts(&self) -> (Seq<char>, DangerousPatternType) {
        (self.pattern@, self.pattern_type)
    }
}

/// Redirections, substitutions and separators of the shell.
pub open spec fn shell_control_patterns() -> Seq<Seq<char>> {
    seq![
        "<("@,
        "$("@,
        "`"@,
        ">"@,
        ">>"@,
        "&&"@,
        "||"@,
        "&"@,
        ";"@,
        "|"@,
        "<"@,
    ]
}

/// Commands that destroy data or take over the machine.
pub open spec fn destructive_command_patterns() -> Seq<Seq<char>> {
    seq![
        "rm -rf"@,
        "sudo rm"@,
        "format"@,
        "mkfs"@,
        "dd if="@,
        ":(){ :|:& };:"@,
        "> /dev/"@,
        "chmod 777"@,
        "chown root"@,
        "su -"@,
        "sudo su"@,
        "del /"@,
        "rmdir /s"@,
    ]
}

/// Redirections of input and output.
pub open spec fn io_redirection_patterns() -> Seq<Seq<char>> {
    seq!["> /dev/null"@, "2>&1"@, "&>"@]
}

/// The texts of a list of literals.
pub open spec fn literals(v: Seq<&'static str>) -> Seq<Seq<char>> {
    Seq::new(v.len(), |i: int| v[i]@)
}

/// The first pattern of the list, from position `from` on, that occurs in the command.
pub open spec fn first_contained(list: Seq<Seq<char>>, command: Seq<char>, from: int) -> Option<Seq<char>>
    decreases list.len() - from,
{
    if from >= list.len() {
        None
    } else if contains_text(command, list[from]) {
        Some(list[from])
    } else {
        first_contained(list, command, from + 1)
    }
}

/// What the search finds: a destructive pattern before a pattern of the shell, and that before
/// a redirection.
pub open spec fn dangerous_match(command: Seq<char>) -> Option<(Seq<char>, DangerousPatternType)> {
    match first_contained(destructive_command_patterns(), command, 0) {
        Some(p) => Some((p, DangerousPatternType::Destructive)),
        None => match first_contained(shell_control_patterns(), command, 0) {
            Some(p) => Some((p, DangerousPatternType::ShellControl)),
            None => match first_contained(io_redirection_patterns(), command, 0) {
                Some(p) => Some((p, DangerousPatternType::IoRedirection)),
                None => None,
            },
        },
    }
}

/// Whether the command holds a dangerous pattern.
pub open spec fn is_dangerous(command: Seq<char>) -> bool {
    ||| exists|i: int|
        0 <= i < destructive_command_patterns().len() && contains_text(
            command,
            #[trigger] destructive_command_patterns()[i],
        )
    ||| exists|i: int|
        0 <= i < shell_control_patterns().len() && contains_text(
            command,
            #[trigger] shell_control_patterns()[i],
        )
    ||| exists|i: int|
        0 <= i < io_redirection_patterns().len() && contains_text(
            command,
            #[trigger] io_redirection_patterns()[i],
        )
}

fn destructive_list() -> (res: Vec<&'static str>)
    ensures
        literals(res@) == destructive_command_patterns(),
{
    let res: Vec<&'static str> = vec![
        "rm -rf",
        "sudo rm",
        "format",
        "mkfs",
        "dd if=",
        ":(){ :|:& };:",
        "> /dev/",
        "chmod 777",
        "chown root",
        "su -",
        "sudo su",
        "del /",
        "rmdir /s",
    ];
    assert(literals(res@) =~= destructive_command_patterns());
    res
}

fn shell_control_list() -> (res: Vec<&'static str>)
    ensures
        literals(res@) == shell_control_patterns(),
{
    let res: Vec<&'static str> = vec!["<(", "$(", "`", ">", ">>", "&&", "||", "&", ";", "|", "<"];
    assert(literals(res@) =~= shell_control_patterns());
    res
}

fn io_redirection_list() -> (res: Vec<&'static str>)
    ensures
        literals(res@) == io_redirection_patterns(),
{
    let res: Vec<&'static str> = vec!["> /dev/null", "2>&1", "&>"];
    assert(literals(res@) =~= io_redirection_patterns());
    res
}

fn find_contained(list: &Vec<&'static str>, command: &str) -> (res: Option<&'static str>)
    ensures
        match res {
            Some(p) => first_contained(literals(list@), command@, 0) == Some(p@),
            None => first_contained(literals(list@), command@, 0) is None,
        },
{
    let mut i: usize = 0;
    while i < list.len()
        invariant
            i <= list@.len(),
            first_contained(literals(list@), command@, 0) == first_contained(
                literals(list@),
                command@,
                i as int,
            ),
        decreases list@.len() - i,
    {
        if str_contains(command, list[i]) {
            return Some(list[i]);
        }
        i += 1;
    }
    None
}

/// The dangerous pattern of a command, if it holds one: destructive patterns come first, then
/// those of the shell, then redirections.
pub fn check_all_dangerous_patterns(command: &str) -> (res: Option<DangerousPatternMatch>)
    ensures
        match res {
            Some(m) => dangerous_match(command@) == Some(m.parts()),
            None => dangerous_match(command@) is None,
        },
        res is Some <==> is_dangerous(command@),
{
    proof {
        law_match_iff_dangerous(command@);
    }
    if let Some(pattern) = find_contained(&destructive_list(), command) {
        return Some(
            DangerousPatternMatch { pattern, pattern_type: DangerousPatternType::Destructive },
        );
    }
    if let Some(pattern) = find_contained(&shell_control_list(), command) {
        return Some(
            DangerousPatternMatch { pattern, pattern_type: DangerousPatternType::ShellControl },
        );
    }
    if let Some(pattern) = find_contained(&io_redirection_list(), command) {
        return Some(
            DangerousPatternMatch { pattern, pattern_type: DangerousPatternType::IoRedirection },
        );
    }
    None
}

/// What `first_contained` finds.
pub proof fn lemma_first_contained(list: Seq<Seq<char>>, command: Seq<char>, from: int)
    requires
        0 <= from <= list.len(),
    ensures
        first_contained(list, command, from) is Some <==> exists|i: int|
            from <= i < list.len() && contains_text(command, #[trigger] list[i]),
        match first_contained(list, command, from) {
            Some(p) => exists|i: int|
                from <= i < list.len() && #[trigger] list[i] == p && contains_text(command, p),
            None => true,
        },
    decreases list.len() - from,
{
    if from < list.len() && !contains_text(command, list[from]) {
        lemma_first_contained(list, command, from + 1);
    }
}

/// The search finds a pattern exactly in the commands that hold one.
pub proof fn law_match_iff_dangerous(command: Seq<char>)
    ensures
        dangerous_match(command) is Some <==> is_dangerous(command),
{
    lemma_first_contained(destructive_command_patterns(), command, 0);
    lemma_first_contained(shell_control_patterns(), command, 0);
    lemma_first_contained(io_redirection_patterns(), command, 0);
}

/// A pattern that occurs in a part of a text occurs in the text.
pub proof fn lemma_contains_transitive(s: Seq<char>, mid: Seq<char>, pat: Seq<char>)
    requires
        contains_text(s, mid),
        contains_text(mid, pat),
    ensures
        contains_text(s, pat),
{
    let i = choose|i: int| occurs_at(s, mid, i);
    let j = choose|j: int| occurs_at(mid, pat, j);
    assert(s.subrange(i + j, i + j + pat.len()) =~= pat) by {
        assert(s.subrange(i, i + mid.len()).subrange(j, j + pat.len()) =~= s.subrange(
            i + j,
            i + j + pat.len(),
        ));
    }
    assert(occurs_at(s, pat, i + j));
}

/// A command that has a dangerous command as a part is dangerous itself, however it was put
/// together.
pub proof fn law_danger_stays(command: Seq<char>, part: Seq<char>)
    requires
        contains_text(command, part),
        is_dangerous(part),
    ensures
        is_dangerous(command),
{
    if exists|i: int|
        0 <= i < destructive_command_patterns().len() && contains_text(
            part,
            #[trigger] destructive_command_patterns()[i],
        ) {
        let i = choose|i: int|
            0 <= i < destructive_command_patterns().len() && contains_text(
                part,
                #[trigger] destructive_command_patterns()[i],
            );
        lemma_contains_transitive(command, part, destructive_command_patterns()[i]);
    } else if exists|i: int|
        0 <= i < shell_control_patterns().len() && contains_text(
            part,
            #[trigger] shell_control_patterns()[i],
        ) {
        let i = choose|i: int|
            0 <= i < shell_control_patterns().len() && contains_text(
                part,
                #[trigger] shell_control_patterns()[i],
            );
        lemma_contains_transitive(command, part, shell_control_patterns()[i]);
    } else {
        let i = choose|i: int|
            0 <= i < io_redirection_patterns().len() && contains_text(
                part,
                #[trigger] io_redirection_patterns()[i],
            );
        lemma_contains_transitive(command, part, io_redirection_patterns()[i]);
    }
}

/// A destructive pattern is reported as such whatever else the command holds.
pub proof fn law_destructive_first(command: Seq<char>, i: int)
    requires
        0 <= i < destructive_command_patterns().len(),
        contains_text(command, destructive_command_patterns()[i]),
    ensures
        dangerous_match(command) matches Some(m) && m.1 == DangerousPatternType::Destructive,
{
    lemma_first_contained(destructive_command_patterns(), command, 0);
}

/// Each redirection holds a pattern of the shell, so the search, which looks for those first,
/// never reports one.
pub proof fn law_redirections_are_shell_control(command: Seq<char>)
    ensures
        dangerous_match(command) matches Some(m) ==> m.1 != DangerousPatternType::IoRedirection,
{
    lemma_first_contained(shell_control_patterns(), command, 0);
    lemma_first_contained(io_redirection_patterns(), command, 0);
    reveal_strlit("> /dev/null");
    reveal_strlit("2>&1");
    reveal_strlit("&>");
    reveal_strlit(">");
    if first_contained(io_redirection_patterns(), command, 0) is Some {
        let i = choose|i: int|
            0 <= i < io_redirection_patterns().len() && contains_text(
                command,
                #[trigger] io_redirection_patterns()[i],
            );
        let pat = io_redirection_patterns()[i];
        let at: int = if i == 0 {
            0
        } else {
            1
        };
        assert(pat.subrange(at, at + 1) =~= ">"@);
        assert(occurs_at(pat, ">"@, at));
        lemma_contains_transitive(command, pat, ">"@);
        assert(shell_control_patterns()[3] == ">"@);
    }
}

} // verus!
