//! Which shell commands run without asking: the rules word by word.

use vstd::prelude::*;

use crate::dangerous_patterns::{
    dangerous_match, destructive_command_patterns, first_contained, io_redirection_patterns,
    is_dangerous, lemma_first_contained, shell_control_patterns, DangerousPatternType,
};
use crate::execute::{
    acceptance_needed, is_readonly_pipeline, is_unsafe_word, readonly_commands, stage_start,
};
use crate::text::{contains_text, occurs_at};

verus! {

/// Whether a command of a pipeline begins with the word at `s`.
pub open spec fn begins_command(args: Seq<Seq<char>>, s: int) -> bool {
    0 <= s < args.len() && args[s] != "|"@ && (s == 0 || args[s - 1] == "|"@)
}

/// Whether the words at `s` and `i` belong to the same command of a pipeline.
pub open spec fn same_command(args: Seq<Seq<char>>, s: int, i: int) -> bool {
    0 <= s <= i < args.len() && forall|j: int| s <= j <= i ==> #[trigger] args[j] != "|"@
}

proof fn lemma_stage(args: Seq<Seq<char>>, s: int, i: int)
    requires
        begins_command(args, s),
        same_command(args, s, i),
    ensures
        stage_start(args, i) == s,
    decreases i - s,
{
    if s < i {
        assert(args[i - 1] != "|"@);
        lemma_stage(args, s, i - 1);
    }
}

proof fn lemma_stage_found(args: Seq<Seq<char>>, i: int)
    requires
        0 <= i < args.len(),
        args[i] != "|"@,
    ensures
        begins_command(args, stage_start(args, i)),
        same_command(args, stage_start(args, i), i),
    decreases i,
{
    if !(i <= 0 || args[i - 1] == "|"@) {
        lemma_stage_found(args, i - 1);
    }
}

/// A `find` one of whose words holds `-exec` or `-delete` needs acceptance, wherever it stands in a
/// pipeline, unless it is trusted.
pub proof fn law_changing_find_asks(args: Seq<Seq<char>>, command: Seq<char>, s: int, i: int)
    requires
        begins_command(args, s),
        same_command(args, s, i),
        args[s] == "find"@,
        contains_text(args[i], "-exec"@) || contains_text(args[i], "-delete"@),
    ensures
        acceptance_needed(Some(args), command, false),
{
    lemma_stage(args, s, i);
    assert(args[i] != "|"@);
    assert(is_unsafe_word(args, i));
}

/// A pipeline needs acceptance, unless it is trusted, where one of its commands is none of those
/// that only read.
pub proof fn law_other_commands_ask(args: Seq<Seq<char>>, command: Seq<char>, s: int)
    requires
        begins_command(args, s),
        args[s] != "ls"@,
        args[s] != "cat"@,
        args[s] != "echo"@,
        args[s] != "pwd"@,
        args[s] != "which"@,
        args[s] != "head"@,
        args[s] != "tail"@,
        args[s] != "find"@,
        args[s] != "grep"@,
        args[s] != "dir"@,
        args[s] != "type"@,
    ensures
        acceptance_needed(Some(args), command, false),
{
    lemma_stage(args, s, s);
    assert(!readonly_commands().contains(args[s]));
    assert(is_unsafe_word(args, s));
}

/// A word that holds a pipe next to something else makes acceptance necessary, unless the command
/// is trusted.
pub proof fn law_hidden_pipe_asks(args: Seq<Seq<char>>, command: Seq<char>, i: int)
    requires
        0 <= i < args.len(),
        args[i] != "|"@,
        contains_text(args[i], "|"@),
    ensures
        acceptance_needed(Some(args), command, false),
{
    assert(is_unsafe_word(args, i));
}

/// A command that cannot be taken apart needs acceptance, even a trusted one.
pub proof fn law_unreadable_asks(command: Seq<char>, trusted: bool)
    ensures
        acceptance_needed(None, command, trusted),
{
}

/// A pipeline runs without acceptance where it holds nothing dangerous, each of its commands is one
/// that only reads, no word hides a pipe, and no `find` changes files.
pub proof fn law_reading_pipeline_runs(args: Seq<Seq<char>>, command: Seq<char>, trusted: bool)
    requires
        !is_dangerous(command),
        forall|s: int| #[trigger] begins_command(args, s) ==> {
            ||| args[s] == "ls"@
            ||| args[s] == "cat"@
            ||| args[s] == "echo"@
            ||| args[s] == "pwd"@
            ||| args[s] == "which"@
            ||| args[s] == "head"@
            ||| args[s] == "tail"@
            ||| args[s] == "find"@
            ||| args[s] == "grep"@
            ||| args[s] == "dir"@
            ||| args[s] == "type"@
        },
        forall|i: int|
            0 <= i < args.len() ==> #[trigger] args[i] == "|"@ || !contains_text(args[i], "|"@),
        forall|s: int, i: int|
            begins_command(args, s) && args[s] == "find"@ && #[trigger] same_command(args, s, i) ==> !contains_text(
                args[i],
                "-exec"@,
            ) && !contains_text(args[i], "-delete"@),
    ensures
        !acceptance_needed(Some(args), command, trusted),
{
    assert forall|i: int| 0 <= i < args.len() implies !#[trigger] is_unsafe_word(args, i) by {
        if args[i] != "|"@ {
            lemma_stage_found(args, i);
            let s = stage_start(args, i);
            assert(begins_command(args, s));
            assert(same_command(args, s, i));
            let list = readonly_commands();
            assert(list[0] == "ls"@ && list[1] == "cat"@ && list[2] == "echo"@ && list[3] == "pwd"@
                && list[4] == "which"@ && list[5] == "head"@ && list[6] == "tail"@ && list[7]
                == "find"@ && list[8] == "grep"@ && list[9] == "dir"@ && list[10] == "type"@);
            assert(list.contains(args[s]));
        }
    }
    assert(is_readonly_pipeline(args));
}

/// A trusted command needs acceptance only where it holds something dangerous or cannot be taken
/// apart; and a dangerous one needs it in any case.
pub proof fn law_trust_decides(args: Seq<Seq<char>>, command: Seq<char>)
    ensures
        acceptance_needed(Some(args), command, true) <==> is_dangerous(command),
        is_dangerous(command) ==> acceptance_needed(Some(args), command, false),
{
}

/// Whether a command holds one of the signs by which the shell joins, substitutes or redirects.
pub open spec fn holds_shell_sign(command: Seq<char>) -> bool {
    ||| command.contains('<')
    ||| command.contains('>')
    ||| command.contains('&')
    ||| command.contains('|')
    ||| command.contains(';')
    ||| command.contains('`')
    ||| contains_text(command, "$("@)
}

/// Whether a command holds the words of a command that destroys.
pub open spec fn holds_destruction(command: Seq<char>) -> bool {
    ||| contains_text(command, "rm -rf"@)
    ||| contains_text(command, "sudo rm"@)
    ||| contains_text(command, "format"@)
    ||| contains_text(command, "mkfs"@)
    ||| contains_text(command, "dd if="@)
    ||| contains_text(command, ":(){ :|:& };:"@)
    ||| contains_text(command, "> /dev/"@)
    ||| contains_text(command, "chmod 777"@)
    ||| contains_text(command, "chown root"@)
    ||| contains_text(command, "su -"@)
    ||| contains_text(command, "sudo su"@)
    ||| contains_text(command, "del /"@)
    ||| contains_text(command, "rmdir /s"@)
}

proof fn lemma_one_char(command: Seq<char>, pat: Seq<char>, c: char)
    requires
        pat == seq![c],
    ensures
        contains_text(command, pat) <==> command.contains(c),
{
    if contains_text(command, pat) {
        let i = choose|i: int| occurs_at(command, pat, i);
        assert(command.subrange(i, i + 1)[0] == c);
        assert(command[i] == c);
    }
    if command.contains(c) {
        let i = choose|i: int| 0 <= i < command.len() && command[i] == c;
        assert(command.subrange(i, i + 1) =~= pat);
        assert(occurs_at(command, pat, i));
    }
}

proof fn lemma_holds_char(command: Seq<char>, pat: Seq<char>, k: int)
    requires
        0 <= k < pat.len(),
        contains_text(command, pat),
    ensures
        command.contains(pat[k]),
{
    let i = choose|i: int| occurs_at(command, pat, i);
    assert(command.subrange(i, i + pat.len())[k] == command[i + k]);
}

proof fn lemma_shell_signs(command: Seq<char>)
    ensures
        holds_shell_sign(command) <==> exists|i: int|
            0 <= i < shell_control_patterns().len() && contains_text(
                command,
                #[trigger] shell_control_patterns()[i],
            ),
        (exists|i: int|
            0 <= i < io_redirection_patterns().len() && contains_text(
                command,
                #[trigger] io_redirection_patterns()[i],
            )) ==> holds_shell_sign(command),
{
    let list = shell_control_patterns();
    reveal_strlit("<(");
    reveal_strlit("$(");
    reveal_strlit("`");
    reveal_strlit(">");
    reveal_strlit(">>");
    reveal_strlit("&&");
    reveal_strlit("||");
    reveal_strlit("&");
    reveal_strlit(";");
    reveal_strlit("|");
    reveal_strlit("<");
    reveal_strlit("> /dev/null");
    reveal_strlit("2>&1");
    reveal_strlit("&>");
    assert("`"@ =~= seq!['`']);
    assert(">"@ =~= seq!['>']);
    assert("&"@ =~= seq!['&']);
    assert(";"@ =~= seq![';']);
    assert("|"@ =~= seq!['|']);
    assert("<"@ =~= seq!['<']);
    lemma_one_char(command, "`"@, '`');
    lemma_one_char(command, ">"@, '>');
    lemma_one_char(command, "&"@, '&');
    lemma_one_char(command, ";"@, ';');
    lemma_one_char(command, "|"@, '|');
    lemma_one_char(command, "<"@, '<');
    assert(list[1] == "$("@ && list[2] == "`"@ && list[3] == ">"@ && list[7] == "&"@ && list[8] == ";"@
        && list[9] == "|"@ && list[10] == "<"@);
    if exists|i: int| 0 <= i < list.len() && contains_text(command, #[trigger] list[i]) {
        let i = choose|i: int| 0 <= i < list.len() && contains_text(command, #[trigger] list[i]);
        lemma_holds_char(command, list[i], 0);
    }
    let io = io_redirection_patterns();
    if exists|i: int| 0 <= i < io.len() && contains_text(command, #[trigger] io[i]) {
        let i = choose|i: int| 0 <= i < io.len() && contains_text(command, #[trigger] io[i]);
        if i == 1 {
            lemma_holds_char(command, io[i], 1);
        } else {
            lemma_holds_char(command, io[i], 0);
        }
    }
}

proof fn lemma_destruction(command: Seq<char>)
    ensures
        holds_destruction(command) <==> exists|i: int|
            0 <= i < destructive_command_patterns().len() && contains_text(
                command,
                #[trigger] destructive_command_patterns()[i],
            ),
{
    let list = destructive_command_patterns();
    assert(list[0] == "rm -rf"@ && list[1] == "sudo rm"@ && list[2] == "format"@ && list[3] == "mkfs"@
        && list[4] == "dd if="@ && list[5] == ":(){ :|:& };:"@ && list[6] == "> /dev/"@ && list[7]
        == "chmod 777"@ && list[8] == "chown root"@ && list[9] == "su -"@ && list[10] == "sudo su"@
        && list[11] == "del /"@ && list[12] == "rmdir /s"@);
}

/// A command is dangerous exactly if it holds a sign of the shell or the words of a command that
/// destroys.
pub proof fn law_what_is_dangerous(command: Seq<char>)
    ensures
        is_dangerous(command) <==> holds_shell_sign(command) || holds_destruction(command),
{
    lemma_shell_signs(command);
    lemma_destruction(command);
}

/// What is reported of a dangerous command stands in it; it is called destructive exactly if
/// the command holds the words of one that destroys, and else a sign of the shell.
pub proof fn law_what_is_reported(command: Seq<char>)
    ensures
        match dangerous_match(command) {
            None => !holds_shell_sign(command) && !holds_destruction(command),
            Some(m) => {
                &&& contains_text(command, m.0)
                &&& m.0.len() > 0
                &&& m.1 == if holds_destruction(command) {
                    DangerousPatternType::Destructive
                } else {
                    DangerousPatternType::ShellControl
                }
                &&& holds_destruction(command) ==> holds_destruction(m.0)
                &&& !holds_destruction(command) ==> holds_shell_sign(m.0)
            },
        },
{
    lemma_shell_signs(command);
    lemma_destruction(command);
    lemma_first_contained(destructive_command_patterns(), command, 0);
    lemma_first_contained(shell_control_patterns(), command, 0);
    lemma_first_contained(io_redirection_patterns(), command, 0);
    match first_contained(destructive_command_patterns(), command, 0) {
        Some(p) => {
            lemma_contains_itself(p);
            lemma_destruction(p);
            lemma_pattern_lengths();
        },
        None => match first_contained(shell_control_patterns(), command, 0) {
            Some(p) => {
                lemma_contains_itself(p);
                lemma_shell_signs(p);
                lemma_pattern_lengths();
            },
            None => {},
        },
    }
}

/// Of several patterns of a kind the first in the list is reported, if it stands in the command.
pub proof fn law_first_is_reported(list: Seq<Seq<char>>, command: Seq<char>, i: int)
    requires
        0 <= i <= list.len(),
        forall|j: int| 0 <= j < i ==> !contains_text(command, #[trigger] list[j]),
        i < list.len() ==> contains_text(command, list[i]),
    ensures
        first_contained(list, command, 0) == if i < list.len() {
            Some(list[i])
        } else {
            None
        },
{
    lemma_first_from(list, command, 0, i);
}

proof fn lemma_first_from(list: Seq<Seq<char>>, command: Seq<char>, from: int, i: int)
    requires
        0 <= from <= i <= list.len(),
        forall|j: int| from <= j < i ==> !contains_text(command, #[trigger] list[j]),
        i < list.len() ==> contains_text(command, list[i]),
    ensures
        first_contained(list, command, from) == if i < list.len() {
            Some(list[i])
        } else {
            None
        },
    decreases i - from,
{
    if from < i {
        lemma_first_from(list, command, from + 1, i);
    }
}

proof fn lemma_contains_itself(p: Seq<char>)
    ensures
        contains_text(p, p),
{
    assert(p.subrange(0, p.len() as int) =~= p);
    assert(occurs_at(p, p, 0));
}

proof fn lemma_pattern_lengths()
    ensures
        forall|i: int|
            0 <= i < destructive_command_patterns().len() ==> (
            #[trigger] destructive_command_patterns()[i]).len() > 0,
        forall|i: int|
            0 <= i < shell_control_patterns().len() ==> (#[trigger] shell_control_patterns()[i]).len()
                > 0,
{
    reveal_strlit("<(");
    reveal_strlit("$(");
    reveal_strlit("`");
    reveal_strlit(">");
    reveal_strlit(">>");
    reveal_strlit("&&");
    reveal_strlit("||");
    reveal_strlit("&");
    reveal_strlit(";");
    reveal_strlit("|");
    reveal_strlit("<");
    reveal_strlit("rm -rf");
    reveal_strlit("sudo rm");
    reveal_strlit("format");
    reveal_strlit("mkfs");
    reveal_strlit("dd if=");
    reveal_strlit(":(){ :|:& };:");
    reveal_strlit("> /dev/");
    reveal_strlit("chmod 777");
    reveal_strlit("chown root");
    reveal_strlit("su -");
    reveal_strlit("sudo su");
    reveal_strlit("del /");
    reveal_strlit("rmdir /s");
}

} // verus!
