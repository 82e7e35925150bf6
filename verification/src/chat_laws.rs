//! Proposals, models, scripts, and agents that work in parallel.

use vstd::prelude::*;

use crate::complete::{
    chosen_completions, completion_lines, display_report, first_item, full_items, item_patterns,
    proposal_lines, selected, selection_report,
};
use crate::config_laws::lemma_blank;
use crate::fs::{appended, disk_path, without_prefixes, without_slashes, Fs};
use crate::launch_agent::{
    complaint_of, complaints, full_prompt, launch_args, launch_report, output_of, outputs, preview,
    progress_line, task_report, task_reports, AgentResult, SubAgentText, SUBAGENT_PROMPT,
};
use crate::model::{model_ids, model_labels, model_report};
use crate::number::{byte_len, decimal};
use crate::report::{Ink, SpanText};
use crate::script::{after_comments, script_body};
use crate::session::pattern_options;
use crate::split::{is_white, join, lines, replace_all, split_char, trim, words};
use crate::text::{repeated, starts_with_text};
use crate::text_laws::{law_numbers_are_read_back, law_trim};
use crate::truncate::{law_truncated_fits, truncated};

verus! {

/// The first thing that an expression took is the item, without the blanks round it.
pub proof fn law_first_item(captures: Seq<Option<Seq<char>>>, i: int, t: Seq<char>)
    requires
        0 <= i < captures.len(),
        forall|j: int| 0 <= j < i ==> #[trigger] captures[j] is None,
        captures[i] == Some(t),
    ensures
        first_item(captures, 0) == Some(trim(t)),
{
    lemma_first_item(captures, 0, i, t);
}

proof fn lemma_first_item(captures: Seq<Option<Seq<char>>>, from: int, i: int, t: Seq<char>)
    requires
        0 <= from <= i < captures.len(),
        forall|j: int| from <= j < i ==> #[trigger] captures[j] is None,
        captures[i] == Some(t),
    ensures
        first_item(captures, from) == Some(trim(t)),
    decreases i - from,
{
    if from < i {
        assert(captures[from] is None);
        lemma_first_item(captures, from + 1, i, t);
    }
}

/// Where no expression took anything there is no item. An item begins with a number and a dot, with a
/// number and a bracket, or with a bullet.
pub proof fn law_no_item(captures: Seq<Option<Seq<char>>>, from: int)
    requires
        0 <= from,
        forall|j: int| from <= j < captures.len() ==> #[trigger] captures[j] is None,
    ensures
        first_item(captures, from) is None,
        item_patterns() == seq!["^\\d+\\.\\s*(.+)$"@, "^\\d+\\)\\s*(.+)$"@, "^[•\\-\\*]\\s*(.+)$"@],
    decreases captures.len() - from,
{
    if from < captures.len() {
        assert(captures[from] is None);
        law_no_item(captures, from + 1);
    }
}

/// The items of an answer that are not empty are the proposals, in order.
pub proof fn law_items_are_proposals(items: Seq<Option<Seq<char>>>, one: Option<Seq<char>>, text: Seq<char>)
    ensures
        full_items(seq![], 0).len() == 0,
        full_items(items.push(one), items.len() as int + 1) == match one {
            Some(t) => if t.len() > 0 {
                full_items(items, items.len() as int).push(t)
            } else {
                full_items(items, items.len() as int)
            },
            None => full_items(items, items.len() as int),
        },
        full_items(items, items.len() as int).len() > 0 ==> chosen_completions(items, text) == full_items(
            items,
            items.len() as int,
        ),
        full_items(items, items.len() as int).len() == 0 ==> chosen_completions(items, text)
            == proposal_lines(split_char(text, '\n'), split_char(text, '\n').len() as int),
{
    lemma_items_prefix(items, one, items.len() as int);
}

proof fn lemma_items_prefix(items: Seq<Option<Seq<char>>>, one: Option<Seq<char>>, n: int)
    requires
        0 <= n <= items.len(),
    ensures
        full_items(items.push(one), n) == full_items(items, n),
    decreases n,
{
    if n > 0 {
        lemma_items_prefix(items, one, n - 1);
    }
}

/// A line stands for a proposal, without the blanks round it, where it is not blank, begins neither
/// with a bracket nor with `SYSTEM`, and fewer than five were found before it.
pub proof fn law_lines_are_proposals(all: Seq<Seq<char>>, line: Seq<char>)
    ensures
        ({
            let was = proposal_lines(all, all.len() as int);
            let t = trim(line);
            let good = t.len() > 0 && t[0] != '[' && !(t.len() >= 6 && t.take(6) == "SYSTEM"@);
            proposal_lines(all.push(line), all.len() as int + 1) == if was.len() < 5 && good {
                was.push(t)
            } else {
                was
            }
        }),
        proposal_lines(seq![], 0).len() == 0,
{
    reveal_strlit("[");
    reveal_strlit("SYSTEM");
    lemma_proposals_prefix(all, line, all.len() as int);
    let t = trim(line);
    if t.len() > 0 {
        assert(starts_with_text(t, "["@) <==> t[0] == '[') by {
            if t[0] == '[' {
                assert(t.subrange(0, 1) =~= "["@);
            } else if starts_with_text(t, "["@) {
                assert(t.subrange(0, 1)[0] == '[');
            }
        }
    }
    if t.len() >= 6 {
        assert(t.subrange(0, 6) =~= t.take(6));
    }
}

proof fn lemma_proposals_prefix(all: Seq<Seq<char>>, line: Seq<char>, n: int)
    requires
        0 <= n <= all.len(),
    ensures
        proposal_lines(all.push(line), n) == proposal_lines(all, n),
    decreases n,
{
    if n > 0 {
        lemma_proposals_prefix(all, line, n - 1);
    }
}

/// The proposals are shown with their numbers, from one on.
pub proof fn law_proposals_are_numbered(list: Seq<Seq<char>>, one: Seq<char>)
    ensures
        completion_lines(seq![], 0).len() == 0,
        completion_lines(list.push(one), list.len() as int + 1) == completion_lines(list, list.len() as int)
            + seq![
            (Ink::Green, false, "  "@ + decimal(list.len() + 1) + ". "@),
            (Ink::Plain, false, one + "\n"@),
        ],
        display_report(list) == seq![(Ink::Cyan, false, "Generated completions:\n\n"@)] + completion_lines(
            list,
            list.len() as int,
        ) + seq![(Ink::Plain, false, "\n"@)],
        selection_report(list) == seq![(Ink::Cyan, false, "Select a completion to send:\n\n"@)]
            + completion_lines(list, list.len() as int) + seq![
            (
                Ink::Plain,
                false,
                "\nEnter selection (1-"@ + decimal(list.len()) + "), or press Enter to cancel: "@,
            ),
        ],
{
    lemma_completion_prefix(list, one, list.len() as int);
}

proof fn lemma_completion_prefix(list: Seq<Seq<char>>, one: Seq<char>, n: int)
    requires
        0 <= n <= list.len(),
    ensures
        completion_lines(list.push(one), n) == completion_lines(list, n),
    decreases n,
{
    if n > 0 {
        lemma_completion_prefix(list, one, n - 1);
    }
}

/// The number of a proposal chooses it; a number that none has chooses nothing, and no input
/// cancels.
pub proof fn law_choice_by_number(list: Seq<Seq<char>>, n: nat)
    ensures
        1 <= n <= list.len() ==> selected(Some(decimal(n)), list) == Ok::<Seq<char>, Seq<SpanText>>(
            list[n - 1],
        ),
        n == 0 || n > list.len() ==> selected(Some(decimal(n)), list) == Err::<Seq<char>, Seq<SpanText>>(
            seq![(Ink::Red, false, "Invalid selection.\n"@)],
        ),
        selected(None, list) == Err::<Seq<char>, Seq<SpanText>>(
            seq![(Ink::Plain, false, "Completion cancelled.\n"@)],
        ),
        selected(Some(seq![]), list) == Err::<Seq<char>, Seq<SpanText>>(
            seq![(Ink::Plain, false, "Completion cancelled.\n"@)],
        ),
{
    law_numbers_are_read_back(n);
    lemma_decimal_solid(n);
    let d = decimal(n);
    law_trim(seq![], d, seq![]);
    assert(Seq::<char>::empty() + d + Seq::<char>::empty() =~= d);
    law_trim(seq![], seq![], seq![]);
    assert(Seq::<char>::empty() + Seq::<char>::empty() + Seq::<char>::empty() =~= Seq::<char>::empty());
}

proof fn lemma_decimal_solid(n: nat)
    ensures
        decimal(n).len() > 0,
        !is_white(decimal(n)[0]),
        !is_white(decimal(n).last()),
    decreases n,
{
    if n >= 10 {
        lemma_decimal_solid(n / 10);
        assert(decimal(n)[0] == decimal(n / 10)[0]);
        assert(decimal(n).last() == crate::number::digit(n % 10));
    }
}

/// A task is shown whole where it takes sixty bytes at most; else by its longest beginning of no more
/// than 57 bytes and three dots.
pub proof fn law_preview(prompt: Seq<char>)
    ensures
        byte_len(prompt) <= 60 ==> preview(prompt) == prompt,
        byte_len(prompt) > 60 ==> preview(prompt) == truncated(prompt, 57) + "..."@,
        byte_len(truncated(prompt, 57)) <= 57,
        truncated(prompt, 57).is_prefix_of(prompt),
{
    law_truncated_fits(prompt, 57);
}

/// Tasks are announced one after the other: by name, by the model of the task or else the usual one,
/// and by the beginning of the task.
pub proof fn law_tasks_are_announced(tasks: Seq<SubAgentText>, task: SubAgentText, usual: Seq<char>)
    ensures
        task_reports(seq![], usual, 0).len() == 0,
        task_reports(tasks.push(task), usual, tasks.len() as int + 1) == task_reports(
            tasks,
            usual,
            tasks.len() as int,
        ) + seq![
            (Ink::Blue, false, "  • "@),
            (Ink::White, true, task.name),
            (
                Ink::DarkGrey,
                false,
                " ("@ + (match task.model {
                    Some(m) => m,
                    None => usual,
                }) + ")\n"@,
            ),
            (Ink::DarkGrey, false, "    "@ + preview(task.prompt) + "\n\n"@),
        ],
        launch_report(tasks, usual)[0] == (
            Ink::Cyan,
            true,
            "Launch "@ + decimal(tasks.len()) + " Q agent(s) to perform tasks in parallel:\n\n"@,
        ),
        launch_report(tasks, usual)[1] == (Ink::Plain, false, repeated('─', 50) + "\n\n"@),
        launch_report(tasks, usual).skip(2) == task_reports(tasks, usual, tasks.len() as int),
{
    lemma_tasks_prefix(tasks, task, usual, tasks.len() as int);
    assert(launch_report(tasks, usual).skip(2) =~= task_reports(tasks, usual, tasks.len() as int));
    assert(task_report(task, usual).len() == 4);
}

proof fn lemma_tasks_prefix(tasks: Seq<SubAgentText>, task: SubAgentText, usual: Seq<char>, n: int)
    requires
        0 <= n <= tasks.len(),
    ensures
        task_reports(tasks.push(task), usual, n) == task_reports(tasks, usual, n),
    decreases n,
{
    if n > 0 {
        lemma_tasks_prefix(tasks, task, usual, n - 1);
    }
}

/// An agent is launched as a chat that trusts all tools, with the model of the task where it names
/// one, and with the task as the last argument.
pub proof fn law_launch_arguments(prompt: Seq<char>, model: Seq<char>, done: nat, total: nat)
    ensures
        launch_args(prompt, None) == seq!["chat"@, "--trust-all-tools"@, prompt],
        launch_args(prompt, Some(model)) == seq![
            "chat"@,
            "--model="@ + model,
            "--trust-all-tools"@,
            prompt,
        ],
        full_prompt(prompt) == replace_all(SUBAGENT_PROMPT@, "{}"@, prompt),
        progress_line(done, total) == "Waiting for subagents... ("@ + decimal(done) + "/"@ + decimal(total)
            + " complete)"@,
{
    assert(launch_args(prompt, None) =~= seq!["chat"@, "--trust-all-tools"@, prompt]);
    assert(launch_args(prompt, Some(model)) =~= seq![
        "chat"@,
        "--model="@ + model,
        "--trust-all-tools"@,
        prompt,
    ]);
}

/// What agents printed is put together in order, each under the number of its process; blank output
/// and agents that failed add nothing.
pub proof fn law_outputs(results: Seq<AgentResult>, one: AgentResult)
    ensures
        outputs(results.push(one), results.len() as int + 1) == outputs(results, results.len() as int)
            + match one {
            AgentResult::Finished { pid, stdout } => if forall|i: int|
                0 <= i < stdout@.len() ==> is_white(#[trigger] stdout@[i]) {
                ""@
            } else {
                "=== Agent "@ + decimal(pid as nat) + " Output ===\n"@ + stdout@ + "\n\n"@
            },
            _ => ""@,
        },
        complaints(results.push(one), results.len() as int + 1) == complaints(
            results,
            results.len() as int,
        ) + match one {
            AgentResult::Finished { .. } => Seq::<SpanText>::empty(),
            AgentResult::NotLaunched(e) => seq![
                (Ink::Red, false, "Failed to launch agent: "@ + e@ + "\n"@),
            ],
            AgentResult::NotJoined(e) => seq![(Ink::Red, false, "Task join error: "@ + e@ + "\n"@)],
        },
        complaints(seq![], 0).len() == 0,
        outputs(seq![], 0) == ""@,
{
    lemma_outputs_prefix(results, one, results.len() as int);
    if let AgentResult::Finished { pid, stdout } = one {
        lemma_blank(stdout@);
    }
    assert(complaints(results.push(one), results.len() as int + 1) == complaints(
        results,
        results.len() as int,
    ) + complaint_of(one));
    assert(outputs(results.push(one), results.len() as int + 1) == outputs(results, results.len() as int)
        + output_of(one));
}

proof fn lemma_outputs_prefix(results: Seq<AgentResult>, one: AgentResult, n: int)
    requires
        0 <= n <= results.len(),
    ensures
        outputs(results.push(one), n) == outputs(results, n),
        complaints(results.push(one), n) == complaints(results, n),
    decreases n,
{
    if n > 0 {
        lemma_outputs_prefix(results, one, n - 1);
    }
}

/// A script without a first line that begins with `#!` is its lines; with one, it is the lines after
/// that and after the comments that follow it, up to the end.
pub proof fn law_script(all: Seq<Seq<char>>, content: Seq<char>, k: int)
    requires
        all == lines(content),
        1 <= k <= all.len(),
        all[0].len() >= 2 && all[0][0] == '#' && all[0][1] == '!',
        forall|i: int| 1 <= i < k ==> (#[trigger] all[i]).len() > 0 && all[i][0] == '#',
        k < all.len() ==> all[k].len() == 0 || all[k][0] != '#',
    ensures
        script_body(content) == join(all.skip(k), "\n"@),
{
    reveal_strlit("#!");
    reveal_strlit("#");
    assert(all[0].subrange(0, 2) =~= "#!"@);
    lemma_comments(all, 1, k);
}

/// A script whose first line does not begin with `#!` is all its lines, comments among them.
pub proof fn law_plain_script(all: Seq<Seq<char>>, content: Seq<char>)
    requires
        all == lines(content),
        all.len() > 0 ==> all[0].len() < 2 || all[0][0] != '#' || all[0][1] != '!',
    ensures
        script_body(content) == join(all, "\n"@),
{
    reveal_strlit("#!");
    if all.len() > 0 && starts_with_text(all[0], "#!"@) {
        assert(all[0].subrange(0, 2)[0] == '#' && all[0].subrange(0, 2)[1] == '!');
    }
    assert(all.skip(0) =~= all);
}

proof fn lemma_comments(all: Seq<Seq<char>>, i: int, k: int)
    requires
        0 <= i <= k <= all.len(),
        forall|j: int| i <= j < k ==> (#[trigger] all[j]).len() > 0 && all[j][0] == '#',
        k < all.len() ==> all[k].len() == 0 || all[k][0] != '#',
    ensures
        after_comments(all, i) == k,
    decreases k - i,
{
    reveal_strlit("#");
    if i < k {
        assert(all[i].subrange(0, 1) =~= "#"@);
        lemma_comments(all, i + 1, k);
    } else if i < all.len() && starts_with_text(all[i], "#"@) {
        assert(all[i].subrange(0, 1)[0] == '#');
    }
}

/// The patterns that are offered for a command: the command itself; for three words or more whose
/// second is no flag, the first two with a star; and for two words or more, the first with a star.
pub proof fn law_offered_patterns(command: Seq<char>)
    ensures
        ({
            let w = words(command);
            let o = pattern_options(command);
            let two = w.len() >= 3 && !(w[1].len() > 0 && w[1][0] == '-');
            &&& o[0].0 == command
            &&& o[0].1 == "Trust this exact command only"@
            &&& w.len() < 2 ==> o.len() == 1
            &&& w.len() >= 2 && !two ==> o.len() == 2
            &&& two ==> o.len() == 3 && o[1].0 == w[0] + " "@ + w[1] + "*"@ && o[1].1 == "Trust all '"@ + (w[0]
                + " "@ + w[1]) + "' commands (up to first argument)"@
            &&& w.len() >= 2 ==> o.last().0 == w[0] + "*"@ && o.last().1 == "Trust all '"@ + w[0]
                + "' commands (first word only)"@
        }),
{
    reveal_strlit("-");
    let w = words(command);
    if w.len() >= 3 {
        if w[1].len() > 0 && w[1][0] == '-' {
            assert(w[1].subrange(0, 1) =~= "-"@);
        } else if starts_with_text(w[1], "-"@) {
            assert(w[1].subrange(0, 1)[0] == '-');
        }
    }
}

/// Three models are offered, each under its own name; the active one is marked, and what was chosen
/// is told by its name.
pub proof fn law_models(list: Seq<(Seq<char>, Seq<char>)>, active: Option<Seq<char>>, i: int, name: Seq<char>)
    requires
        0 <= i < list.len(),
    ensures
        model_ids() == seq![
            "CLAUDE_SONNET_4_20250514_V1_0"@,
            "CLAUDE_3_7_SONNET_20250219_V1_0"@,
            "CLAUDE_3_5_SONNET_20241022_V2_0"@,
        ],
        model_labels(list, active).len() == list.len(),
        active == Some(list[i].1) ==> model_labels(list, active)[i] == list[i].0 + " (active)"@,
        active != Some(list[i].1) && list[i].1.len() > 0 ==> model_labels(list, active)[i] == list[i].0,
        model_report(name) == seq![
            (Ink::Plain, false, "\n"@),
            (Ink::Plain, false, " Using "@ + name + "\n\n"@),
        ],
{
}

/// A path is placed under another root as it stands, without the slashes with which it begins; one
/// that is under the root already stays where it is.
pub proof fn law_placed_under_root(base: Seq<char>, path: Seq<char>)
    requires
        base.len() > 0,
        base.last() != '/',
        base[0] == '/',
        path.len() > 0,
        path[0] != '/',
    ensures
        appended(base, path) == base + "/"@ + path,
        !(("/"@ + path).len() >= base.len() && ("/"@ + path).take(base.len() as int) == base) ==> appended(
            base,
            "/"@ + path,
        ) == base + "/"@ + path,
        appended(base, base + "/"@ + path) == appended(base, "/"@ + path),
        appended(base, base) == base + "/"@,
{
    assert(base.take(base.len() as int) =~= base);
    assert(base.skip(base.len() as int) =~= Seq::<char>::empty());
    assert(without_prefixes(base, seq![]) == Seq::<char>::empty());
    assert(without_prefixes(base, base) == without_prefixes(base, seq![]));
    assert(base + "/"@ + Seq::<char>::empty() =~= base + "/"@);
    reveal_strlit("/");
    if path.len() >= base.len() && path.take(base.len() as int) == base {
        assert(path.take(base.len() as int)[0] == path[0]);
    }
    assert(without_prefixes(base, path) == path);
    assert(without_slashes(path) == path);
    let p = "/"@ + path;
    assert(p.skip(1) =~= path);
    reveal_with_fuel(without_slashes, 2);
    assert(p[0] == '/');
    assert(without_slashes(p) == path);
    let whole = base + "/"@ + path;
    assert(whole.take(base.len() as int) =~= base);
    assert(whole.skip(base.len() as int) =~= p);
}

/// Under another root the path on disk is the one placed there; else it is the path itself.
pub proof fn law_path_on_disk(root: String, path: Seq<char>, fs: Fs)
    ensures
        disk_path(Fs::Chroot(root), path) == appended(root@, path),
        !(fs is Chroot) ==> disk_path(fs, path) == path,
{
}

} // verus!
