//! Agents that are launched to work on tasks in parallel.

use vstd::prelude::*;

use crate::number::{byte_len, bytes_in, decimal, decimal_text, size_text};
use crate::report::{bold, inked, Ink, Report, SpanText};
use crate::split::{is_blank, replace_all, replaced, trim};
use crate::text::{cat2, cat3, cat5, option_text, repeat_char, repeated, texts};
use crate::truncate::{char_width, law_truncated_fits, lemma_byte_len_step, truncate_safe, truncated};

verus! {

/// A task for an agent of its own.
#[derive(Debug)]
pub struct SubAgent {
    /// A name of a few words.
    pub agent_name: String,
    /// The task.
    pub prompt: String,
    /// The model, if it is not the default one.
    pub model: Option<String>,
}

/// What a task holds.
pub struct SubAgentText {
    pub name: Seq<char>,
    pub prompt: Seq<char>,
    pub model: Option<Seq<char>>,
}

impl View for SubAgent {
    type V = SubAgentText;

    open spec fn view(&self) -> SubAgentText {
        SubAgentText { name: self.agent_name@, prompt: self.prompt@, model: option_text(self.model) }
    }
}

/// Tasks that are done in parallel.
#[derive(Debug)]
pub struct SubAgentWrapper {
    /// The tasks.
    pub subagents: Vec<SubAgent>,
}

/// What tasks hold.
pub open spec fn task_list(v: Seq<SubAgent>) -> Seq<SubAgentText> {
    Seq::new(v.len(), |i: int| v[i]@)
}

/// The beginning of a task, as it is shown: all of it, or its first 57 bytes and three dots.
pub open spec fn preview(prompt: Seq<char>) -> Seq<char> {
    if byte_len(prompt) > 60 {
        truncated(prompt, 57) + "..."@
    } else {
        prompt
    }
}

/// Whether a long task can be cut after 57 bytes without cutting a character.
pub open spec fn can_be_cut(prompt: Seq<char>) -> bool {
    byte_len(prompt) > 60 ==> byte_len(truncated(prompt, 57)) == 57
}

/// The part of the announcement for one task; `default_model` is the name of the model that is
/// used where the task names none.
pub open spec fn task_report(task: SubAgentText, default_model: Seq<char>) -> Seq<SpanText> {
    seq![
        inked(Ink::Blue, "  • "@),
        bold(Ink::White, task.name),
        inked(
            Ink::DarkGrey,
            " ("@ + (match task.model {
                Some(m) => m,
                None => default_model,
            }) + ")\n"@,
        ),
        inked(Ink::DarkGrey, "    "@ + preview(task.prompt) + "\n\n"@),
    ]
}

/// The parts of the first `n` tasks.
pub open spec fn task_reports(tasks: Seq<SubAgentText>, default_model: Seq<char>, n: int) -> Seq<
    SpanText,
>
    decreases n,
{
    if n <= 0 {
        seq![]
    } else {
        task_reports(tasks, default_model, n - 1) + task_report(tasks[n - 1], default_model)
    }
}

/// The announcement of tasks.
pub open spec fn launch_report(tasks: Seq<SubAgentText>, default_model: Seq<char>) -> Seq<SpanText> {
    seq![
        bold(
            Ink::Cyan,
            "Launch "@ + decimal(tasks.len()) + " Q agent(s) to perform tasks in parallel:\n\n"@,
        ),
        inked(Ink::Plain, repeated('─', 50) + "\n\n"@),
    ] + task_reports(tasks, default_model, tasks.len() as int)
}

impl SubAgentWrapper {
    /// The announcement of the tasks. A long task must have a character that ends after 57 bytes.
    pub fn queue_description(&self, default_model: &str) -> (res: Report)
        requires
            forall|i: int|
                0 <= i < self.subagents@.len() ==> can_be_cut((#[trigger] self.subagents@[i]).prompt@),
        ensures
            res@ == launch_report(task_list(self.subagents@), default_model@),
    {
        let ghost tasks = task_list(self.subagents@);
        let mut out = Report::new();
        let n = size_text(self.subagents.len());
        let head = cat3("Launch ", n.as_str(), " Q agent(s) to perform tasks in parallel:\n\n");
        out.say_bold(Ink::Cyan, head.as_str());
        let bar = repeat_char('─', 50);
        let line = cat2(bar.as_str(), "\n\n");
        out.say(Ink::Plain, line.as_str());
        let ghost start = out@;
        let mut i: usize = 0;
        assert(start + task_reports(tasks, default_model@, 0) =~= start);
        while i < self.subagents.len()
            invariant
                i <= self.subagents@.len(),
                tasks == task_list(self.subagents@),
                out@ == start + task_reports(tasks, default_model@, i as int),
            decreases self.subagents@.len() - i,
        {
            let task = &self.subagents[i];
            assert(tasks[i as int] == task@);
            out.say(Ink::Blue, "  • ");
            out.say_bold(Ink::White, task.agent_name.as_str());
            let model: &str = match &task.model {
                Some(m) => m.as_str(),
                None => default_model,
            };
            let text = cat3(" (", model, ")\n");
            out.say(Ink::DarkGrey, text.as_str());
            let shown = if bytes_in(task.prompt.as_str()) > 60 {
                let cut = truncate_safe(task.prompt.as_str(), 57);
                cat2(cut.as_str(), "...")
            } else {
                String::from_str(task.prompt.as_str())
            };
            let text = cat3("    ", shown.as_str(), "\n\n");
            out.say(Ink::DarkGrey, text.as_str());
            i += 1;
            assert(out@ =~= start + task_reports(tasks, default_model@, i as int));
        }
        assert(out@ =~= launch_report(tasks, default_model@));
        out
    }
}

/// What an agent that is launched is told; `{}` stands for its task.
pub const SUBAGENT_PROMPT: &'static str = "{}. SUBAGENT - You are a specialized instance delegated a task by your parent agent.\n\n        SUBAGENT CONTEXT:\n        - You are NOT the primary agent - you are a focused subprocess\n        - Your parent agent is coordinating multiple subagents like you\n        - Your role is to execute your specific task and report back with actionable intelligence\n        - The parent agent depends on your detailed findings to make informed decisions\n        \n        CRITICAL REPORTING REQUIREMENTS:\n        After completing your task, you MUST provide a DETAILED technical summary including:\n        \n        - Specific findings with concrete examples (file paths, code patterns, function names)\n        - Actual implementation details and technical specifics\n        - Quantifiable data (line counts, file sizes, performance metrics, etc.)\n        - Key technical insights that directly inform the parent agent's next actions\n        \n        UNACCEPTABLE: Generic summaries like \"analyzed codebase\" or \"completed task\"\n        REQUIRED: Specific technical intelligence that enables the parent agent to proceed effectively\n        \n        Execute your assigned subagent task, then provide your detailed technical report.";

/// What an agent that is launched is told.
pub open spec fn full_prompt(prompt: Seq<char>) -> Seq<char> {
    replace_all(SUBAGENT_PROMPT@, "{}"@, prompt)
}

/// The arguments with which an agent is launched.
pub open spec fn launch_args(prompt: Seq<char>, model: Option<Seq<char>>) -> Seq<Seq<char>> {
    seq!["chat"@] + (match model {
        Some(m) => seq!["--model="@ + m],
        None => seq![],
    }) + seq!["--trust-all-tools"@, prompt]
}

/// What is said while agents work.
pub open spec fn progress_line(done: nat, total: nat) -> Seq<char> {
    "Waiting for subagents... ("@ + decimal(done) + "/"@ + decimal(total) + " complete)"@
}

/// What is said while agents work.
pub fn progress_text(done: usize, total: usize) -> (res: String)
    ensures
        res@ == progress_line(done as nat, total as nat),
{
    let d = size_text(done);
    let t = size_text(total);
    cat5("Waiting for subagents... (", d.as_str(), "/", t.as_str(), " complete)")
}

impl SubAgent {
    /// The arguments with which the agent is launched.
    pub fn arguments(&self) -> (res: Vec<String>)
        ensures
            texts(res@) == launch_args(full_prompt(self.prompt@), option_text(self.model)),
    {
        proof {
            reveal_strlit("{}");
        }
        let prompt = replaced(SUBAGENT_PROMPT, "{}", self.prompt.as_str());
        let ghost full = prompt@;
        let mut out: Vec<String> = Vec::new();
        out.push(String::from_str("chat"));
        if let Some(m) = &self.model {
            out.push(cat2("--model=", m.as_str()));
        }
        out.push(String::from_str("--trust-all-tools"));
        out.push(prompt);
        assert(texts(out@) =~= launch_args(full, option_text(self.model)));
        out
    }

    /// The announcement of one task.
    pub fn queue_description(&self, default_model: &str) -> (res: Report)
        ensures
            res@ == seq![inked(Ink::Plain, self.prompt@)],
    {
        let mut out = Report::new();
        out.say(Ink::Plain, self.prompt.as_str());
        assert(out@ =~= seq![inked(Ink::Plain, self.prompt@)]);
        out
    }

    /// Whether the task can be given to an agent, and why not.
    pub fn validate(&self) -> (res: Result<(), String>)
        ensures
            crate::context::failure(res) == if trim(self.prompt@).len() == 0 {
                Some("Prompt cannot be empty"@)
            } else {
                None
            },
    {
        if is_blank(self.prompt.as_str()) {
            Err(String::from_str("Prompt cannot be empty"))
        } else {
            Ok(())
        }
    }
}

/// What came of an agent.
#[derive(Debug)]
pub enum AgentResult {
    /// It ended, and printed this.
    Finished { pid: u32, stdout: String },
    /// It could not be launched, for this reason.
    NotLaunched(String),
    /// What it did could not be waited for, for this reason.
    NotJoined(String),
}

/// What one agent adds to the answer.
pub open spec fn output_of(r: AgentResult) -> Seq<char> {
    match r {
        AgentResult::Finished { pid, stdout } => if trim(stdout@).len() == 0 {
            ""@
        } else {
            "=== Agent "@ + decimal(pid as nat) + " Output ===\n"@ + stdout@ + "\n\n"@
        },
        _ => ""@,
    }
}

/// What is said of one agent.
pub open spec fn complaint_of(r: AgentResult) -> Seq<SpanText> {
    match r {
        AgentResult::Finished { .. } => seq![],
        AgentResult::NotLaunched(e) => seq![
            inked(Ink::Red, "Failed to launch agent: "@ + e@ + "\n"@),
        ],
        AgentResult::NotJoined(e) => seq![inked(Ink::Red, "Task join error: "@ + e@ + "\n"@)],
    }
}

/// What the first `n` agents add to the answer.
pub open spec fn outputs(results: Seq<AgentResult>, n: int) -> Seq<char>
    decreases n,
{
    if n <= 0 {
        ""@
    } else {
        outputs(results, n - 1) + output_of(results[n - 1])
    }
}

/// What is said of the first `n` agents.
pub open spec fn complaints(results: Seq<AgentResult>, n: int) -> Seq<SpanText>
    decreases n,
{
    if n <= 0 {
        seq![]
    } else {
        complaints(results, n - 1) + complaint_of(results[n - 1])
    }
}

/// The answer that the agents' outputs make, and what is said of the agents that failed.
pub fn process_agent_results(results: &Vec<AgentResult>) -> (res: (String, Report))
    ensures
        res.0@ == outputs(results@, results@.len() as int),
        res.1@ == complaints(results@, results@.len() as int),
{
    let mut text = String::from_str("");
    let mut out = Report::new();
    let mut i: usize = 0;
    assert(out@ =~= complaints(results@, 0));
    while i < results.len()
        invariant
            i <= results@.len(),
            text@ == outputs(results@, i as int),
            out@ == complaints(results@, i as int),
        decreases results@.len() - i,
    {
        let ghost before = out@;
        let ghost t = text@;
        proof {
            reveal_strlit("");
        }
        match &results[i] {
            AgentResult::Finished { pid, stdout } => {
                if !is_blank(stdout.as_str()) {
                    let number = decimal_text(*pid as u64);
                    let part = cat5(
                        "=== Agent ",
                        number.as_str(),
                        " Output ===\n",
                        stdout.as_str(),
                        "\n\n",
                    );
                    text.append(part.as_str());
                }
            },
            AgentResult::NotLaunched(e) => {
                let line = cat3("Failed to launch agent: ", e.as_str(), "\n");
                out.say(Ink::Red, line.as_str());
            },
            AgentResult::NotJoined(e) => {
                let line = cat3("Task join error: ", e.as_str(), "\n");
                out.say(Ink::Red, line.as_str());
            },
        }
        assert(text@ =~= t + output_of(results@[i as int]));
        assert(out@ =~= before + complaint_of(results@[i as int]));
        i += 1;
    }
    (text, out)
}

/// What is shown of a task never takes more than 60 bytes: it is the task, or the longest
/// beginning of it that leaves room for three dots.
pub proof fn law_preview_is_short(prompt: Seq<char>)
    ensures
        byte_len(preview(prompt)) <= 60,
        byte_len(prompt) <= 60 ==> preview(prompt) == prompt,
        byte_len(prompt) > 60 ==> preview(prompt) == truncated(prompt, 57) + "..."@,
{
    if byte_len(prompt) > 60 {
        reveal_strlit("...");
        law_truncated_fits(prompt, 57);
        let kept = truncated(prompt, 57);
        let n = kept.len() as int;
        let all = kept + "..."@;
        assert(char_width('.') == 1);
        lemma_byte_len_step(all, n);
        lemma_byte_len_step(all, n + 1);
        lemma_byte_len_step(all, n + 2);
        assert(all.take(n) =~= kept);
        assert(all.take(n + 3) =~= all);
    }
}

} // verus!
