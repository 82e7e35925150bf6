//! The `/complete` command: what the model proposes as the next input.

use vstd::prelude::*;

use crate::matcher::{capture, compile, regex_capture, regex_error};
use crate::number::{byte_len, bytes_in, decimal, number_value, parse_size, size_text};
use crate::report::{inked, Ink, Report, SpanText};
use crate::split::{is_blank, lines, lines_of, split_char, split_on, trim, trimmed};
use crate::text::{
    cat2, cat3, lemma_texts_push, option_text, starts_with_text, str_starts_with, texts,
};

verus! {

/// What `/complete` is asked for.
#[derive(Debug, PartialEq)]
pub struct CompleteArgs {
    /// What the proposals are to be about.
    pub context: Option<String>,
    /// Show the proposals without sending one.
    pub preview: bool,
    /// How many proposals are wanted.
    pub count: u8,
}

/// What happens next in the chat.
#[derive(Debug, PartialEq)]
pub enum ChatState {
    /// The user is asked.
    PromptUser { skip_printing_tools: bool },
    /// An input is handled.
    HandleInput { input: String },
    /// The chat ends.
    Exit,
}

impl CompleteArgs {
    /// How many proposals are asked for: one to five.
    pub fn wanted(&self) -> (res: u8)
        ensures
            res == if self.count < 1 {
                1u8
            } else if self.count > 5 {
                5u8
            } else {
                self.count
            },
    {
        if self.count < 1 {
            1
        } else if self.count > 5 {
            5
        } else {
            self.count
        }
    }
}

/// The expressions of an item of a list.
pub open spec fn item_patterns() -> Seq<Seq<char>> {
    seq!["^\\d+\\.\\s*(.+)$"@, "^\\d+\\)\\s*(.+)$"@, "^[•\\-\\*]\\s*(.+)$"@]
}

/// The first of what the expressions took, without the blanks round it.
pub open spec fn first_item(captures: Seq<Option<Seq<char>>>, from: int) -> Option<Seq<char>>
    decreases captures.len() - from,
{
    if from >= captures.len() {
        None
    } else {
        match captures[from] {
            Some(t) => Some(trim(t)),
            None => first_item(captures, from + 1),
        }
    }
}

/// The texts of what may be absent.
pub open spec fn option_list(v: Seq<Option<String>>) -> Seq<Option<Seq<char>>> {
    Seq::new(v.len(), |i: int| option_text(v[i]))
}

/// The first of what the expressions took, without the blanks round it.
pub fn pick_item(captures: &Vec<Option<String>>) -> (res: Option<String>)
    ensures
        option_text(res) == first_item(option_list(captures@), 0),
{
    let ghost list = option_list(captures@);
    let mut i: usize = 0;
    while i < captures.len()
        invariant
            i <= captures@.len(),
            list == option_list(captures@),
            first_item(list, 0) == first_item(list, i as int),
        decreases captures@.len() - i,
    {
        assert(list[i as int] == option_text(captures@[i as int]));
        if let Some(t) = &captures[i] {
            return Some(trimmed(t.as_str()));
        }
        i += 1;
    }
    None
}

/// What the expressions of a list item take of a line.
pub open spec fn item_captures(line: Seq<char>) -> Seq<Option<Seq<char>>> {
    Seq::new(3, |i: int| regex_capture(item_patterns()[i], line))
}

/// The text of an item of a list, such as `1. text`, `2) text` or `- text`.
pub open spec fn numbered_item(line: Seq<char>) -> Option<Seq<char>> {
    if exists|i: int| 0 <= i < 3 && regex_error(#[trigger] item_patterns()[i]) is Some {
        None
    } else {
        first_item(item_captures(line), 0)
    }
}

/// The text of an item of a list, such as `1. text`, `2) text` or `- text`.
pub fn extract_numbered_item(line: &str) -> (res: Option<String>)
    ensures
        option_text(res) == numbered_item(line@),
{
    let patterns: Vec<&'static str> = vec![
        "^\\d+\\.\\s*(.+)$",
        "^\\d+\\)\\s*(.+)$",
        "^[•\\-\\*]\\s*(.+)$",
    ];
    let ghost ps = item_patterns();
    let mut captures: Vec<Option<String>> = Vec::new();
    let mut i: usize = 0;
    while i < patterns.len()
        invariant
            i <= 3,
            patterns@.len() == 3,
            ps == item_patterns(),
            forall|j: int| 0 <= j < 3 ==> ps[j] == (#[trigger] patterns@[j])@,
            captures@.len() == i,
            forall|j: int| 0 <= j < i ==> regex_error(#[trigger] ps[j]) is None,
            forall|j: int|
                0 <= j < i ==> option_text(#[trigger] captures@[j]) == regex_capture(ps[j], line@),
        decreases 3 - i,
    {
        match compile(patterns[i]) {
            Ok(re) => {
                captures.push(capture(&re, line));
            },
            Err(_) => {
                assert(regex_error(ps[i as int]) is Some);
                return None;
            },
        }
        i += 1;
    }
    assert(option_list(captures@) =~= item_captures(line@));
    pick_item(&captures)
}

/// The items that are there and not empty, of the first `n`.
pub open spec fn full_items(items: Seq<Option<Seq<char>>>, n: int) -> Seq<Seq<char>>
    decreases n,
{
    if n <= 0 {
        seq![]
    } else {
        match items[n - 1] {
            Some(t) if t.len() > 0 => full_items(items, n - 1).push(t),
            _ => full_items(items, n - 1),
        }
    }
}

/// A line that can stand for a proposal.
pub open spec fn is_proposal(line: Seq<char>) -> bool {
    line.len() > 0 && !starts_with_text(line, "["@) && !starts_with_text(line, "SYSTEM"@)
}

/// The lines that can stand for proposals, of the first `n`, five at most.
pub open spec fn proposal_lines(all: Seq<Seq<char>>, n: int) -> Seq<Seq<char>>
    decreases n,
{
    if n <= 0 {
        seq![]
    } else {
        let rest = proposal_lines(all, n - 1);
        let line = trim(all[n - 1]);
        if rest.len() < 5 && is_proposal(line) {
            rest.push(line)
        } else {
            rest
        }
    }
}

/// The proposals of a text whose lines are, or are not, items of a list: the items, or, where
/// there are none, the first lines that can stand for proposals.
pub open spec fn chosen_completions(items: Seq<Option<Seq<char>>>, text: Seq<char>) -> Seq<Seq<char>> {
    let found = full_items(items, items.len() as int);
    if found.len() > 0 {
        found
    } else {
        let all = split_char(text, '\n');
        proposal_lines(all, all.len() as int)
    }
}

/// The proposals of a text whose lines are, or are not, items of a list.
pub fn choose_completions(items: &Vec<Option<String>>, text: &str) -> (res: Vec<String>)
    ensures
        texts(res@) == chosen_completions(option_list(items@), text@),
{
    let ghost list = option_list(items@);
    let mut out: Vec<String> = Vec::new();
    let mut i: usize = 0;
    assert(texts(out@) =~= full_items(list, 0));
    while i < items.len()
        invariant
            i <= items@.len(),
            list == option_list(items@),
            texts(out@) == full_items(list, i as int),
        decreases items@.len() - i,
    {
        assert(list[i as int] == option_text(items@[i as int]));
        if let Some(t) = &items[i] {
            proof {
                lemma_bytes_nonempty(t@);
            }
            if bytes_in(t.as_str()) > 0 {
                let one = String::from_str(t.as_str());
                let ghost before = out@;
                out.push(one);
                proof {
                    lemma_texts_push(before, one);
                }
            }
        }
        i += 1;
    }
    if out.len() > 0 {
        return out;
    }
    let all = split_on(text, '\n');
    let ghost ls = split_char(text@, '\n');
    let mut kept: Vec<String> = Vec::new();
    let mut j: usize = 0;
    assert(texts(kept@) =~= proposal_lines(ls, 0));
    while j < all.len()
        invariant
            j <= all@.len(),
            ls == texts(all@),
            texts(kept@) == proposal_lines(ls, j as int),
        decreases all@.len() - j,
    {
        let line = trimmed(all[j].as_str());
        assert(ls[j as int] == all@[j as int]@);
        proof {
            lemma_bytes_nonempty(line@);
        }
        if kept.len() < 5 && bytes_in(line.as_str()) > 0 && !str_starts_with(
            line.as_str(),
            "[",
        ) && !str_starts_with(line.as_str(), "SYSTEM") {
            let ghost before = kept@;
            kept.push(line);
            proof {
                lemma_texts_push(before, line);
            }
        }
        j += 1;
    }
    kept
}

/// A text has bytes exactly if it has characters.
pub proof fn lemma_bytes_nonempty(s: Seq<char>)
    ensures
        byte_len(s) > 0 <==> s.len() > 0,
{
    broadcast use vstd::utf8::char_is_scalar;

    if s.len() > 0 {
        reveal_with_fuel(vstd::utf8::encode_utf8, 2);
    }
}

/// The items that the lines of a text are.
pub open spec fn line_items(all: Seq<Seq<char>>) -> Seq<Option<Seq<char>>> {
    Seq::new(all.len(), |i: int| numbered_item(trim(all[i])))
}

/// The proposals that a response holds.
pub fn extract_completions_from_text(text: &str) -> (res: Vec<String>)
    ensures
        texts(res@) == chosen_completions(line_items(lines(text@)), text@),
{
    let all = lines_of(text);
    let ghost ls = lines(text@);
    let mut items: Vec<Option<String>> = Vec::new();
    let mut i: usize = 0;
    while i < all.len()
        invariant
            i <= all@.len(),
            ls == texts(all@),
            items@.len() == i,
            forall|j: int| 0 <= j < i ==> option_text(#[trigger] items@[j]) == numbered_item(trim(ls[j])),
        decreases all@.len() - i,
    {
        assert(ls[i as int] == all@[i as int]@);
        let line = trimmed(all[i].as_str());
        items.push(extract_numbered_item(line.as_str()));
        i += 1;
    }
    assert(option_list(items@) =~= line_items(ls));
    choose_completions(&items, text)
}

/// The lines of the first `n` proposals.
pub open spec fn completion_lines(list: Seq<Seq<char>>, n: int) -> Seq<SpanText>
    decreases n,
{
    if n <= 0 {
        seq![]
    } else {
        completion_lines(list, n - 1) + seq![
            inked(Ink::Green, "  "@ + decimal(n as nat) + ". "@),
            inked(Ink::Plain, list[n - 1] + "\n"@),
        ]
    }
}

fn say_completions(out: &mut Report, list: &Vec<String>)
    ensures
        final(out)@ == old(out)@ + completion_lines(texts(list@), list@.len() as int),
{
    let ghost start = out@;
    let ghost ls = texts(list@);
    let mut i: usize = 0;
    assert(start + completion_lines(ls, 0) =~= start);
    while i < list.len()
        invariant
            i <= list@.len(),
            ls == texts(list@),
            out@ == start + completion_lines(ls, i as int),
        decreases list@.len() - i,
    {
        let n = size_text(i + 1);
        let head = cat3("  ", n.as_str(), ". ");
        let line = cat2(list[i].as_str(), "\n");
        out.say(Ink::Green, head.as_str());
        out.say(Ink::Plain, line.as_str());
        i += 1;
        assert(out@ =~= start + completion_lines(ls, i as int));
    }
}

/// The proposals, as they are shown.
pub open spec fn display_report(list: Seq<Seq<char>>) -> Seq<SpanText> {
    seq![inked(Ink::Cyan, "Generated completions:\n\n"@)] + completion_lines(list, list.len() as int) + seq![
        inked(Ink::Plain, "\n"@),
    ]
}

/// The proposals, as they are shown.
pub fn display_completions(completions: &Vec<String>) -> (res: Report)
    ensures
        res@ == display_report(texts(completions@)),
{
    let mut out = Report::new();
    out.say(Ink::Cyan, "Generated completions:\n\n");
    say_completions(&mut out, completions);
    out.say(Ink::Plain, "\n");
    assert(out@ =~= display_report(texts(completions@)));
    out
}

/// The proposals, as one is to be chosen.
pub open spec fn selection_report(list: Seq<Seq<char>>) -> Seq<SpanText> {
    seq![inked(Ink::Cyan, "Select a completion to send:\n\n"@)] + completion_lines(
        list,
        list.len() as int,
    ) + seq![
        inked(
            Ink::Plain,
            "\nEnter selection (1-"@ + decimal(list.len()) + "), or press Enter to cancel: "@,
        ),
    ]
}

/// The proposals, as one is to be chosen.
pub fn offer_completions(completions: &Vec<String>) -> (res: Report)
    ensures
        res@ == selection_report(texts(completions@)),
{
    let mut out = Report::new();
    out.say(Ink::Cyan, "Select a completion to send:\n\n");
    say_completions(&mut out, completions);
    let n = size_text(completions.len());
    let text = cat3("\nEnter selection (1-", n.as_str(), "), or press Enter to cancel: ");
    out.say(Ink::Plain, text.as_str());
    assert(out@ =~= selection_report(texts(completions@)));
    out
}

/// What an input chooses: a proposal by its number, nothing, or something that is not there.
pub open spec fn selected(input: Option<Seq<char>>, list: Seq<Seq<char>>) -> Result<Seq<char>, Seq<SpanText>> {
    match input {
        Some(t) if trim(t).len() > 0 => match number_value(trim(t)) {
            Some(n) if 0 < n <= list.len() => Ok(list[n - 1]),
            _ => Err(seq![inked(Ink::Red, "Invalid selection.\n"@)]),
        },
        _ => Err(seq![inked(Ink::Plain, "Completion cancelled.\n"@)]),
    }
}

/// What an input chooses, or what is said where it chooses nothing.
pub fn select_completion(input: &Option<String>, completions: &Vec<String>) -> (res: Result<String, Report>)
    ensures
        match selected(option_text(*input), texts(completions@)) {
            Ok(t) => res matches Ok(x) && x@ == t,
            Err(r) => res matches Err(x) && x@ == r,
        },
{
    let mut out = Report::new();
    let size: usize = completions.len();
    if let Some(t) = input {
        if !is_blank(t.as_str()) {
            let number = trimmed(t.as_str());
            if let Some(index) = parse_size(number.as_str()) {
                if index > 0 && index <= size {
                    return Ok(String::from_str(completions[index - 1].as_str()));
                }
            }
            out.say(Ink::Red, "Invalid selection.\n");
            assert(out@ =~= seq![inked(Ink::Red, "Invalid selection.\n"@)]);
            return Err(out);
        }
    }
    out.say(Ink::Plain, "Completion cancelled.\n");
    assert(out@ =~= seq![inked(Ink::Plain, "Completion cancelled.\n"@)]);
    Err(out)
}

/// How a request for proposals goes on.
#[derive(Debug)]
pub enum CompleteStep {
    /// This is printed, and the user is asked again.
    Stop(Report),
    /// So many proposals are asked for.
    Ask(u8),
    /// This is printed, and one of the proposals is to be chosen.
    Choose(Report),
}

/// The report where there is nothing to go on.
pub open spec fn no_history() -> Seq<SpanText> {
    seq![
        inked(Ink::Yellow, "No conversation history available. Start a conversation first.\n"@),
    ]
}

/// The report where the model proposed nothing.
pub open spec fn no_completions() -> Seq<SpanText> {
    seq![inked(Ink::Yellow, "No completions could be generated.\n"@)]
}

impl CompleteArgs {
    /// Starts a request: without a conversation there is nothing to propose.
    pub fn execute(&self, history_is_empty: bool) -> (res: CompleteStep)
        ensures
            if history_is_empty {
                res matches CompleteStep::Stop(r) && r@ == no_history()
            } else {
                res matches CompleteStep::Ask(n) && n == (if self.count < 1 {
                    1u8
                } else if self.count > 5 {
                    5u8
                } else {
                    self.count
                })
            },
    {
        if history_is_empty {
            let mut out = Report::new();
            out.say(
                Ink::Yellow,
                "No conversation history available. Start a conversation first.\n",
            );
            assert(out@ =~= no_history());
            CompleteStep::Stop(out)
        } else {
            CompleteStep::Ask(self.wanted())
        }
    }

    /// Goes on with the proposals of a response.
    pub fn proceed(&self, completions: &Vec<String>) -> (res: CompleteStep)
        ensures
            if completions@.len() == 0 {
                res matches CompleteStep::Stop(r) && r@ == no_completions()
            } else if self.preview {
                res matches CompleteStep::Stop(r) && r@ == display_report(texts(completions@))
            } else {
                res matches CompleteStep::Choose(r) && r@ == selection_report(texts(completions@))
            },
    {
        if completions.len() == 0 {
            let mut out = Report::new();
            out.say(Ink::Yellow, "No completions could be generated.\n");
            assert(out@ =~= no_completions());
            CompleteStep::Stop(out)
        } else if self.preview {
            CompleteStep::Stop(display_completions(completions))
        } else {
            CompleteStep::Choose(offer_completions(completions))
        }
    }
}

/// No more than five lines stand in for proposals, and each of them can.
pub proof fn law_few_proposals(all: Seq<Seq<char>>, n: int)
    requires
        0 <= n <= all.len(),
    ensures
        proposal_lines(all, n).len() <= 5,
        forall|i: int| 0 <= i < proposal_lines(all, n).len() ==> is_proposal(#[trigger] proposal_lines(all, n)[i]),
    decreases n,
{
    if n > 0 {
        law_few_proposals(all, n - 1);
    }
}

/// A part of the answer of the model.
#[derive(Debug)]
pub enum ResponseEvent {
    /// Text.
    AssistantText(String),
    /// The end of the answer.
    EndStream,
    /// Anything else.
    Other,
}

/// The text of an answer, read part by part.
#[derive(Debug)]
pub struct Answer {
    /// The text so far.
    pub text: String,
    /// Whether the answer has ended.
    pub ended: bool,
}

impl Answer {
    /// An answer of which nothing was read.
    pub fn new() -> (res: Self)
        ensures
            res.text@ == Seq::<char>::empty(),
            !res.ended,
    {
        Answer { text: String::new(), ended: false }
    }

    /// Takes the next part of the answer in, or what went wrong.
    pub fn take(&mut self, event: Result<ResponseEvent, String>) -> (res: Result<(), String>)
        ensures
            match event {
                Ok(ResponseEvent::AssistantText(t)) => {
                    &&& res is Ok
                    &&& final(self).text@ == old(self).text@ + t@
                    &&& final(self).ended == old(self).ended
                },
                Ok(ResponseEvent::EndStream) => res is Ok && final(self).text@ == old(self).text@
                    && final(self).ended,
                Ok(ResponseEvent::Other) => res is Ok && *final(self) == *old(self),
                Err(e) => {
                    &&& *final(self) == *old(self)
                    &&& res matches Err(m)
                    &&& m@ == "Failed to parse completion response: "@ + e@
                },
            },
    {
        match event {
            Ok(ResponseEvent::AssistantText(t)) => {
                self.text.append(t.as_str());
                Ok(())
            },
            Ok(ResponseEvent::EndStream) => {
                self.ended = true;
                Ok(())
            },
            Ok(ResponseEvent::Other) => Ok(()),
            Err(e) => Err(cat2("Failed to parse completion response: ", e.as_str())),
        }
    }

    /// The completions in the text.
    pub fn completions(&self) -> (res: Vec<String>)
        ensures
            texts(res@) == chosen_completions(line_items(lines(self.text@)), self.text@),
    {
        extract_completions_from_text(self.text.as_str())
    }
}

} // verus!
