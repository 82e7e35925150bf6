//! The listing that `/tools` prints: the tools by origin, with their permissions.

use vstd::prelude::*;

use crate::context::{combined_trusted, ContextManager};
use crate::name_map::NameMap;
use crate::number::{byte_len, bytes_in};
use crate::order::{sort_list, sorted_texts};
use crate::report::{bold, inked, Ink, Report, SpanText};
use crate::split::{join, join_list};
use crate::text::{
    cat2, cat3, cat5, lemma_texts_push, repeat_char, repeated, same_text, texts,
};
use crate::tools::{
    action_result, patterns_of, tools_action, ActionText, ToolsAction, ToolsArgs, ToolsSession,
};
use crate::trusted_commands::{TrustedCommandsConfig, TrustedText};

verus! {

/// Where a tool comes from.
#[derive(Debug, PartialEq, Eq)]
pub enum ToolOrigin {
    /// It is built in.
    Native,
    /// It is offered by the server of that name.
    McpServer(String),
}

/// The tools of one origin.
#[derive(Debug)]
pub struct ToolGroup {
    /// The origin.
    pub origin: ToolOrigin,
    /// How the origin is called.
    pub title: String,
    /// The names of the tools.
    pub names: Vec<String>,
}

/// What is known when tools are listed.
#[derive(Debug)]
pub struct ToolsListing {
    /// The tools, each origin once.
    pub groups: Vec<ToolGroup>,
    /// The permission of each tool as text.
    pub labels: NameMap<String>,
    /// The name of the tool that is never shown.
    pub dummy: String,
    /// The servers that are still loading.
    pub loading: Vec<String>,
    /// The width of the terminal.
    pub terminal_width: usize,
}

/// What a group holds.
pub struct GroupText {
    /// The name of the server, or `None` for tools that are built in.
    pub server: Option<Seq<char>>,
    pub title: Seq<char>,
    pub names: Seq<Seq<char>>,
}

impl View for ToolGroup {
    type V = GroupText;

    open spec fn view(&self) -> GroupText {
        GroupText {
            server: match self.origin {
                ToolOrigin::Native => None,
                ToolOrigin::McpServer(s) => Some(s@),
            },
            title: self.title@,
            names: texts(self.names@),
        }
    }
}

/// What groups hold.
pub open spec fn group_list(v: Seq<ToolGroup>) -> Seq<GroupText> {
    Seq::new(v.len(), |i: int| v[i]@)
}

/// The number of bytes of the longest of the first `n` names, `least` at least.
pub open spec fn longest_of(names: Seq<Seq<char>>, n: int, least: nat) -> nat
    decreases n,
{
    if n <= 0 {
        least
    } else {
        let rest = longest_of(names, n - 1, least);
        if byte_len(names[n - 1]) > rest {
            byte_len(names[n - 1])
        } else {
            rest
        }
    }
}

/// The number of bytes of the longest name in the first `n` groups.
pub open spec fn longest_name(groups: Seq<GroupText>, n: int) -> nat
    decreases n,
{
    if n <= 0 {
        0
    } else {
        longest_of(groups[n - 1].names, groups[n - 1].names.len() as int, longest_name(groups, n - 1))
    }
}

/// The permission of a tool as text.
pub open spec fn label_of(labels: Map<Seq<char>, String>, name: Seq<char>) -> Seq<char> {
    if labels.contains_key(name) {
        labels[name]@
    } else {
        ""@
    }
}

/// Texts between quotation marks.
pub open spec fn quoted(list: Seq<Seq<char>>) -> Seq<Seq<char>> {
    Seq::new(list.len(), |i: int| "\""@ + list[i] + "\""@)
}

/// The line that names the trusted commands under a tool that runs commands.
pub open spec fn trusted_line(name: Seq<char>, trusted: Seq<TrustedText>) -> Seq<char> {
    if (name == "execute_bash"@ || name == "execute_cmd"@) && trusted.len() > 0 {
        "    * trusted by profile configuration: "@ + join(quoted(patterns_of(trusted)), " "@) + "\n"@
    } else {
        ""@
    }
}

/// The line of a tool.
pub open spec fn tool_line(
    name: Seq<char>,
    longest: nat,
    labels: Map<Seq<char>, String>,
    trusted: Seq<TrustedText>,
) -> Seq<char> {
    ("- "@ + name + repeated(' ', (longest - byte_len(name) + 4) as nat) + label_of(labels, name) + "\n"@)
        + trusted_line(name, trusted)
}

/// The lines of the first `n` tools.
pub open spec fn tool_lines(
    names: Seq<Seq<char>>,
    n: int,
    longest: nat,
    labels: Map<Seq<char>, String>,
    trusted: Seq<TrustedText>,
) -> Seq<char>
    decreases n,
{
    if n <= 0 {
        ""@
    } else {
        tool_lines(names, n - 1, longest, labels, trusted) + tool_line(
            names[n - 1],
            longest,
            labels,
            trusted,
        )
    }
}

/// The names other than that of the tool that is never shown.
pub open spec fn shown(dummy: Seq<char>) -> spec_fn(Seq<char>) -> bool {
    |name: Seq<char>| name != dummy
}

/// What is fixed in a listing.
pub struct ListingText {
    pub longest: nat,
    pub labels: Map<Seq<char>, String>,
    pub trusted: Seq<TrustedText>,
    pub dummy: Seq<char>,
}

/// The part of the listing for one group: its title, and its tools in order.
pub open spec fn group_report(group: GroupText, t: ListingText) -> Seq<SpanText> {
    let names = sorted_texts(group.names.filter(shown(t.dummy)), false);
    seq![
        bold(Ink::Plain, group.title + ":\n"@),
        inked(
            Ink::Plain,
            tool_lines(names, names.len() as int, t.longest, t.labels, t.trusted),
        ),
        inked(Ink::Plain, "\n"@),
    ]
}

/// The parts of the first `n` groups that are built in.
pub open spec fn native_reports(groups: Seq<GroupText>, n: int, t: ListingText) -> Seq<SpanText>
    decreases n,
{
    if n <= 0 {
        seq![]
    } else {
        let rest = native_reports(groups, n - 1, t);
        if groups[n - 1].server is None {
            rest + group_report(groups[n - 1], t)
        } else {
            rest
        }
    }
}

/// The names of the servers of the first `n` groups.
pub open spec fn servers(groups: Seq<GroupText>, n: int) -> Seq<Seq<char>>
    decreases n,
{
    if n <= 0 {
        seq![]
    } else {
        match groups[n - 1].server {
            Some(s) => servers(groups, n - 1).push(s),
            None => servers(groups, n - 1),
        }
    }
}

/// The position of the group of a server at or after `from`, or the number of groups.
pub open spec fn find_server(groups: Seq<GroupText>, server: Seq<char>, from: int) -> int
    decreases groups.len() - from,
{
    if from >= groups.len() || groups[from].server == Some(server) {
        from
    } else {
        find_server(groups, server, from + 1)
    }
}

/// The parts of the groups of the first `n` servers.
pub open spec fn server_reports(
    groups: Seq<GroupText>,
    names: Seq<Seq<char>>,
    n: int,
    t: ListingText,
) -> Seq<SpanText>
    decreases n,
{
    if n <= 0 {
        seq![]
    } else {
        let rest = server_reports(groups, names, n - 1, t);
        let at = find_server(groups, names[n - 1], 0);
        if at < groups.len() {
            rest + group_report(groups[at], t)
        } else {
            rest
        }
    }
}

/// The part of the listing for servers that are still loading.
pub open spec fn loading_report(loading: Seq<Seq<char>>, width: nat) -> Seq<SpanText> {
    if loading.len() == 0 {
        seq![]
    } else {
        seq![
            bold(Ink::Plain, "Servers still loading"@),
            inked(Ink::Plain, "\n"@ + repeated('▔', width)),
        ] + Seq::new(loading.len(), |i: int| inked(Ink::Plain, " - "@ + loading[i] + "\n"@))
    }
}

/// The whole listing: built-in tools first, then those of the servers in the order of the
/// servers' names.
pub open spec fn listing(
    groups: Seq<GroupText>,
    t: ListingText,
    loading: Seq<Seq<char>>,
    width: nat,
) -> Seq<SpanText> {
    let names = sorted_texts(servers(groups, groups.len() as int), false);
    seq![
        inked(Ink::Plain, "\n"@),
        bold(Ink::Plain, "Tool"@ + repeated(' ', t.longest + 2) + "Permission"@),
        inked(Ink::Plain, "\n"@ + repeated('▔', width)),
    ] + native_reports(groups, groups.len() as int, t) + server_reports(
        groups,
        names,
        names.len() as int,
        t,
    ) + loading_report(loading, width) + seq![
        inked(Ink::Plain, "\nTrusted tools will run without confirmation."@),
        inked(Ink::DarkGrey, "\n* Default settings\n"@),
        inked(Ink::DarkGrey, "\n💡 Use "@),
        inked(Ink::Green, "/tools help"@),
        inked(Ink::DarkGrey, " to edit permissions.\n\n"@),
    ]
}

/// What is fixed in a listing.
pub open spec fn listing_text(l: ToolsListing, trusted: Seq<TrustedText>) -> ListingText {
    ListingText {
        longest: longest_name(group_list(l.groups@), l.groups@.len() as int),
        labels: l.labels@,
        trusted,
        dummy: l.dummy@,
    }
}

fn find_longest(groups: &Vec<ToolGroup>) -> (res: usize)
    ensures
        res == longest_name(group_list(groups@), groups@.len() as int),
        forall|i: int, j: int|
            0 <= i < groups@.len() && 0 <= j < groups@[i].names@.len() ==> byte_len(
                (#[trigger] groups@[i].names@[j])@,
            ) <= res,
{
    let ghost g = group_list(groups@);
    let mut best: usize = 0;
    let mut i: usize = 0;
    while i < groups.len()
        invariant
            i <= groups@.len(),
            g == group_list(groups@),
            best == longest_name(g, i as int),
            forall|a: int, b: int|
                0 <= a < i && 0 <= b < groups@[a].names@.len() ==> byte_len(
                    (#[trigger] groups@[a].names@[b])@,
                ) <= best,
        decreases groups@.len() - i,
    {
        let ghost least = best as nat;
        let names = &groups[i].names;
        let mut j: usize = 0;
        while j < names.len()
            invariant
                i < groups@.len(),
                *names == groups@[i as int].names,
                j <= names@.len(),
                g == group_list(groups@),
                least == longest_name(g, i as int),
                best == longest_of(g[i as int].names, j as int, least),
                best >= least,
                forall|b: int| 0 <= b < j ==> byte_len((#[trigger] names@[b])@) <= best,
            decreases names@.len() - j,
        {
            let n: usize = bytes_in(names[j].as_str());
            assert(g[i as int].names[j as int] == names@[j as int]@);
            if n > best {
                best = n;
            }
            j += 1;
        }
        i += 1;
    }
    best
}

fn label_text(labels: &NameMap<String>, name: &str) -> (res: String)
    ensures
        res@ == label_of(labels@, name@),
{
    match labels.get(name) {
        Some(l) => String::from_str(l.as_str()),
        None => String::from_str(""),
    }
}

fn quote_patterns(config: &TrustedCommandsConfig) -> (res: Vec<String>)
    ensures
        texts(res@) == quoted(patterns_of(config@)),
{
    let ghost all = quoted(patterns_of(config@));
    let mut out: Vec<String> = Vec::new();
    let mut i: usize = 0;
    while i < config.trusted_commands.len()
        invariant
            i <= config.trusted_commands@.len(),
            all == quoted(patterns_of(config@)),
            out@.len() == i,
            forall|j: int| 0 <= j < i ==> (#[trigger] out@[j])@ == all[j],
        decreases config.trusted_commands@.len() - i,
    {
        let one = cat3("\"", config.trusted_commands[i].command.as_str(), "\"");
        assert(all[i as int] == one@);
        out.push(one);
        i += 1;
    }
    assert(texts(out@) =~= all);
    out
}

fn trusted_line_text(name: &str, trusted: &TrustedCommandsConfig) -> (res: String)
    ensures
        res@ == trusted_line(name@, trusted@),
{
    if (same_text(name, "execute_bash") || same_text(name, "execute_cmd"))
        && trusted.trusted_commands.len() > 0 {
        let list = quote_patterns(trusted);
        let text = join_list(&list, " ");
        cat3("    * trusted by profile configuration: ", text.as_str(), "\n")
    } else {
        String::from_str("")
    }
}

fn filter_shown(names: &Vec<String>, dummy: &str) -> (res: Vec<String>)
    ensures
        texts(res@) == texts(names@).filter(shown(dummy@)),
{
    let ghost all = texts(names@);
    let ghost p = shown(dummy@);
    let mut out: Vec<String> = Vec::new();
    let mut i: usize = 0;
    proof {
        reveal(Seq::filter);
        assert(texts(out@) =~= all.take(0).filter(p));
    }
    while i < names.len()
        invariant
            i <= names@.len(),
            all == texts(names@),
            p == shown(dummy@),
            texts(out@) == all.take(i as int).filter(p),
        decreases names@.len() - i,
    {
        proof {
            reveal(Seq::filter);
            assert(all.take(i as int + 1).drop_last() =~= all.take(i as int));
            assert(all.take(i as int + 1).last() == names@[i as int]@);
        }
        if !same_text(names[i].as_str(), dummy) {
            let one = String::from_str(names[i].as_str());
            let ghost before = out@;
            out.push(one);
            proof {
                lemma_texts_push(before, one);
            }
        }
        i += 1;
    }
    assert(all.take(i as int) =~= all);
    out
}

proof fn lemma_sorted_member(names: Seq<Seq<char>>, p: spec_fn(Seq<char>) -> bool, i: int)
    requires
        0 <= i < sorted_texts(names.filter(p), false).len(),
    ensures
        names.contains(sorted_texts(names.filter(p), false)[i]),
{
    let kept = names.filter(p);
    let s = sorted_texts(kept, false);
    crate::order::lemma_sorted_texts_ensures(kept, false);
    s.to_multiset_ensures();
    kept.to_multiset_ensures();
    assert(s.contains(s[i]));
    assert(s.to_multiset().count(s[i]) > 0);
    assert(kept.contains(s[i]));
    let j = choose|j: int| 0 <= j < kept.len() && kept[j] == s[i];
    crate::context_laws::lemma_filter_from(names, p, j);
}

fn say_group(
    out: &mut Report,
    group: &ToolGroup,
    longest: usize,
    labels: &NameMap<String>,
    trusted: &TrustedCommandsConfig,
    dummy: &str,
)
    requires
        longest <= usize::MAX - 4,
        forall|j: int| 0 <= j < group.names@.len() ==> byte_len((#[trigger] group.names@[j])@) <= longest,
    ensures
        final(out)@ == old(out)@ + group_report(
            group@,
            (ListingText {
                longest: longest as nat,
                labels: labels@,
                trusted: trusted@,
                dummy: dummy@,
            }),
        ),
{
    let ghost t = ListingText {
        longest: longest as nat,
        labels: labels@,
        trusted: trusted@,
        dummy: dummy@,
    };
    let kept = filter_shown(&group.names, dummy);
    let names = sort_list(&kept, false);
    let ghost ns = texts(names@);
    let mut text = String::from_str("");
    let mut i: usize = 0;
    while i < names.len()
        invariant
            i <= names@.len(),
            ns == texts(names@),
            ns == sorted_texts(group@.names.filter(shown(dummy@)), false),
            longest <= usize::MAX - 4,
            forall|j: int|
                0 <= j < group.names@.len() ==> byte_len((#[trigger] group.names@[j])@) <= longest,
            text@ == tool_lines(ns, i as int, longest as nat, labels@, trusted@),
        decreases names@.len() - i,
    {
        let name: &str = names[i].as_str();
        proof {
            lemma_sorted_member(group@.names, shown(dummy@), i as int);
            let j = choose|j: int| 0 <= j < group@.names.len() && group@.names[j] == ns[i as int];
            assert(group.names@[j]@ == ns[i as int]);
        }
        let gap = repeat_char(' ', longest - bytes_in(name) + 4);
        let label = label_text(labels, name);
        let line = cat5("- ", name, gap.as_str(), label.as_str(), "\n");
        let more = trusted_line_text(name, trusted);
        let whole = cat2(line.as_str(), more.as_str());
        text.append(whole.as_str());
        i += 1;
    }
    let title = cat2(group.title.as_str(), ":\n");
    out.say_bold(Ink::Plain, title.as_str());
    out.say(Ink::Plain, text.as_str());
    out.say(Ink::Plain, "\n");
    assert(out@ =~= old(out)@ + group_report(group@, t));
}

fn server_names(groups: &Vec<ToolGroup>) -> (res: Vec<String>)
    ensures
        texts(res@) == servers(group_list(groups@), groups@.len() as int),
{
    let ghost g = group_list(groups@);
    let mut out: Vec<String> = Vec::new();
    let mut i: usize = 0;
    assert(texts(out@) =~= servers(g, 0));
    while i < groups.len()
        invariant
            i <= groups@.len(),
            g == group_list(groups@),
            texts(out@) == servers(g, i as int),
        decreases groups@.len() - i,
    {
        assert(g[i as int] == groups@[i as int]@);
        if let ToolOrigin::McpServer(s) = &groups[i].origin {
            let one = String::from_str(s.as_str());
            let ghost before = out@;
            out.push(one);
            proof {
                lemma_texts_push(before, one);
            }
        }
        i += 1;
    }
    out
}

fn position_of_server(groups: &Vec<ToolGroup>, server: &str) -> (res: usize)
    ensures
        res == find_server(group_list(groups@), server@, 0),
        res <= groups@.len(),
{
    let ghost g = group_list(groups@);
    let mut i: usize = 0;
    while i < groups.len()
        invariant
            i <= groups@.len(),
            g == group_list(groups@),
            find_server(g, server@, 0) == find_server(g, server@, i as int),
        decreases groups@.len() - i,
    {
        assert(g[i as int] == groups@[i as int]@);
        if let ToolOrigin::McpServer(s) = &groups[i].origin {
            if same_text(s.as_str(), server) {
                return i;
            }
        }
        i += 1;
    }
    i
}

fn say_loading(out: &mut Report, loading: &Vec<String>, width: usize)
    ensures
        final(out)@ == old(out)@ + loading_report(texts(loading@), width as nat),
{
    if loading.len() == 0 {
        assert(out@ =~= old(out)@ + loading_report(texts(loading@), width as nat));
        return;
    }
    let bar = repeat_char('▔', width);
    out.say_bold(Ink::Plain, "Servers still loading");
    let text = cat2("\n", bar.as_str());
    out.say(Ink::Plain, text.as_str());
    let ghost start = out@;
    let ghost all = Seq::new(
        texts(loading@).len(),
        |i: int| inked(Ink::Plain, " - "@ + texts(loading@)[i] + "\n"@),
    );
    let mut i: usize = 0;
    assert(start + all.take(0) =~= start);
    while i < loading.len()
        invariant
            i <= loading@.len(),
            all == Seq::new(
                texts(loading@).len(),
                |i: int| inked(Ink::Plain, " - "@ + texts(loading@)[i] + "\n"@),
            ),
            out@ == start + all.take(i as int),
        decreases loading@.len() - i,
    {
        let text = cat3(" - ", loading[i].as_str(), "\n");
        out.say(Ink::Plain, text.as_str());
        assert(all[i as int] == inked(Ink::Plain, text@));
        assert(start + all.take(i as int + 1) =~= (start + all.take(i as int)).push(all[i as int]));
        i += 1;
    }
    assert(all.take(i as int) =~= all);
    assert(out@ =~= old(out)@ + loading_report(texts(loading@), width as nat));
}

/// The trusted commands that are listed under a tool that runs commands.
pub open spec fn listed_trusted(manager: Option<&ContextManager>) -> Seq<TrustedText> {
    match manager {
        Some(m) => combined_trusted(m@.global.trusted_list(), m@.profile.trusted_list()),
        None => seq![],
    }
}

/// The listing of all tools. The longest name has at least two bytes, and its length leaves
/// room for the columns.
fn list_tools(l: &ToolsListing, manager: Option<&ContextManager>) -> (res: Report)
    requires
        2 <= longest_name(group_list(l.groups@), l.groups@.len() as int) <= usize::MAX - 4,
    ensures
        res@ == listing(
            group_list(l.groups@),
            listing_text(*l, listed_trusted(manager)),
            texts(l.loading@),
            l.terminal_width as nat,
        ),
{
    let ghost g = group_list(l.groups@);
    let trusted = match manager {
        Some(m) => m.get_combined_trusted_commands(),
        None => TrustedCommandsConfig::default(),
    };
    let ghost t = listing_text(*l, listed_trusted(manager));
    assert(t.trusted == trusted@);
    let longest: usize = find_longest(&l.groups);
    let mut out = Report::new();
    out.say(Ink::Plain, "\n");
    let gap = repeat_char(' ', longest + 2);
    let head = cat3("Tool", gap.as_str(), "Permission");
    out.say_bold(Ink::Plain, head.as_str());
    let bar = repeat_char('▔', l.terminal_width);
    let text = cat2("\n", bar.as_str());
    out.say(Ink::Plain, text.as_str());
    let ghost first = out@;
    let mut i: usize = 0;
    assert(first + native_reports(g, 0, t) =~= first);
    while i < l.groups.len()
        invariant
            i <= l.groups@.len(),
            g == group_list(l.groups@),
            longest <= usize::MAX - 4,
            t == (ListingText {
                longest: longest as nat,
                labels: l.labels@,
                trusted: trusted@,
                dummy: l.dummy@,
            }),
            forall|i: int, j: int|
                0 <= i < l.groups@.len() && 0 <= j < l.groups@[i].names@.len() ==> byte_len(
                    (#[trigger] l.groups@[i].names@[j])@,
                ) <= longest,
            out@ == first + native_reports(g, i as int, t),
        decreases l.groups@.len() - i,
    {
        assert(g[i as int] == l.groups@[i as int]@);
        let group = &l.groups[i];
        if let ToolOrigin::Native = &group.origin {
            assert forall|j: int| 0 <= j < group.names@.len() implies byte_len(
                (#[trigger] group.names@[j])@,
            ) <= longest by {
                assert(byte_len(l.groups@[i as int].names@[j]@) <= longest);
            }
            say_group(&mut out, group, longest, &l.labels, &trusted, l.dummy.as_str());
        }
        i += 1;
        assert(out@ =~= first + native_reports(g, i as int, t));
    }
    let ghost second = out@;
    let names = sort_list(&server_names(&l.groups), false);
    let ghost ns = texts(names@);
    let mut k: usize = 0;
    assert(second + server_reports(g, ns, 0, t) =~= second);
    while k < names.len()
        invariant
            k <= names@.len(),
            ns == texts(names@),
            g == group_list(l.groups@),
            longest <= usize::MAX - 4,
            t == (ListingText {
                longest: longest as nat,
                labels: l.labels@,
                trusted: trusted@,
                dummy: l.dummy@,
            }),
            forall|i: int, j: int|
                0 <= i < l.groups@.len() && 0 <= j < l.groups@[i].names@.len() ==> byte_len(
                    (#[trigger] l.groups@[i].names@[j])@,
                ) <= longest,
            out@ == second + server_reports(g, ns, k as int, t),
        decreases names@.len() - k,
    {
        let at: usize = position_of_server(&l.groups, names[k].as_str());
        assert(ns[k as int] == names@[k as int]@);
        if at < l.groups.len() {
            assert(g[at as int] == l.groups@[at as int]@);
            let group = &l.groups[at];
            assert forall|j: int| 0 <= j < group.names@.len() implies byte_len(
                (#[trigger] group.names@[j])@,
            ) <= longest by {
                assert(byte_len(l.groups@[at as int].names@[j]@) <= longest);
            }
            say_group(&mut out, group, longest, &l.labels, &trusted, l.dummy.as_str());
        }
        k += 1;
        assert(out@ =~= second + server_reports(g, ns, k as int, t));
    }
    say_loading(&mut out, &l.loading, l.terminal_width);
    out.say(Ink::Plain, "\nTrusted tools will run without confirmation.");
    out.say(Ink::DarkGrey, "\n* Default settings\n");
    out.say(Ink::DarkGrey, "\n💡 Use ");
    out.say(Ink::Green, "/tools help");
    out.say(Ink::DarkGrey, " to edit permissions.\n\n");
    assert(out@ =~= listing(g, t, texts(l.loading@), l.terminal_width as nat));
    out
}

impl ToolsArgs {
    /// Decides what `/tools` comes to: the subcommand, if there is one, else the listing of all
    /// tools. Where they are listed the longest name has at least two bytes, and its length leaves
    /// room for the columns.
    pub fn execute(
        self,
        l: &ToolsListing,
        manager: Option<&ContextManager>,
        session: &ToolsSession,
    ) -> (res: Result<ToolsAction, String>)
        requires
            self.subcommand is None ==> 2 <= longest_name(
                group_list(l.groups@),
                l.groups@.len() as int,
            ) <= usize::MAX - 4,
        ensures
            match self.subcommand {
                Some(subcommand) => action_result(res) == tools_action(subcommand, *session),
                None => action_result(res) == Ok::<ActionText, Seq<char>>(
                    ActionText::List(
                        listing(
                            group_list(l.groups@),
                            listing_text(*l, listed_trusted(manager)),
                            texts(l.loading@),
                            l.terminal_width as nat,
                        ),
                    ),
                ),
            },
    {
        match self.subcommand {
            Some(subcommand) => subcommand.execute(session),
            None => Ok(ToolsAction::List(list_tools(l, manager))),
        }
    }
}

} // verus!
