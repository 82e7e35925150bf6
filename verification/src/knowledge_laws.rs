//! What happens to background work on the knowledge base, and what is said of it.

use vstd::prelude::*;

use crate::knowledge::{
    all_cancelled, bar, bar_snapshot, begun, cancelled, duration_debug, duration_label, elapsed, ended,
    estimate_of, filled_places, find_context, fresh_progress, is_meant, operation_id, operation_lines,
    operation_name, operation_verb, path_description, percentage, progressed, remaining, remembered,
    removed_count, running_count, short_id, started_text, status_lines, status_report, text_description,
    ContextKey, ContextText, OperationText, OperationType, ProgressStatus, ProgressText, StatusText,
    WorkResult,
};
use crate::migration_laws::lemma_decimal_injective;
use crate::number::{byte_len, decimal};
use crate::text::repeated;
use crate::truncate::{formatted_output, law_truncated_fits, truncated};

verus! {

/// Work is remembered as it is exactly if it is running or began less than two minutes ago.
pub proof fn law_what_is_remembered(ops: Map<Seq<char>, OperationText>, now: u64, k: Seq<char>)
    ensures
        remembered(ops, now).contains_key(k) <==> ops.contains_key(k) && (ops[k].status is Running || now
            - ops[k].started_at < 120_000_000_000),
        remembered(ops, now).contains_key(k) ==> remembered(ops, now)[k] == ops[k],
{
}

/// Cancelling work changes nothing of it but how it stands; cancelling all work keeps every piece of
/// work, and changes exactly those that were running.
pub proof fn law_cancelled_work(ops: Map<Seq<char>, OperationText>, op: OperationText, k: Seq<char>)
    ensures
        cancelled(op).status is Cancelled,
        cancelled(op).name == op.name,
        cancelled(op).progress == op.progress,
        cancelled(op).started_at == op.started_at,
        all_cancelled(ops).contains_key(k) <==> ops.contains_key(k),
        ops.contains_key(k) && ops[k].status is Running ==> all_cancelled(ops)[k] == cancelled(ops[k]),
        ops.contains_key(k) && !(ops[k].status is Running) ==> all_cancelled(ops)[k] == ops[k],
{
}

/// Each piece of work that is running counts once.
pub proof fn law_running_work(ops: Seq<OperationText>, one: OperationText)
    ensures
        running_count(seq![], 0) == 0,
        running_count(ops.push(one), ops.len() as int + 1) == running_count(ops, ops.len() as int) + if one.status is Running {
            1int
        } else {
            0
        },
{
    lemma_running_prefix(ops, one, ops.len() as int);
}

proof fn lemma_running_prefix(ops: Seq<OperationText>, one: OperationText, n: int)
    requires
        0 <= n <= ops.len(),
    ensures
        running_count(ops.push(one), n) == running_count(ops, n),
    decreases n,
{
    if n > 0 {
        lemma_running_prefix(ops, one, n - 1);
    }
}

/// Each context that was removed counts once.
pub proof fn law_removed_contexts(removed: Seq<bool>, one: bool)
    ensures
        removed_count(seq![], 0) == 0,
        removed_count(removed.push(one), removed.len() as int + 1) == removed_count(
            removed,
            removed.len() as int,
        ) + if one {
            1int
        } else {
            0
        },
{
    lemma_removed_prefix(removed, one, removed.len() as int);
}

proof fn lemma_removed_prefix(removed: Seq<bool>, one: bool, n: int)
    requires
        0 <= n <= removed.len(),
    ensures
        removed_count(removed.push(one), n) == removed_count(removed, n),
    decreases n,
{
    if n > 0 {
        lemma_removed_prefix(removed, one, n - 1);
    }
}

/// A duration of `h` hours, `m` minutes and `s` seconds is shown by its two largest parts, of which
/// a second one that is nothing is left out.
pub proof fn law_durations(h: nat, m: nat, s: nat)
    requires
        m < 60,
        s < 60,
    ensures
        duration_label(s) == decimal(s) + "s"@,
        m > 0 ==> duration_label(m * 60 + s) == if s == 0 {
            decimal(m) + "m"@
        } else {
            decimal(m) + "m "@ + decimal(s) + "s"@
        },
        h > 0 ==> duration_label(h * 3600 + m * 60 + s) == if m == 0 {
            decimal(h) + "h"@
        } else {
            decimal(h) + "h "@ + decimal(m) + "m"@
        },
{
    let short = m * 60 + s;
    assert(short % 60 == s && short / 60 == m) by (nonlinear_arith)
        requires
            short == m * 60 + s,
            s < 60,
    ;
    let long = h * 3600 + m * 60 + s;
    assert(short < 3600);
    assert(long % 3600 == short && long / 3600 == h) by (nonlinear_arith)
        requires
            long == h * 3600 + short,
            short < 3600,
    ;
}

/// The percentage of work is what is done of what there is to be done, in hundredths and rounded
/// down; it is nothing where that is not known. Thirty places of a bar stand for all of it.
pub proof fn law_percentage(p: ProgressText)
    ensures
        p.total == 0 ==> percentage(p) == 0,
        p.total > 0 ==> percentage(p) * p.total <= p.current * 100 < (percentage(p) + 1) * p.total,
        filled_places(p) * 100 <= percentage(p) * 30 < (filled_places(p) + 1) * 100,
{
    if p.total > 0 {
        let a = p.current as int * 100;
        let t = p.total as int;
        let q = a / t;
        assert(q * t <= a < (q + 1) * t) by (nonlinear_arith)
            requires
                q == a / t,
                t > 0,
                a >= 0,
        ;
        assert(percentage(p) == q);
    }
}

/// Where work has begun and is not done, the last place that counts is shaded; all before it are
/// filled, and those after it empty.
pub proof fn law_bar_between(p: ProgressText, i: int)
    requires
        0 < percentage(p),
        0 < filled_places(p) < 30,
    ensures
        0 <= i < filled_places(p) - 1 ==> bar(p)[i] == '█',
        bar(p)[filled_places(p) - 1] == '▓',
        filled_places(p) <= i < 29 ==> bar(p)[i] == '░',
{
    reveal_strlit("▓");
}

/// Where work has only just begun, the first place is shaded and all others are empty; a bar that is
/// full has no shaded place, and neither has one of work that has not begun. In between the shaded
/// place stands for two, so that the bar is one place shorter.
pub proof fn law_ends_of_the_bar(p: ProgressText, i: int)
    requires
        filled_places(p) <= 30,
    ensures
        filled_places(p) == 0 || filled_places(p) == 30 || percentage(p) == 0 ==> bar(p).len() == 30,
        0 < filled_places(p) < 30 ==> bar(p).len() == 29,
        filled_places(p) == 0 && percentage(p) > 0 ==> bar(p)[0] == '▓' && (1 <= i < 30 ==> bar(p)[i] == '░'),
        filled_places(p) == 30 && 0 <= i < 30 ==> bar(p)[i] == '█',
        percentage(p) == 0 && 0 <= i < 30 ==> bar(p)[i] == '░',
{
    reveal_strlit("▓");
}

/// The remaining time is shown, as it was estimated, exactly while something is done and something is
/// left.
pub proof fn law_remaining_time(p: ProgressText, estimate: Option<u64>)
    ensures
        0 < p.current < p.total ==> remaining(p, estimate) == estimate,
        !(0 < p.current < p.total) ==> remaining(p, estimate) is None,
{
}

/// The progress is shown by its bar, the percentage, the two numbers where the total is known, and
/// the remaining time where there is one.
pub proof fn law_progress_is_shown(p: ProgressText, seconds: u64)
    ensures
        0 < p.current < p.total ==> bar_snapshot(p, Some(seconds)) == "["@ + bar(p) + "] "@ + decimal(
            percentage(p),
        ) + "%"@ + (" ("@ + decimal(p.current as nat) + "/"@ + decimal(p.total as nat) + (" (ETA: "@
            + duration_label(seconds as nat) + ")"@ + ")"@)),
        p.total == 0 ==> bar_snapshot(p, Some(seconds)) == "["@ + bar(p) + "] "@ + decimal(0) + "%"@ + ""@,
        p.total > 0 ==> bar_snapshot(p, None) == "["@ + bar(p) + "] "@ + decimal(percentage(p)) + "%"@ + (
        " ("@ + decimal(p.current as nat) + "/"@ + decimal(p.total as nat) + (""@ + ")"@)),
{
}

/// News of work changes neither its name nor when it began. It ends the work exactly if it says that
/// the indexing is complete; then all that there was to be done is done. The time of a phase begins
/// anew with the indexing.
pub proof fn law_news_of_work(op: OperationText, status: ProgressStatus, now: u64)
    ensures
        ({
            let next = progressed(op, status, now);
            &&& next.name == op.name
            &&& next.started_at == op.started_at
            &&& next.progress.last_updated == now
            &&& next.status == if status is Complete {
                StatusText::Completed
            } else {
                op.status
            }
            &&& next.progress.started_at == if status is StartingIndexing {
                now
            } else {
                op.progress.started_at
            }
            &&& (next.progress.current, next.progress.total) == match status {
                ProgressStatus::StartingIndexing(n) => (0, n),
                ProgressStatus::Indexing(i, n) => (i, n),
                ProgressStatus::GeneratingEmbeddings(i, n) => (i, n),
                ProgressStatus::Complete => (op.progress.total, op.progress.total),
                _ => (0, 0),
            }
        }),
{
}

/// What the work is at is told in words.
pub proof fn law_news_in_words(op: OperationText, i: u64, n: u64, now: u64)
    ensures
        progressed(op, ProgressStatus::CountingFiles, now).progress.message == "Counting files..."@,
        progressed(op, ProgressStatus::StartingIndexing(n), now).progress.message
            == "Starting indexing ("@ + decimal(n as nat) + " files)"@,
        progressed(op, ProgressStatus::Indexing(i, n), now).progress.message == "Indexing files ("@ + decimal(
            i as nat,
        ) + "/"@ + decimal(n as nat) + ")"@,
        progressed(op, ProgressStatus::CreatingSemanticContext, now).progress.message
            == "Creating semantic context..."@,
        progressed(op, ProgressStatus::GeneratingEmbeddings(i, n), now).progress.message
            == "Generating embeddings ("@ + decimal(i as nat) + "/"@ + decimal(n as nat) + ")"@,
        progressed(op, ProgressStatus::BuildingIndex, now).progress.message == "Building vector index..."@,
        progressed(op, ProgressStatus::Finalizing, now).progress.message == "Finalizing index..."@,
        progressed(op, ProgressStatus::Complete, now).progress.message == "Indexing complete!"@,
{
}

/// Work that ends is completed, cancelled or failed as its result says, with the reason; it is not
/// running any more, and how far it came stays.
pub proof fn law_end_of_work(op: OperationText, result: WorkResult)
    ensures
        ({
            let next = ended(op, result);
            &&& next.name == op.name
            &&& next.started_at == op.started_at
            &&& next.progress.current == op.progress.current
            &&& next.progress.total == op.progress.total
            &&& next.status == match result {
                WorkResult::Done => StatusText::Completed,
                WorkResult::Failed(e) => StatusText::Failed(e@),
                WorkResult::Cancelled => StatusText::Cancelled,
                WorkResult::Broken(e) => StatusText::Failed("Task failed: "@ + e@),
            }
            &&& next.progress.message == match result {
                WorkResult::Done => "Successfully completed indexing"@,
                WorkResult::Failed(e) => "Failed: "@ + e@,
                WorkResult::Cancelled => "Operation was cancelled"@,
                WorkResult::Broken(e) => "Task failed: "@ + e@,
            }
        }),
{
}

/// Work that begins is running, with nothing done, from this moment on.
pub proof fn law_begin_of_work(name: Seq<char>, now: u64)
    ensures
        begun(name, now).name == name,
        begun(name, now).status is Running,
        begun(name, now).started_at == now,
        begun(name, now).progress == fresh_progress(now),
        fresh_progress(now).current == 0,
        fresh_progress(now).total == 0,
        fresh_progress(now).started_at == now,
        fresh_progress(now).last_updated == now,
        fresh_progress(now).message == "Starting..."@,
{
}

/// What is done with a context is told by its name: it is indexed or updated.
pub proof fn law_kinds_of_work(name: String)
    ensures
        operation_name(OperationType::Indexing { name }) == "Indexing "@ + name@,
        operation_name(OperationType::Updating { name }) == "Updating "@ + name@,
        operation_verb(OperationType::Indexing { name }) == "indexing"@,
        operation_verb(OperationType::Updating { name }) == "updating"@,
        path_description(name@) == "Knowledge context for "@ + name@,
{
}

/// Work that begins at different times has different identifiers.
pub proof fn law_identifiers_differ(a: nat, b: nat)
    ensures
        operation_id(a) == operation_id(b) <==> a == b,
        operation_id(a) == "op_"@ + decimal(a),
{
    if operation_id(a) == operation_id(b) {
        let n = "op_"@.len() as int;
        assert(operation_id(a).skip(n) =~= decimal(a));
        assert(operation_id(b).skip(n) =~= decimal(b));
        lemma_decimal_injective(a, b);
    }
}

/// The beginning of work is told with what is done, the name, and the first bytes of the identifier.
pub proof fn law_begin_is_told(verb: Seq<char>, name: Seq<char>, id: Seq<char>)
    ensures
        started_text(verb, name, id) == ("🚀 Started "@ + verb + " '"@ + name
            + "' in background.\n📊 Use '/knowledge status' to check progress.\n🆔 Operation ID: "@)
            + short_id(id),
        byte_len(short_id(id)) <= 8,
        short_id(id).is_prefix_of(id),
{
    law_truncated_fits(id, 8);
}

/// A text is described by its first forty characters, or by all of it.
pub proof fn law_texts_are_described(a: Seq<char>, b: Seq<char>)
    requires
        a.len() == 40,
    ensures
        text_description(a + b) == "Text knowledge "@ + a + "..."@,
        b.len() <= 40 ==> text_description(b) == "Text knowledge "@ + b + "..."@,
{
    if b.len() > 0 {
        assert((a + b).take(40) =~= a);
    } else {
        assert(a + b =~= a);
    }
}

/// The first context that has the identifier, the name or the source that is asked for is meant.
pub proof fn law_context_is_found(list: Seq<ContextText>, key: ContextKey, from: int)
    requires
        0 <= from <= list.len(),
    ensures
        from <= find_context(list, key, from) <= list.len(),
        forall|i: int|
            from <= i < find_context(list, key, from) ==> match key {
                ContextKey::Id(s) => (#[trigger] list[i]).id != s@,
                ContextKey::Name(s) => list[i].name != s@,
                ContextKey::Path(s) => list[i].source != Some(s@),
            },
        find_context(list, key, from) < list.len() ==> match key {
            ContextKey::Id(s) => list[find_context(list, key, from)].id == s@,
            ContextKey::Name(s) => list[find_context(list, key, from)].name == s@,
            ContextKey::Path(s) => list[find_context(list, key, from)].source == Some(s@),
        },
    decreases list.len() - from,
{
    if from < list.len() && !is_meant(list[from], key) {
        law_context_is_found(list, key, from + 1);
    }
}

/// Running work is listed with its progress, what it is at, and how long it has run; work that has
/// ended with how it ended.
pub proof fn law_work_is_listed(id: Seq<char>, op: OperationText, estimate: Option<u64>, time: Seq<char>)
    ensures
        operation_lines(id, op, estimate, time) == (match op.status {
            StatusText::Running => "🔄"@,
            StatusText::Completed => "✅"@,
            StatusText::Failed(_) => "❌"@,
            StatusText::Cancelled => "🛑"@,
        } + " "@ + op.name + " ("@ + short_id(id)) + (match op.status {
            StatusText::Running => ")\n   "@ + bar_snapshot(op.progress, estimate) + "\n"@ + (("   📝 "@
                + op.progress.message + "\n"@) + ("   ⏱️  Duration: "@ + time + "\n"@)) + (
            "   📊 Status: "@ + "Running"@ + "\n"@),
            StatusText::Completed => ")\n   "@ + "[██████████████████████████████] 100%"@ + "\n"@ + (""@
                + ""@) + ("   📊 Status: "@ + "Completed"@ + "\n"@),
            StatusText::Failed(e) => ")\n   "@ + "[░░░░░░░░░░░░░░░░░░░░░░░░░░░░░░] Failed"@ + "\n"@ + (""@
                + ""@) + ("   📊 Status: "@ + ("Failed: "@ + e) + "\n"@),
            StatusText::Cancelled => ")\n   "@ + "[░░░░░░░░░░░░░░░░░░░░░░░░░░░░░░] Cancelled"@ + "\n"@ + (
            ""@ + ""@) + ("   📊 Status: "@ + "Cancelled"@ + "\n"@),
        }),
{
}

/// The status lists each piece of work after those before it, with the time that was estimated for
/// it and the time since it began; without any it says so.
pub proof fn law_status(
    ids: Seq<Seq<char>>,
    ops: Seq<OperationText>,
    id: Seq<char>,
    op: OperationText,
    estimates: Map<Seq<char>, u64>,
    now: u64,
)
    requires
        ids.len() == ops.len(),
        op.started_at <= now,
    ensures
        status_report(seq![], seq![], estimates, now) == "No background operations running."@,
        status_report(ids.push(id), ops.push(op), estimates, now) == "📚 Knowledge Operations Status:\n"@
            + (repeated('━', 80) + "\n"@) + (status_lines(ids, ops, ids.len() as int, estimates, now)
            + operation_lines(
            id,
            op,
            if estimates.contains_key(id) {
                Some(estimates[id])
            } else {
                None
            },
            duration_debug((now - op.started_at) as u64),
        )),
        elapsed(now, op.started_at) == 0,
{
    lemma_status_prefix(ids, ops, id, op, ids.len() as int, estimates, now);
    assert(estimate_of(estimates, id) == if estimates.contains_key(id) {
        Some(estimates[id])
    } else {
        None
    });
}

proof fn lemma_status_prefix(
    ids: Seq<Seq<char>>,
    ops: Seq<OperationText>,
    id: Seq<char>,
    op: OperationText,
    n: int,
    estimates: Map<Seq<char>, u64>,
    now: u64,
)
    requires
        ids.len() == ops.len(),
        0 <= n <= ids.len(),
    ensures
        status_lines(ids.push(id), ops.push(op), n, estimates, now) == status_lines(ids, ops, n, estimates, now),
    decreases n,
{
    if n > 0 {
        lemma_status_prefix(ids, ops, id, op, n - 1, estimates, now);
    }
}

/// Output is kept whole where it fits; else its longest beginning that fits is kept, and it is said
/// that something was cut.
pub proof fn law_output_is_cut(output: Seq<char>, max: nat)
    ensures
        byte_len(output) <= max ==> formatted_output(output, max) == output + ""@,
        byte_len(output) > max ==> formatted_output(output, max) == truncated(output, max)
            + " ... truncated"@,
{
    law_truncated_fits(output, max);
}

} // verus!
