//! The knowledge base: background work on it, its progress, and what is said of both.

use vstd::prelude::*;
use vstd::utf8::{is_ascii_chars, is_ascii_chars_encode_utf8};

use crate::name_map::{lemma_find_name, NameMap};
use crate::number::{byte_len, decimal, decimal_text, size_text};
use crate::text::{
    cat2, cat3, cat4, cat5, chars_of, option_text, repeat_char, repeated, same_text, string_from,
};
use crate::truncate::{law_truncated_fits, truncate_safe, truncated};

verus! {

/// What background work does.
#[derive(Debug)]
pub enum OperationType {
    /// It adds a context.
    Indexing { name: String },
    /// It renews a context.
    Updating { name: String },
}

/// How background work is called.
pub open spec fn operation_name(t: OperationType) -> Seq<char> {
    match t {
        OperationType::Indexing { name } => "Indexing "@ + name@,
        OperationType::Updating { name } => "Updating "@ + name@,
    }
}

impl OperationType {
    /// How the work is called.
    pub fn display_name(&self) -> (res: String)
        ensures
            res@ == operation_name(*self),
    {
        match self {
            OperationType::Indexing { name } => cat2("Indexing ", name.as_str()),
            OperationType::Updating { name } => cat2("Updating ", name.as_str()),
        }
    }
}

/// How background work stands.
#[derive(Debug)]
pub enum OperationStatus {
    /// It goes on.
    Running,
    /// It succeeded.
    Completed,
    /// It failed, for this reason.
    Failed(String),
    /// It was cancelled.
    Cancelled,
}

/// How far background work has come. Times are in nanoseconds since some fixed moment.
#[derive(Debug)]
pub struct ProgressInfo {
    /// What is done.
    pub current: u64,
    /// What there is to be done, or zero where that is not known.
    pub total: u64,
    /// What the work is at.
    pub message: String,
    /// When this was last told.
    pub last_updated: u64,
    /// When this phase of the work began.
    pub started_at: u64,
}

/// What a progress holds.
pub struct ProgressText {
    pub current: u64,
    pub total: u64,
    pub message: Seq<char>,
    pub last_updated: u64,
    pub started_at: u64,
}

impl View for ProgressInfo {
    type V = ProgressText;

    open spec fn view(&self) -> ProgressText {
        ProgressText {
            current: self.current,
            total: self.total,
            message: self.message@,
            last_updated: self.last_updated,
            started_at: self.started_at,
        }
    }
}

/// The progress of work that begins.
pub open spec fn fresh_progress(now: u64) -> ProgressText {
    ProgressText { current: 0, total: 0, message: "Starting..."@, last_updated: now, started_at: now }
}

impl ProgressText {
    /// The progress after news of it.
    pub open spec fn updated(self, current: u64, total: u64, message: Seq<char>, now: u64) -> ProgressText {
        ProgressText { current, total, message, last_updated: now, started_at: self.started_at }
    }
}

impl ProgressInfo {
    /// The progress of work that begins.
    pub fn new(now: u64) -> (res: Self)
        ensures
            res@ == fresh_progress(now),
    {
        ProgressInfo {
            current: 0,
            total: 0,
            message: String::from_str("Starting..."),
            last_updated: now,
            started_at: now,
        }
    }

    /// Takes note of news.
    pub fn update(&mut self, current: u64, total: u64, message: String, now: u64)
        ensures
            final(self)@ == old(self)@.updated(current, total, message@, now),
    {
        self.current = current;
        self.total = total;
        self.message = message;
        self.last_updated = now;
    }

    /// The time that remains, by the `estimate` that was made from the time that passed: there is
    /// none before the first step, nor after the last, nor where the number of steps is not known.
    pub fn calculate_eta(&self, estimate: Option<u64>) -> (res: Option<u64>)
        ensures
            res == remaining(self@, estimate),
    {
        if self.current == 0 || self.total == 0 || self.current >= self.total {
            None
        } else {
            estimate
        }
    }
}

/// The time that remains, by an estimate.
pub open spec fn remaining(p: ProgressText, estimate: Option<u64>) -> Option<u64> {
    if p.current == 0 || p.total == 0 || p.current >= p.total {
        None
    } else {
        estimate
    }
}

/// Background work.
#[derive(Debug)]
pub struct BackgroundOperation {
    /// What it does.
    pub operation_type: OperationType,
    /// How it stands.
    pub status: OperationStatus,
    /// How far it has come.
    pub progress: ProgressInfo,
    /// When it began.
    pub started_at: u64,
}

/// Seconds as they are shown.
pub open spec fn duration_label(seconds: nat) -> Seq<char> {
    if seconds < 60 {
        decimal(seconds) + "s"@
    } else if seconds < 3600 {
        if seconds % 60 == 0 {
            decimal(seconds / 60) + "m"@
        } else {
            decimal(seconds / 60) + "m "@ + decimal(seconds % 60) + "s"@
        }
    } else if (seconds % 3600) / 60 == 0 {
        decimal(seconds / 3600) + "h"@
    } else {
        decimal(seconds / 3600) + "h "@ + decimal((seconds % 3600) / 60) + "m"@
    }
}

/// Seconds as they are shown.
pub fn format_duration(total_seconds: u64) -> (res: String)
    ensures
        res@ == duration_label(total_seconds as nat),
{
    if total_seconds < 60 {
        let s = decimal_text(total_seconds);
        cat2(s.as_str(), "s")
    } else if total_seconds < 3600 {
        let m = decimal_text(total_seconds / 60);
        if total_seconds % 60 == 0 {
            cat2(m.as_str(), "m")
        } else {
            let s = decimal_text(total_seconds % 60);
            cat4(m.as_str(), "m ", s.as_str(), "s")
        }
    } else {
        let h = decimal_text(total_seconds / 3600);
        if (total_seconds % 3600) / 60 == 0 {
            cat2(h.as_str(), "h")
        } else {
            let m = decimal_text((total_seconds % 3600) / 60);
            cat4(h.as_str(), "h ", m.as_str(), "m")
        }
    }
}

/// How much is done, in percent.
pub open spec fn percentage(p: ProgressText) -> nat {
    if p.total > 0 {
        (p.current as nat * 100) / (p.total as nat)
    } else {
        0
    }
}

/// How many of the thirty places of a bar are filled.
pub open spec fn filled_places(p: ProgressText) -> nat {
    (percentage(p) * 30) / 100
}

/// The bar: filled places, with a shaded one at the border, and empty places.
pub open spec fn bar(p: ProgressText) -> Seq<char> {
    let filled = filled_places(p);
    let empty = (30 - filled) as nat;
    if filled < 30 && percentage(p) > 0 {
        repeated(
            '█',
            if filled > 0 {
                (filled - 1) as nat
            } else {
                0
            },
        ) + "▓"@ + repeated(
            '░',
            if empty > 0 {
                (empty - 1) as nat
            } else {
                0
            },
        )
    } else {
        repeated('█', filled) + repeated('░', empty)
    }
}

/// The progress as it is shown.
pub open spec fn bar_snapshot(p: ProgressText, estimate: Option<u64>) -> Seq<char> {
    let eta = match remaining(p, estimate) {
        Some(s) => " (ETA: "@ + duration_label(s as nat) + ")"@,
        None => ""@,
    };
    let head = "["@ + bar(p) + "] "@ + decimal(percentage(p)) + "%"@;
    if p.total > 0 {
        head + (" ("@ + decimal(p.current as nat) + "/"@ + decimal(p.total as nat) + (eta + ")"@))
    } else {
        head + eta
    }
}

/// Whether a progress can be shown: its numbers are not too large, and not far beyond the total.
pub open spec fn can_be_shown(p: ProgressText) -> bool {
    p.current * 100 <= u64::MAX && percentage(p) * 30 <= u64::MAX && filled_places(p) <= 30
}

/// The progress as it is shown, with the remaining time in seconds as it was estimated.
pub fn create_progress_bar_snapshot(progress: &ProgressInfo, estimate: Option<u64>) -> (res: String)
    requires
        can_be_shown(progress@),
    ensures
        res@ == bar_snapshot(progress@, estimate),
{
    let percent: u64 = if progress.total > 0 {
        (progress.current * 100) / progress.total
    } else {
        0
    };
    let filled: u64 = (percent * 30) / 100;
    let empty: u64 = 30 - filled;
    let shape = if filled < 30 && percent > 0 {
        let full = repeat_char(
            '█',
            if filled > 0 {
                (filled - 1) as usize
            } else {
                0
            },
        );
        let rest = repeat_char(
            '░',
            if empty > 0 {
                (empty - 1) as usize
            } else {
                0
            },
        );
        cat3(full.as_str(), "▓", rest.as_str())
    } else {
        let full = repeat_char('█', filled as usize);
        let rest = repeat_char('░', empty as usize);
        cat2(full.as_str(), rest.as_str())
    };
    let eta = match progress.calculate_eta(estimate) {
        Some(s) => {
            let t = format_duration(s);
            cat3(" (ETA: ", t.as_str(), ")")
        },
        None => String::from_str(""),
    };
    let number = decimal_text(percent);
    let head = cat5("[", shape.as_str(), "] ", number.as_str(), "%");
    if progress.total > 0 {
        let current = decimal_text(progress.current);
        let total = decimal_text(progress.total);
        let end = cat2(eta.as_str(), ")");
        let counts = cat5(" (", current.as_str(), "/", total.as_str(), end.as_str());
        cat2(head.as_str(), counts.as_str())
    } else {
        cat2(head.as_str(), eta.as_str())
    }
}

/// A bar has thirty places; where the shaded one takes the place of a filled one and of an empty
/// one it has one less.
pub proof fn law_bar_width(p: ProgressText)
    requires
        can_be_shown(p),
    ensures
        bar(p).len() == if 0 < filled_places(p) < 30 {
            29int
        } else {
            30
        },
{
    reveal_strlit("▓");
}

/// Work that is done shows a full bar, and work that has not begun an empty one.
pub proof fn law_bar_ends(p: ProgressText)
    requires
        p.current * 100 <= u64::MAX,
    ensures
        p.current == p.total && p.total > 0 ==> bar(p) == repeated('█', 30) && percentage(p) == 100,
        p.current == 0 ==> bar(p) == repeated('░', 30),
{
    if p.current == p.total && p.total > 0 {
        assert((p.current as nat * 100) / (p.total as nat) == 100) by (nonlinear_arith)
            requires
                p.current == p.total,
                p.total > 0,
        ;
        assert(bar(p) =~= repeated('█', 30));
    }
    if p.current == 0 {
        if p.total > 0 {
            assert((0nat * 100) / (p.total as nat) == 0) by (nonlinear_arith)
                requires
                    p.total > 0,
            ;
        }
        assert(bar(p) =~= repeated('░', 30));
    }
}


/// What background work holds.
pub struct OperationText {
    pub name: Seq<char>,
    pub status: StatusText,
    pub progress: ProgressText,
    pub started_at: u64,
}

/// How background work stands, as text.
pub enum StatusText {
    Running,
    Completed,
    Failed(Seq<char>),
    Cancelled,
}

impl View for OperationStatus {
    type V = StatusText;

    open spec fn view(&self) -> StatusText {
        match self {
            OperationStatus::Running => StatusText::Running,
            OperationStatus::Completed => StatusText::Completed,
            OperationStatus::Failed(e) => StatusText::Failed(e@),
            OperationStatus::Cancelled => StatusText::Cancelled,
        }
    }
}

impl View for BackgroundOperation {
    type V = OperationText;

    open spec fn view(&self) -> OperationText {
        OperationText {
            name: operation_name(self.operation_type),
            status: self.status@,
            progress: self.progress@,
            started_at: self.started_at,
        }
    }
}

/// What a list of work holds.
pub open spec fn operation_list(v: Seq<BackgroundOperation>) -> Seq<OperationText> {
    Seq::new(v.len(), |i: int| v[i]@)
}

/// The knowledge base, as far as its background work goes.
#[derive(Debug)]
pub struct KnowledgeStore {
    /// The work by its identifier.
    pub background_operations: NameMap<BackgroundOperation>,
}

/// How long work that has ended is remembered, in nanoseconds.
pub const CLEANUP_THRESHOLD: u64 = 120_000_000_000;

/// Whether work is still remembered.
pub open spec fn is_kept(op: OperationText, now: u64) -> bool {
    op.status is Running || now < op.started_at + CLEANUP_THRESHOLD
}

/// How standard Rust shows a duration of so many nanoseconds with `{:?}`.
pub uninterp spec fn duration_debug(nanoseconds: u64) -> Seq<char>;

/// The text of a `std::time::Duration` as its `Debug` implementation writes it. What is claimed:
/// it depends on the duration alone.
#[verifier::external_body]
fn debug_text(nanoseconds: u64) -> (res: String)
    ensures
        res@ == duration_debug(nanoseconds),
{
    format!("{:?}", std::time::Duration::from_nanos(nanoseconds))
}

/// The time from one moment to another; none where the second comes first.
pub open spec fn elapsed(from: u64, to: u64) -> u64 {
    if to >= from {
        (to - from) as u64
    } else {
        0
    }
}

/// The beginning of an identifier.
pub open spec fn short_id(id: Seq<char>) -> Seq<char> {
    truncated(id, 8)
}

/// Whether an identifier has a character that ends after eight bytes, or fewer bytes.
pub open spec fn is_plain_id(id: Seq<char>) -> bool {
    byte_len(id) >= 8 ==> byte_len(truncated(id, 8)) == 8
}

/// The lines of one piece of work, where `running_time` is how long it has run, as it is shown.
pub open spec fn operation_lines(
    id: Seq<char>,
    op: OperationText,
    estimate: Option<u64>,
    running_time: Seq<char>,
) -> Seq<char> {
    let icon = match op.status {
        StatusText::Running => "🔄"@,
        StatusText::Completed => "✅"@,
        StatusText::Failed(_) => "❌"@,
        StatusText::Cancelled => "🛑"@,
    };
    let shown = match op.status {
        StatusText::Running => bar_snapshot(op.progress, estimate),
        StatusText::Completed => "[██████████████████████████████] 100%"@,
        StatusText::Failed(_) => "[░░░░░░░░░░░░░░░░░░░░░░░░░░░░░░] Failed"@,
        StatusText::Cancelled => "[░░░░░░░░░░░░░░░░░░░░░░░░░░░░░░] Cancelled"@,
    };
    let details = match op.status {
        StatusText::Running => ("   📝 "@ + op.progress.message + "\n"@) + ("   ⏱️  Duration: "@
            + running_time + "\n"@),
        _ => ""@ + ""@,
    };
    let status = match op.status {
        StatusText::Running => "Running"@,
        StatusText::Completed => "Completed"@,
        StatusText::Failed(e) => "Failed: "@ + e,
        StatusText::Cancelled => "Cancelled"@,
    };
    (icon + " "@ + op.name + " ("@ + short_id(id)) + (")\n   "@ + shown + "\n"@ + details + (
    "   📊 Status: "@ + status + "\n"@))
}

/// The remaining time of work in seconds, where one was estimated.
pub open spec fn estimate_of(estimates: Map<Seq<char>, u64>, id: Seq<char>) -> Option<u64> {
    if estimates.contains_key(id) {
        Some(estimates[id])
    } else {
        None
    }
}

/// The lines of the first `n` pieces of work.
pub open spec fn status_lines(
    ids: Seq<Seq<char>>,
    ops: Seq<OperationText>,
    n: int,
    estimates: Map<Seq<char>, u64>,
    now: u64,
) -> Seq<char>
    decreases n,
{
    if n <= 0 {
        ""@
    } else {
        status_lines(ids, ops, n - 1, estimates, now) + operation_lines(
            ids[n - 1],
            ops[n - 1],
            estimate_of(estimates, ids[n - 1]),
            duration_debug(elapsed(ops[n - 1].started_at, now)),
        )
    }
}

/// What is said of background work.
pub open spec fn status_report(
    ids: Seq<Seq<char>>,
    ops: Seq<OperationText>,
    estimates: Map<Seq<char>, u64>,
    now: u64,
) -> Seq<char> {
    if ids.len() == 0 {
        "No background operations running."@
    } else {
        "📚 Knowledge Operations Status:\n"@ + (repeated('━', 80) + "\n"@) + status_lines(
            ids,
            ops,
            ids.len() as int,
            estimates,
            now,
        )
    }
}

fn operation_text(id: &str, op: &BackgroundOperation, estimate: Option<u64>, running_time: &str) -> (res: String)
    requires
        op@.status is Running ==> can_be_shown(op@.progress),
    ensures
        res@ == operation_lines(id@, op@, estimate, running_time@),
{
    let icon: &str = match &op.status {
        OperationStatus::Running => "🔄",
        OperationStatus::Completed => "✅",
        OperationStatus::Failed(_) => "❌",
        OperationStatus::Cancelled => "🛑",
    };
    let shown = match &op.status {
        OperationStatus::Running => create_progress_bar_snapshot(&op.progress, estimate),
        OperationStatus::Completed => String::from_str("[██████████████████████████████] 100%"),
        OperationStatus::Failed(_) => String::from_str("[░░░░░░░░░░░░░░░░░░░░░░░░░░░░░░] Failed"),
        OperationStatus::Cancelled => String::from_str("[░░░░░░░░░░░░░░░░░░░░░░░░░░░░░░] Cancelled"),
    };
    let details = match &op.status {
        OperationStatus::Running => {
            let m = cat3("   📝 ", op.progress.message.as_str(), "\n");
            let d = cat3("   ⏱️  Duration: ", running_time, "\n");
            cat2(m.as_str(), d.as_str())
        },
        _ => cat2("", ""),
    };
    let status = match &op.status {
        OperationStatus::Running => String::from_str("Running"),
        OperationStatus::Completed => String::from_str("Completed"),
        OperationStatus::Failed(e) => cat2("Failed: ", e.as_str()),
        OperationStatus::Cancelled => String::from_str("Cancelled"),
    };
    let name = op.operation_type.display_name();
    let short = truncate_safe(id, 8);
    let head = cat5(icon, " ", name.as_str(), " (", short.as_str());
    let last = cat3("   📊 Status: ", status.as_str(), "\n");
    let tail = cat5(")\n   ", shown.as_str(), "\n", details.as_str(), last.as_str());
    cat2(head.as_str(), tail.as_str())
}

/// Whether work can be shown.
pub open spec fn can_be_listed(ops: Map<Seq<char>, OperationText>) -> bool {
    forall|k: Seq<char>| #[trigger]
        ops.contains_key(k) ==> is_plain_id(k) && (ops[k].status is Running ==> can_be_shown(
            ops[k].progress,
        ))
}

/// Whether each piece of work stands in a list, under its identifier, exactly once.
pub open spec fn lists_once(
    ops: Map<Seq<char>, OperationText>,
    ids: Seq<Seq<char>>,
    list: Seq<OperationText>,
) -> bool {
    &&& ids.no_duplicates()
    &&& ids.len() == list.len()
    &&& forall|k: Seq<char>| #[trigger] ops.contains_key(k) <==> ids.contains(k)
    &&& forall|i: int| 0 <= i < ids.len() ==> list[i] == ops[#[trigger] ids[i]]
}

impl KnowledgeStore {
    /// No identifier occurs twice.
    pub open spec fn well_formed(&self) -> bool {
        self.background_operations.well_formed()
    }

    /// The base without background work.
    pub fn new() -> (res: Self)
        ensures
            res.well_formed(),
            res@ == Map::<Seq<char>, OperationText>::empty(),
    {
        let res = KnowledgeStore { background_operations: NameMap::new() };
        assert(res@ =~= Map::<Seq<char>, OperationText>::empty());
        res
    }

    /// The lists of a base without repetition hold each piece of work once.
    proof fn lemma_lists_once(&self)
        requires
            self.well_formed(),
        ensures
            lists_once(
                self@,
                self.background_operations.keys(),
                operation_list(self.background_operations.values()),
            ),
    {
        let ops = self.background_operations;
        let ids = ops.keys();
        ops.lemma_lookup();
        assert forall|k: Seq<char>| #[trigger] self@.contains_key(k) <==> ids.contains(k) by {
            assert(ops@.contains_key(k) <==> ids.contains(k));
        }
        assert forall|i: int| 0 <= i < ids.len() implies operation_list(ops.values())[i] == self@[#[trigger] ids[i]] by {
            assert(ids.contains(ids[i]));
            assert(ops@.contains_key(ids[i]));
        }
    }

    /// Forgets work that ended some time ago, and says what is going on at the moment `now`: each
    /// piece of work that is left is reported once. The `estimates` are remaining times in seconds,
    /// by identifier.
    pub fn get_status(&mut self, estimates: &NameMap<u64>, now: u64) -> (res: String)
        requires
            old(self).well_formed(),
            can_be_listed(remembered(old(self)@, now)),
        ensures
            final(self).well_formed(),
            final(self)@ == remembered(old(self)@, now),
            lists_once(
                final(self)@,
                final(self).background_operations.keys(),
                operation_list(final(self).background_operations.values()),
            ),
            res@ == status_report(
                final(self).background_operations.keys(),
                operation_list(final(self).background_operations.values()),
                estimates@,
                now,
            ),
    {
        self.clean_up(now);
        proof {
            self.lemma_lists_once();
        }
        let ops = &self.background_operations;
        if ops.len() == 0 {
            return String::from_str("No background operations running.");
        }
        let ghost kept = self@;
        let ghost ids = ops.keys();
        let ghost list = operation_list(ops.values());
        let line = repeat_char('━', 80);
        let bar_line = cat2(line.as_str(), "\n");
        let head = cat2("📚 Knowledge Operations Status:\n", bar_line.as_str());
        let mut text = String::from_str("");
        let mut i: usize = 0;
        while i < ops.len()
            invariant
                i <= ids.len(),
                ids == ops.keys(),
                list == operation_list(ops.values()),
                lists_once(kept, ids, list),
                can_be_listed(kept),
                text@ == status_lines(ids, list, i as int, estimates@, now),
            decreases ids.len() - i,
        {
            let op = ops.value_at(i);
            let id: &str = ops.key_at(i);
            assert(list[i as int] == op@);
            assert(ids.contains(id@));
            assert(kept.contains_key(id@));
            let passed: u64 = if now >= op.started_at {
                now - op.started_at
            } else {
                0
            };
            let estimate: Option<u64> = match estimates.get(id) {
                Some(e) => Some(*e),
                None => None,
            };
            let running_time = debug_text(passed);
            let part = operation_text(id, op, estimate, running_time.as_str());
            text.append(part.as_str());
            i += 1;
        }
        cat2(head.as_str(), text.as_str())
    }
}

/// What named work holds.
pub open spec fn operation_map(m: Map<Seq<char>, BackgroundOperation>) -> Map<Seq<char>, OperationText> {
    Map::new(|k: Seq<char>| m.contains_key(k), |k: Seq<char>| m[k]@)
}

impl View for KnowledgeStore {
    type V = Map<Seq<char>, OperationText>;

    open spec fn view(&self) -> Map<Seq<char>, OperationText> {
        operation_map(self.background_operations@)
    }
}

/// The work that is still remembered.
pub open spec fn remembered(ops: Map<Seq<char>, OperationText>, now: u64) -> Map<Seq<char>, OperationText> {
    Map::new(|k: Seq<char>| ops.contains_key(k) && is_kept(ops[k], now), |k: Seq<char>| ops[k])
}

/// What the indexer tells of its progress.
#[derive(Debug, Clone, Copy, PartialEq, Eq, Structural)]
pub enum ProgressStatus {
    CountingFiles,
    StartingIndexing(u64),
    Indexing(u64, u64),
    CreatingSemanticContext,
    GeneratingEmbeddings(u64, u64),
    BuildingIndex,
    Finalizing,
    Complete,
}

/// Work after what the indexer told.
pub open spec fn progressed(op: OperationText, status: ProgressStatus, now: u64) -> OperationText {
    let p = op.progress;
    match status {
        ProgressStatus::CountingFiles => OperationText {
            progress: p.updated(0, 0, "Counting files..."@, now),
            ..op
        },
        ProgressStatus::StartingIndexing(total) => OperationText {
            progress: ProgressText {
                started_at: now,
                ..p.updated(
                    0,
                    total,
                    "Starting indexing ("@ + decimal(total as nat) + " files)"@,
                    now,
                )
            },
            ..op
        },
        ProgressStatus::Indexing(current, total) => OperationText {
            progress: p.updated(
                current,
                total,
                "Indexing files ("@ + decimal(current as nat) + "/"@ + decimal(total as nat) + ")"@,
                now,
            ),
            ..op
        },
        ProgressStatus::CreatingSemanticContext => OperationText {
            progress: p.updated(0, 0, "Creating semantic context..."@, now),
            ..op
        },
        ProgressStatus::GeneratingEmbeddings(current, total) => OperationText {
            progress: p.updated(
                current,
                total,
                "Generating embeddings ("@ + decimal(current as nat) + "/"@ + decimal(total as nat)
                    + ")"@,
                now,
            ),
            ..op
        },
        ProgressStatus::BuildingIndex => OperationText {
            progress: p.updated(0, 0, "Building vector index..."@, now),
            ..op
        },
        ProgressStatus::Finalizing => OperationText {
            progress: p.updated(0, 0, "Finalizing index..."@, now),
            ..op
        },
        ProgressStatus::Complete => OperationText {
            progress: p.updated(p.total, p.total, "Indexing complete!"@, now),
            status: StatusText::Completed,
            ..op
        },
    }
}

/// How background work ended.
#[derive(Debug)]
pub enum WorkResult {
    /// It succeeded.
    Done,
    /// It failed, for this reason.
    Failed(String),
    /// It was cancelled.
    Cancelled,
    /// It broke off, for this reason.
    Broken(String),
}

/// Work that has ended.
pub open spec fn ended(op: OperationText, result: WorkResult) -> OperationText {
    let (status, message) = match result {
        WorkResult::Done => (StatusText::Completed, "Successfully completed indexing"@),
        WorkResult::Failed(e) => (StatusText::Failed(e@), "Failed: "@ + e@),
        WorkResult::Cancelled => (StatusText::Cancelled, "Operation was cancelled"@),
        WorkResult::Broken(e) => (
            StatusText::Failed("Task failed: "@ + e@),
            "Task failed: "@ + e@,
        ),
    };
    OperationText { status, progress: ProgressText { message, ..op.progress }, ..op }
}

impl BackgroundOperation {
    /// Work that begins.
    pub fn begin(operation_type: OperationType, now: u64) -> (res: Self)
        ensures
            res@ == (OperationText {
                name: operation_name(operation_type),
                status: StatusText::Running,
                progress: fresh_progress(now),
                started_at: now,
            }),
    {
        BackgroundOperation {
            operation_type,
            status: OperationStatus::Running,
            progress: ProgressInfo::new(now),
            started_at: now,
        }
    }

    /// Takes note of what the indexer tells.
    pub fn on_progress(&mut self, status: ProgressStatus, now: u64)
        ensures
            final(self)@ == progressed(old(self)@, status, now),
    {
        match status {
            ProgressStatus::CountingFiles => {
                self.progress.update(0, 0, String::from_str("Counting files..."), now);
            },
            ProgressStatus::StartingIndexing(total) => {
                let n = decimal_text(total);
                let text = cat3("Starting indexing (", n.as_str(), " files)");
                self.progress.update(0, total, text, now);
                self.progress.started_at = now;
            },
            ProgressStatus::Indexing(current, total) => {
                let c = decimal_text(current);
                let t = decimal_text(total);
                let text = cat5("Indexing files (", c.as_str(), "/", t.as_str(), ")");
                self.progress.update(current, total, text, now);
            },
            ProgressStatus::CreatingSemanticContext => {
                self.progress.update(0, 0, String::from_str("Creating semantic context..."), now);
            },
            ProgressStatus::GeneratingEmbeddings(current, total) => {
                let c = decimal_text(current);
                let t = decimal_text(total);
                let text = cat5("Generating embeddings (", c.as_str(), "/", t.as_str(), ")");
                self.progress.update(current, total, text, now);
            },
            ProgressStatus::BuildingIndex => {
                self.progress.update(0, 0, String::from_str("Building vector index..."), now);
            },
            ProgressStatus::Finalizing => {
                self.progress.update(0, 0, String::from_str("Finalizing index..."), now);
            },
            ProgressStatus::Complete => {
                let total: u64 = self.progress.total;
                self.progress.update(total, total, String::from_str("Indexing complete!"), now);
                self.status = OperationStatus::Completed;
            },
        }
    }

    /// Takes note of how the work ended.
    pub fn finish(&mut self, result: WorkResult)
        ensures
            final(self)@ == ended(old(self)@, result),
    {
        match result {
            WorkResult::Done => {
                self.status = OperationStatus::Completed;
                self.progress.message = String::from_str("Successfully completed indexing");
            },
            WorkResult::Failed(e) => {
                self.progress.message = cat2("Failed: ", e.as_str());
                self.status = OperationStatus::Failed(e);
            },
            WorkResult::Cancelled => {
                self.status = OperationStatus::Cancelled;
                self.progress.message = String::from_str("Operation was cancelled");
            },
            WorkResult::Broken(e) => {
                self.status = OperationStatus::Failed(cat2("Task failed: ", e.as_str()));
                self.progress.message = cat2("Task failed: ", e.as_str());
            },
        }
    }
}

/// The identifier of work that begins at that time, in milliseconds.
pub open spec fn operation_id(milliseconds: nat) -> Seq<char> {
    "op_"@ + decimal(milliseconds)
}

/// The identifier of work that begins at that time, in milliseconds.
pub fn generate_operation_id(milliseconds: u64) -> (res: String)
    ensures
        res@ == operation_id(milliseconds as nat),
{
    let n = decimal_text(milliseconds);
    cat2("op_", n.as_str())
}

/// What work does, in one word.
pub open spec fn operation_verb(t: OperationType) -> Seq<char> {
    match t {
        OperationType::Indexing { .. } => "indexing"@,
        OperationType::Updating { .. } => "updating"@,
    }
}

/// What is said where background work begins.
pub open spec fn started_text(verb: Seq<char>, name: Seq<char>, id: Seq<char>) -> Seq<char> {
    ("🚀 Started "@ + verb + " '"@ + name
        + "' in background.\n📊 Use '/knowledge status' to check progress.\n🆔 Operation ID: "@)
        + short_id(id)
}

impl KnowledgeStore {
    /// Forgets work that ended some time ago.
    pub fn clean_up(&mut self, now: u64)
        ensures
            final(self)@ == remembered(old(self)@, now),
            old(self).well_formed() ==> final(self).well_formed(),
    {
        let ghost was = self.background_operations;
        let ghost all = self@;
        let mut old_ids: Vec<String> = Vec::new();
        let mut i: usize = 0;
        proof {
            was.lemma_lookup();
        }
        while i < self.background_operations.len()
            invariant
                self.background_operations == was,
                all == operation_map(was@),
                i <= was.keys().len(),
                forall|k: Seq<char>| #[trigger] was@.contains_key(k) <==> was.keys().contains(k),
                forall|j: int|
                    0 <= j < old_ids@.len() ==> all.contains_key((#[trigger] old_ids@[j])@) && !is_kept(
                        all[old_ids@[j]@],
                        now,
                    ),
                forall|j: int|
                    0 <= j < i && !is_kept(all[#[trigger] was.keys()[j]], now) ==> exists|q: int|
                        0 <= q < old_ids@.len() && (#[trigger] old_ids@[q])@ == was.keys()[j],
            decreases was.keys().len() - i,
        {
            let id: &str = self.background_operations.key_at(i);
            assert(was.keys().contains(id@));
            assert(was@.contains_key(id@));
            assert(all.contains_key(id@));
            let ghost before = old_ids@;
            if let Some(op) = self.background_operations.get(id) {
                assert(all[id@] == op@);
                let running = match &op.status {
                    OperationStatus::Running => true,
                    _ => false,
                };
                if !running && now >= op.started_at && now - op.started_at >= CLEANUP_THRESHOLD {
                    let one = String::from_str(id);
                    let ghost t = one@;
                    old_ids.push(one);
                    assert(old_ids@[before.len() as int]@ == t);
                }
            }
            proof {
                assert forall|j: int| 0 <= j < i + 1 && !is_kept(all[#[trigger] was.keys()[j]], now) implies exists|
                    q: int,
                |
                    0 <= q < old_ids@.len() && (#[trigger] old_ids@[q])@ == was.keys()[j] by {
                    if j < i {
                        let q = choose|q: int| 0 <= q < before.len() && (#[trigger] before[q])@ == was.keys()[j];
                        assert(old_ids@[q] == before[q]);
                    } else {
                        assert(old_ids@[before.len() as int]@ == was.keys()[j]);
                    }
                }
            }
            i += 1;
        }
        let mut k: usize = 0;
        while k < old_ids.len()
            invariant
                k <= old_ids@.len(),
                all == operation_map(was@),
                forall|x: Seq<char>| #[trigger]
                    self@.contains_key(x) <==> all.contains_key(x) && !(exists|q: int|
                        0 <= q < k && (#[trigger] old_ids@[q])@ == x),
                forall|x: Seq<char>| #[trigger] self@.contains_key(x) ==> self@[x] == all[x],
                was.well_formed() ==> self.well_formed(),
            decreases old_ids@.len() - k,
        {
            let ghost before = self@;
            let ghost exec_before = self.background_operations@;
            self.background_operations.remove(old_ids[k].as_str());
            assert(operation_map(exec_before.remove(old_ids@[k as int]@)) =~= operation_map(exec_before).remove(
                old_ids@[k as int]@,
            ));
            assert(self@ == before.remove(old_ids@[k as int]@));
            proof {
                assert forall|x: Seq<char>| #[trigger] self@.contains_key(x) <==> all.contains_key(x) && !(exists|
                    q: int,
                |
                    0 <= q < k + 1 && (#[trigger] old_ids@[q])@ == x) by {
                    assert(before.contains_key(x) <==> all.contains_key(x) && !(exists|q: int|
                        0 <= q < k && (#[trigger] old_ids@[q])@ == x));
                    if x == old_ids@[k as int]@ {
                    } else if exists|q: int| 0 <= q < k + 1 && (#[trigger] old_ids@[q])@ == x {
                        let q = choose|q: int| 0 <= q < k + 1 && (#[trigger] old_ids@[q])@ == x;
                        assert(q < k);
                    }
                }
                assert forall|x: Seq<char>| #[trigger] self@.contains_key(x) implies self@[x] == all[x] by {
                    assert(before.contains_key(x));
                }
            }
            k += 1;
        }
        proof {
            let want = remembered(all, now);
            assert forall|x: Seq<char>| #[trigger] self@.contains_key(x) == want.contains_key(x) && (
            want.contains_key(x) ==> self@[x] == want[x]) by {
                if all.contains_key(x) {
                    assert(was@.contains_key(x));
                    assert(was.keys().contains(x));
                    let j = choose|j: int| 0 <= j < was.keys().len() && was.keys()[j] == x;
                    assert(was.keys()[j] == x);
                }
            }
            assert(self@ =~= want);
        }
    }
}

/// Work that was cancelled.
pub open spec fn cancelled(op: OperationText) -> OperationText {
    OperationText { status: StatusText::Cancelled, ..op }
}

/// All work, of which what was running is cancelled.
pub open spec fn all_cancelled(ops: Map<Seq<char>, OperationText>) -> Map<Seq<char>, OperationText> {
    Map::new(
        |k: Seq<char>| ops.contains_key(k),
        |k: Seq<char>|
            if ops[k].status is Running {
                cancelled(ops[k])
            } else {
                ops[k]
            },
    )
}

/// How many of the first `n` pieces of work are running.
pub open spec fn running_count(ops: Seq<OperationText>, n: int) -> nat
    decreases n,
{
    if n <= 0 {
        0
    } else if ops[n - 1].status is Running {
        running_count(ops, n - 1) + 1
    } else {
        running_count(ops, n - 1)
    }
}

proof fn lemma_running_count(ops: Seq<OperationText>, n: int)
    requires
        0 <= n,
    ensures
        running_count(ops, n) <= n,
    decreases n,
{
    if n > 0 {
        lemma_running_count(ops, n - 1);
    }
}

/// Changing work one by one changes it by name.
proof fn lemma_map_pointwise(a: NameMap<BackgroundOperation>, b: NameMap<BackgroundOperation>)
    requires
        a.keys() == b.keys(),
        a.values().len() == b.values().len(),
        forall|i: int|
            0 <= i < a.values().len() ==> (#[trigger] b.values()[i])@ == (if a.values()[i]@.status is Running {
                cancelled(a.values()[i]@)
            } else {
                a.values()[i]@
            }),
    ensures
        operation_map(b@) == all_cancelled(operation_map(a@)),
{
    a.lemma_lookup();
    b.lemma_lookup();
    let want = all_cancelled(operation_map(a@));
    assert forall|k: Seq<char>| #[trigger] operation_map(b@).contains_key(k) == want.contains_key(k) && (
    want.contains_key(k) ==> operation_map(b@)[k] == want[k]) by {
        assert(a@.contains_key(k) <==> a.keys().contains(k));
        assert(b@.contains_key(k) <==> b.keys().contains(k));
        if a@.contains_key(k) {
            let i = crate::name_map::find_name(a.keys(), k, 0);
            lemma_find_name(a.keys(), k, 0);
            assert(a@[k] == a.values()[i]);
            assert(b@[k] == b.values()[i]);
        }
    }
    assert(operation_map(b@) =~= want);
}

impl KnowledgeStore {
    /// Cancels all work that is running, or the work of one identifier. The tasks of what was
    /// cancelled are to be stopped.
    pub fn cancel_operation(&mut self, operation_id: &str) -> (res: Result<String, String>)
        ensures
            old(self).well_formed() ==> final(self).well_formed(),
            if operation_id@ == "all"@ {
                &&& final(self)@ == all_cancelled(old(self)@)
                &&& res matches Ok(t)
                &&& t@ == "Cancelled "@ + decimal(
                    running_count(
                        operation_list(old(self).background_operations.values()),
                        old(self).background_operations.values().len() as int,
                    ),
                ) + " background operations"@
            } else if old(self)@.contains_key(operation_id@) {
                &&& final(self)@ == old(self)@.insert(
                    operation_id@,
                    cancelled(old(self)@[operation_id@]),
                )
                &&& res matches Ok(t)
                &&& t@ == "Cancelled operation: "@ + operation_id@
            } else {
                &&& final(self)@ == old(self)@
                &&& res matches Err(e)
                &&& e@ == "Operation not found: "@ + operation_id@
            },
    {
        let ghost was = self.background_operations;
        if same_text(operation_id, "all") {
            let ghost list = operation_list(was.values());
            let mut count: usize = 0;
            let mut i: usize = 0;
            proof {
                was.lemma_lookup();
            }
            while i < self.background_operations.len()
                invariant
                    list == operation_list(was.values()),
                    self.background_operations.keys() == was.keys(),
                    self.background_operations.values().len() == was.values().len(),
                    was.keys().len() == was.values().len(),
                    i <= was.values().len(),
                    count == running_count(list, i as int),
                    forall|j: int|
                        0 <= j < i ==> (#[trigger] self.background_operations.values()[j])@ == (
                        if was.values()[j]@.status is Running {
                            cancelled(was.values()[j]@)
                        } else {
                            was.values()[j]@
                        }),
                    forall|j: int|
                        i <= j < was.values().len() ==> #[trigger] self.background_operations.values()[j]
                            == was.values()[j],
                decreases was.values().len() - i,
            {
                proof {
                    lemma_running_count(list, i as int);
                    assert(list[i as int] == was.values()[i as int]@);
                }
                let op = self.background_operations.value_mut_at(i);
                if let OperationStatus::Running = op.status {
                    op.status = OperationStatus::Cancelled;
                    count += 1;
                }
                i += 1;
            }
            proof {
                lemma_map_pointwise(was, self.background_operations);
            }
            let n = size_text(count);
            return Ok(cat3("Cancelled ", n.as_str(), " background operations"));
        }
        proof {
            assert forall|op: BackgroundOperation| operation_map(
                #[trigger] was@.insert(operation_id@, op),
            ) == operation_map(was@).insert(operation_id@, op@) by {
                assert(operation_map(was@.insert(operation_id@, op)) =~= operation_map(was@).insert(
                    operation_id@,
                    op@,
                ));
            }
        }
        match self.background_operations.get_mut(operation_id) {
            Some(op) => {
                op.status = OperationStatus::Cancelled;
                Ok(cat2("Cancelled operation: ", operation_id))
            },
            None => Err(cat2("Operation not found: ", operation_id)),
        }
    }

    /// Adds a path or a text to the base. Where `value` is a path that exists, background work on
    /// it begins, and its task is to be run; else `value` is a text, which is to be added at once.
    /// The time is far enough from the fixed moment that an identifier has eight characters.
    pub fn add_background_with_type(
        &mut self,
        name: &str,
        value: &str,
        path_exists: bool,
        operation_type: OperationType,
        milliseconds: u64,
        now: u64,
    ) -> (res: Addition)
        requires
            path_exists ==> milliseconds >= 10_000,
        ensures
            old(self).well_formed() ==> final(self).well_formed(),
            if path_exists {
                let id = operation_id(milliseconds as nat);
                &&& res matches Addition::Background { id: i, description, text }
                &&& i@ == id
                &&& description@ == path_description(name@)
                &&& text@ == started_text(operation_verb(operation_type), name@, id)
                &&& final(self)@ == old(self)@.insert(id, begun(operation_name(operation_type), now))
            } else {
                &&& res matches Addition::Text { description }
                &&& description@ == text_description(value@)
                &&& *final(self) == *old(self)
            },
    {
        if !path_exists {
            return Addition::Text { description: describe_text(value) };
        }
        let id = generate_operation_id(milliseconds);
        let verb: &str = match &operation_type {
            OperationType::Indexing { name: _ } => "indexing",
            OperationType::Updating { name: _ } => "updating",
        };
        let short = truncate_safe(id.as_str(), 8);
        let head = cat5(
            "🚀 Started ",
            verb,
            " '",
            name,
            "' in background.\n📊 Use '/knowledge status' to check progress.\n🆔 Operation ID: ",
        );
        let text = cat2(head.as_str(), short.as_str());
        let op = BackgroundOperation::begin(operation_type, now);
        let ghost was = self.background_operations@;
        let ghost o = op@;
        let key = String::from_str(id.as_str());
        assert(operation_map(was.insert(key@, op)) =~= operation_map(was).insert(key@, o));
        self.background_operations.insert(key, op);
        Addition::Background { id, description: cat2("Knowledge context for ", name), text }
    }

    /// Adds a path or a text to the base.
    pub fn add(
        &mut self,
        name: &str,
        value: &str,
        path_exists: bool,
        milliseconds: u64,
        now: u64,
    ) -> (res: Addition)
        requires
            path_exists ==> milliseconds >= 10_000,
        ensures
            old(self).well_formed() ==> final(self).well_formed(),
            is_indexing(old(self)@, name@, value@, path_exists, milliseconds, now, final(self)@, res),
    {
        self.add_background(name, value, path_exists, milliseconds, now)
    }

    /// Adds a path, by background work that indexes it, or a text.
    pub fn add_background(
        &mut self,
        name: &str,
        value: &str,
        path_exists: bool,
        milliseconds: u64,
        now: u64,
    ) -> (res: Addition)
        requires
            path_exists ==> milliseconds >= 10_000,
        ensures
            old(self).well_formed() ==> final(self).well_formed(),
            is_indexing(old(self)@, name@, value@, path_exists, milliseconds, now, final(self)@, res),
    {
        let operation_type = OperationType::Indexing { name: String::from_str(name) };
        self.add_background_with_type(name, value, path_exists, operation_type, milliseconds, now)
    }
}

/// How a base that held `was` takes in a path or a text: background work that indexes a path that
/// exists begins, and any other value is a text that is to be added at once.
pub open spec fn is_indexing(
    was: Map<Seq<char>, OperationText>,
    name: Seq<char>,
    value: Seq<char>,
    path_exists: bool,
    milliseconds: u64,
    now: u64,
    holds: Map<Seq<char>, OperationText>,
    res: Addition,
) -> bool {
    if path_exists {
        let id = operation_id(milliseconds as nat);
        &&& res matches Addition::Background { id: i, description, text }
        &&& i@ == id
        &&& description@ == path_description(name)
        &&& text@ == started_text("indexing"@, name, id)
        &&& holds == was.insert(id, begun("Indexing "@ + name, now))
    } else {
        &&& res matches Addition::Text { description }
        &&& description@ == text_description(value)
        &&& holds == was
    }
}

/// How something is added to the base.
#[derive(Debug, PartialEq, Eq)]
pub enum Addition {
    /// Background work of this identifier has begun, and this is said. The index is to describe
    /// what comes of it so.
    Background { id: String, description: String, text: String },
    /// The text is to be added to the index under this description.
    Text { description: String },
}

/// The description of a path that is added.
pub open spec fn path_description(name: Seq<char>) -> Seq<char> {
    "Knowledge context for "@ + name
}

/// Work of that name that begins now.
pub open spec fn begun(name: Seq<char>, now: u64) -> OperationText {
    OperationText {
        name,
        status: StatusText::Running,
        progress: fresh_progress(now),
        started_at: now,
    }
}

/// The description of a text that is added: its first forty characters.
pub open spec fn text_description(value: Seq<char>) -> Seq<char> {
    "Text knowledge "@ + (if value.len() > 40 {
        value.take(40)
    } else {
        value
    }) + "..."@
}

/// The description of a text that is added.
pub fn describe_text(value: &str) -> (res: String)
    ensures
        res@ == text_description(value@),
{
    let chars = chars_of(value);
    if chars.len() > 40 {
        let start = string_from(&chars, 0, 40);
        assert(start@ =~= value@.take(40));
        cat3("Text knowledge ", start.as_str(), "...")
    } else {
        cat3("Text knowledge ", value, "...")
    }
}

/// What is said where a text was added.
pub fn added_text(name: &str, outcome: Result<(), String>) -> (res: Result<String, String>)
    ensures
        match outcome {
            Ok(_) => res matches Ok(t) && t@ == "✅ Added text content '"@ + name@ + "' to knowledge base"@,
            Err(e) => res matches Err(x) && x@ == e@,
        },
{
    match outcome {
        Ok(_) => Ok(cat3("✅ Added text content '", name, "' to knowledge base")),
        Err(e) => Err(e),
    }
}

/// A context of the knowledge base.
#[derive(Debug)]
pub struct KnowledgeContext {
    /// Its identifier.
    pub id: String,
    /// Its name.
    pub name: String,
    /// What it was made of.
    pub source_path: Option<String>,
}

/// What a context holds.
pub struct ContextText {
    pub id: Seq<char>,
    pub name: Seq<char>,
    pub source: Option<Seq<char>>,
}

impl View for KnowledgeContext {
    type V = ContextText;

    open spec fn view(&self) -> ContextText {
        ContextText { id: self.id@, name: self.name@, source: option_text(self.source_path) }
    }
}

/// What contexts hold.
pub open spec fn context_list(v: Seq<KnowledgeContext>) -> Seq<ContextText> {
    Seq::new(v.len(), |i: int| v[i]@)
}

/// By what a context is looked for.
#[derive(Debug)]
pub enum ContextKey {
    /// By its identifier.
    Id(String),
    /// By its name.
    Name(String),
    /// By what it was made of.
    Path(String),
}

/// Whether a context is meant.
pub open spec fn is_meant(c: ContextText, key: ContextKey) -> bool {
    match key {
        ContextKey::Id(s) => c.id == s@,
        ContextKey::Name(s) => c.name == s@,
        ContextKey::Path(s) => c.source == Some(s@),
    }
}

/// The position of the first context that is meant at or after `from`, or the number of contexts.
pub open spec fn find_context(list: Seq<ContextText>, key: ContextKey, from: int) -> int
    decreases list.len() - from,
{
    if from >= list.len() || is_meant(list[from], key) {
        from
    } else {
        find_context(list, key, from + 1)
    }
}

/// What is said where no context is meant.
pub open spec fn no_context(key: ContextKey) -> Seq<char> {
    match key {
        ContextKey::Id(s) => "Context with ID '"@ + s@ + "' not found"@,
        ContextKey::Name(s) => "Context with name '"@ + s@ + "' not found"@,
        ContextKey::Path(s) => "No context found with path '"@ + s@ + "'"@,
    }
}

/// The context that is to be renewed from a path: its identifier and name. It is to be removed
/// first, and background work of that name started then.
pub fn update_context(
    contexts: &Vec<KnowledgeContext>,
    key: &ContextKey,
    path: &str,
    path_exists: bool,
) -> (res: Result<(String, String), String>)
    ensures
        ({
            let list = context_list(contexts@);
            let at = find_context(list, *key, 0);
            if at >= list.len() {
                res matches Err(e) && e@ == no_context(*key)
            } else if !path_exists {
                res matches Err(e) && e@ == "Path '"@ + path@ + "' does not exist"@
            } else {
                res matches Ok(x) && x.0@ == list[at].id && x.1@ == list[at].name
            }
        }),
{
    let ghost list = context_list(contexts@);
    let mut i: usize = 0;
    while i < contexts.len()
        invariant
            i <= contexts@.len(),
            list == context_list(contexts@),
            find_context(list, *key, 0) == find_context(list, *key, i as int),
        decreases contexts@.len() - i,
    {
        let c = &contexts[i];
        assert(list[i as int] == c@);
        let meant = match key {
            ContextKey::Id(s) => same_text(c.id.as_str(), s.as_str()),
            ContextKey::Name(s) => same_text(c.name.as_str(), s.as_str()),
            ContextKey::Path(s) => match &c.source_path {
                Some(p) => same_text(p.as_str(), s.as_str()),
                None => false,
            },
        };
        if meant {
            if !path_exists {
                return Err(cat3("Path '", path, "' does not exist"));
            }
            return Ok((String::from_str(c.id.as_str()), String::from_str(c.name.as_str())));
        }
        i += 1;
    }
    match key {
        ContextKey::Id(s) => Err(cat3("Context with ID '", s.as_str(), "' not found")),
        ContextKey::Name(s) => Err(cat3("Context with name '", s.as_str(), "' not found")),
        ContextKey::Path(s) => Err(cat3("No context found with path '", s.as_str(), "'")),
    }
}

/// Cancelling all work leaves nothing running, and ends no other work.
pub proof fn law_nothing_runs_after_cancel(ops: Map<Seq<char>, OperationText>, k: Seq<char>)
    requires
        ops.contains_key(k),
    ensures
        !(all_cancelled(ops)[k].status is Running),
        !(ops[k].status is Running) ==> all_cancelled(ops)[k] == ops[k],
{
    assert(all_cancelled(ops).contains_key(k));
}

/// Work that is running is never forgotten.
pub proof fn law_running_is_remembered(ops: Map<Seq<char>, OperationText>, now: u64, k: Seq<char>)
    requires
        ops.contains_key(k),
        ops[k].status is Running,
    ensures
        remembered(ops, now).contains_key(k),
        remembered(ops, now)[k] == ops[k],
{
}

/// How many of the first `n` contexts were removed.
pub open spec fn removed_count(removed: Seq<bool>, n: int) -> nat
    decreases n,
{
    if n <= 0 {
        0
    } else if removed[n - 1] {
        removed_count(removed, n - 1) + 1
    } else {
        removed_count(removed, n - 1)
    }
}

/// How many contexts were removed, where it is told of each whether it was.
pub fn count_removed(removed: &Vec<bool>) -> (res: usize)
    ensures
        res == removed_count(removed@, removed@.len() as int),
{
    let mut count: usize = 0;
    let mut i: usize = 0;
    while i < removed.len()
        invariant
            i <= removed@.len(),
            count <= i,
            count == removed_count(removed@, i as int),
        decreases removed@.len() - i,
    {
        if removed[i] {
            count += 1;
        }
        i += 1;
    }
    count
}

proof fn lemma_decimal_ascii(n: nat)
    ensures
        is_ascii_chars(decimal(n)),
    decreases n,
{
    if n >= 10 {
        lemma_decimal_ascii(n / 10);
    }
}

/// The identifiers that work is given can be cut to eight characters.
pub proof fn law_generated_ids_are_plain(milliseconds: nat)
    ensures
        is_plain_id(operation_id(milliseconds)),
{
    let id = operation_id(milliseconds);
    reveal_strlit("op_");
    lemma_decimal_ascii(milliseconds);
    assert(is_ascii_chars(id));
    let cut = truncated(id, 8);
    law_truncated_fits(id, 8);
    let n = cut.len() as int;
    assert(cut =~= id.take(n));
    is_ascii_chars_encode_utf8(id);
    is_ascii_chars_encode_utf8(cut);
    if n < id.len() {
        is_ascii_chars_encode_utf8(id.take(n + 1));
    }
}

} // verus!
