//! What holds of every acquisition, whatever the forge answers and whenever
//! the caller cancels. A run is the engine's start followed by any sequence
//! of events, each with the cancellation flag as it stood.

use crate::archive::{clamp_u32, saturating_u32, saturating_u64, selected_count};
use crate::model::{ContentItem, GitDownloadOptions, ProgressEvent, RepositoryRef, Stage};
use crate::progress::{
    archive_percent, complete_event, entry_extracted_event, extract_percent, fetch_percent,
    found_entries_event, lemma_archive_percent_monotone, lemma_extract_percent_monotone,
    lemma_fetch_percent_monotone,
};
use crate::transition::{
    continue_extraction, on_chunk_written, on_entry_extracted, on_file_saved, on_files_finished,
    on_listing_answered, on_output_dir_ready, on_stream_ended, start_view, step_view, ActionView,
    EngineView, EventView, OutputView, Phase,
};
use vstd::prelude::*;

verus! {

/// One event of a run, with the cancellation flag as it stood.
pub struct Input {
    pub event: EventView,
    pub cancelled: bool,
}

/// The state that `inputs` lead to from `s`.
pub open spec fn run_state(s: EngineView, inputs: Seq<Input>) -> EngineView
    decreases inputs.len(),
{
    if inputs.len() == 0 {
        s
    } else {
        step_view(run_state(s, inputs.drop_last()), inputs.last().event, inputs.last().cancelled).0
    }
}

/// What each step of the run hands the caller.
pub open spec fn run_outputs(s: EngineView, inputs: Seq<Input>) -> Seq<OutputView>
    decreases inputs.len(),
{
    if inputs.len() == 0 {
        Seq::empty()
    } else {
        run_outputs(s, inputs.drop_last()).push(
            step_view(
                run_state(s, inputs.drop_last()),
                inputs.last().event,
                inputs.last().cancelled,
            ).1,
        )
    }
}

/// The progress reports of the run, in the order they are emitted.
pub open spec fn run_reports(s: EngineView, inputs: Seq<Input>) -> Seq<ProgressEvent>
    decreases inputs.len(),
{
    if inputs.len() == 0 {
        Seq::empty()
    } else {
        run_reports(s, inputs.drop_last()) + step_view(
            run_state(s, inputs.drop_last()),
            inputs.last().event,
            inputs.last().cancelled,
        ).1.events
    }
}

/// The reports of a whole acquisition: those of the start, then those of the run.
pub open spec fn all_reports(
    info: RepositoryRef,
    output_path: Seq<char>,
    options: GitDownloadOptions,
    inputs: Seq<Input>,
) -> Seq<ProgressEvent> {
    let (s, out) = start_view(info, output_path, options);
    out.events + run_reports(s, inputs)
}

/// The percentage that the reports have reached in state `s`: no later
/// report is below it, and no earlier one above.
pub open spec fn level(s: EngineView) -> nat {
    match s.phase {
        Phase::Listing => 5,
        Phase::PreparingFetch => 10,
        Phase::Fetching => fetch_percent(s.processed as nat, s.total as nat),
        Phase::RequestingArchive => 10,
        Phase::Receiving | Phase::WritingChunk => archive_percent(s.bytes as nat),
        Phase::OpeningArchive => 55,
        Phase::PreparingExtract => 55,
        Phase::Extracting => extract_percent(s.processed as nat, s.total as nat),
        Phase::Complete | Phase::Failed | Phase::Cancelled => 100,
    }
}

/// Whether the engine waits for nothing more.
pub open spec fn is_over(s: EngineView) -> bool {
    s.phase == Phase::Complete || s.phase == Phase::Failed || s.phase == Phase::Cancelled
}

/// Whether the engine is on the archive strategy.
pub open spec fn on_archive(s: EngineView) -> bool {
    s.phase == Phase::RequestingArchive || s.phase == Phase::Receiving || s.phase
        == Phase::WritingChunk || s.phase == Phase::OpeningArchive || s.phase
        == Phase::PreparingExtract || s.phase == Phase::Extracting
}

/// Whether an action makes the caller write a file of the acquisition.
pub open spec fn writes(action: ActionView) -> bool {
    action is Proceed || action is WriteChunk || action is ExtractEntry
}

/// Whether a sequence of percentages never falls.
pub open spec fn never_falls(reports: Seq<ProgressEvent>) -> bool {
    forall|i: int, j: int|
        0 <= i <= j < reports.len() ==> (#[trigger] reports[i]).percent <= (
        #[trigger] reports[j]).percent
}

/// Whether a report is the final one: stage `complete` at 100 percent.
pub open spec fn is_completion(report: ProgressEvent) -> bool {
    report.stage == Stage::Complete && report.percent == 100
}

/// Whether a report is an ordinary one: not of stage `complete`, and at most 95 percent.
pub open spec fn is_ordinary(report: ProgressEvent) -> bool {
    report.stage != Stage::Complete && report.percent <= 95
}

/// What holds of the reports of one step from `s` to `t`: they lie between
/// the level before and the level after and never fall; all but the last
/// are ordinary; the last is the final report exactly when the step
/// completes the acquisition; and a step from a state that is over does
/// nothing.
pub open spec fn reports_in_order(s: EngineView, t: EngineView, out: OutputView) -> bool {
    &&& level(s) <= level(t)
    &&& never_falls(out.events)
    &&& forall|i: int|
        0 <= i < out.events.len() ==> level(s) <= (#[trigger] out.events[i]).percent <= level(t)
    &&& forall|i: int| 0 <= i < out.events.len() - 1 ==> is_ordinary(#[trigger] out.events[i])
    &&& is_over(s) ==> t == s && out.events.len() == 0 && out.action is Idle
    &&& !is_over(s) && t.phase == Phase::Complete ==> out.events.len() > 0 && is_completion(
        out.events.last(),
    )
    &&& t.phase != Phase::Complete && out.events.len() > 0 ==> is_ordinary(out.events.last())
}

proof fn lemma_level_bounds(s: EngineView)
    ensures
        5 <= level(s) <= 100,
        !is_over(s) ==> level(s) <= 95,
        s.phase == Phase::Fetching ==> 10 <= level(s),
        s.phase == Phase::Extracting ==> 60 <= level(s),
        s.phase == Phase::Receiving || s.phase == Phase::WritingChunk ==> 15 <= level(s) <= 50,
{
    lemma_fetch_percent_monotone(s.processed as nat, s.processed as nat, s.total as nat);
    lemma_extract_percent_monotone(s.processed as nat, s.processed as nat, s.total as nat);
}

proof fn lemma_reports_listing_answered(
    s: EngineView,
    status: u16,
    remaining: Option<Seq<char>>,
    items: Seq<ContentItem>,
)
    ensures
        ({
            let (t, out) = on_listing_answered(s, status, remaining, items);
            reports_in_order(s, t, out)
        }),
{
    lemma_level_bounds(s);
}

proof fn lemma_reports_extraction(
    s: EngineView,
    before: EngineView,
    events: Seq<ProgressEvent>,
    from: int,
    cancelled: bool,
)
    requires
        !is_over(before),
        s.phase == Phase::Extracting || s.phase == Phase::PreparingExtract,
        events.len() == 1,
        is_ordinary(events[0]),
        level(before) <= events[0].percent,
        events[0].percent == extract_percent(s.processed as nat, s.total as nat),
    ensures
        ({
            let (t, out) = continue_extraction(s, events, from, cancelled);
            reports_in_order(before, t, out)
        }),
{
    lemma_level_bounds(before);
    let (t, out) = continue_extraction(s, events, from, cancelled);
    lemma_extract_percent_monotone(s.processed as nat, s.processed as nat, s.total as nat);
    if t.phase == Phase::Complete {
        assert(out.events =~= events.push(complete_event(s.processed, s.total)));
        assert(out.events[0] == events[0]);
        assert(out.events[1] == complete_event(s.processed, s.total));
    } else {
        assert(out.events == events);
    }
}

proof fn lemma_reports_output_dir_ready(s: EngineView, cancelled: bool)
    ensures
        ({
            let (t, out) = on_output_dir_ready(s, cancelled);
            reports_in_order(s, t, out)
        }),
{
    lemma_level_bounds(s);
    if s.phase == Phase::PreparingExtract {
        let matching = clamp_u32(selected_count(s.entries, s.prefix));
        if !(matching == 0 && s.info.path.len() > 0) {
            let s1 = EngineView { total: matching, processed: 0, bytes: 0, ..s };
            lemma_extract_percent_monotone(0, 0, matching as nat);
            reveal(extract_percent);
            assert(extract_percent(0, matching as nat) == 60);
            lemma_reports_extraction(s1, s, seq![found_entries_event(matching)], 0, cancelled);
        }
    } else if s.phase == Phase::PreparingFetch {
        let (t, out) = on_output_dir_ready(s, cancelled);
        lemma_level_bounds(t);
    }
}

proof fn lemma_reports_file_saved(s: EngineView, size: u64)
    ensures
        ({
            let (t, out) = on_file_saved(s, size);
            reports_in_order(s, t, out)
        }),
{
    lemma_level_bounds(s);
    let next = saturating_u32(s.processed, 1);
    lemma_fetch_percent_monotone(s.processed as nat, next as nat, s.total as nat);
}

proof fn lemma_reports_files_finished(s: EngineView)
    ensures
        ({
            let (t, out) = on_files_finished(s);
            reports_in_order(s, t, out)
        }),
{
    lemma_level_bounds(s);
    let (t, out) = on_files_finished(s);
    if s.phase == Phase::Fetching && !s.cancel_seen {
        assert(out.events =~= seq![complete_event(s.processed, s.processed)]);
    }
}

proof fn lemma_reports_chunk_written(s: EngineView, len: u64, now_ms: u64)
    ensures
        ({
            let (t, out) = on_chunk_written(s, len, now_ms);
            reports_in_order(s, t, out)
        }),
{
    lemma_level_bounds(s);
    lemma_archive_percent_monotone(s.bytes as nat, saturating_u64(s.bytes, len) as nat);
}

proof fn lemma_reports_stream_ended(s: EngineView)
    ensures
        ({
            let (t, out) = on_stream_ended(s);
            reports_in_order(s, t, out)
        }),
{
    lemma_level_bounds(s);
}

proof fn lemma_reports_entry_extracted(s: EngineView, cancelled: bool)
    ensures
        ({
            let (t, out) = on_entry_extracted(s, cancelled);
            reports_in_order(s, t, out)
        }),
{
    lemma_level_bounds(s);
    if s.phase == Phase::Extracting {
        let size = if s.cursor < s.entries.len() {
            s.entries[s.cursor as int].size
        } else {
            0
        };
        let processed = saturating_u32(s.processed, 1);
        let s1 = EngineView { processed, bytes: saturating_u64(s.bytes, size), ..s };
        lemma_extract_percent_monotone(s.processed as nat, processed as nat, s.total as nat);
        lemma_reports_extraction(
            s1,
            s,
            seq![entry_extracted_event(processed, s.total)],
            s.cursor + 1,
            cancelled,
        );
    }
}

#[verifier::rlimit(40)]
proof fn lemma_reports_simple(s: EngineView, event: EventView, cancelled: bool)
    requires
        event is FileStarting || event is ArchiveAnswered || event is ChunkArrived
            || event is ArchiveOpened || event is IoFailed,
    ensures
        ({
            let (t, out) = step_view(s, event, cancelled);
            reports_in_order(s, t, out)
        }),
{
    lemma_level_bounds(s);
    let (t, out) = step_view(s, event, cancelled);
    lemma_level_bounds(t);
}

/// The reports of every step are in order.
pub proof fn lemma_step_reports(s: EngineView, event: EventView, cancelled: bool)
    ensures
        ({
            let (t, out) = step_view(s, event, cancelled);
            reports_in_order(s, t, out)
        }),
{
    match event {
        EventView::ListingAnswered { status, rate_limit_remaining, items } => {
            lemma_reports_listing_answered(s, status, rate_limit_remaining, items);
        },
        EventView::OutputDirReady => {
            lemma_reports_output_dir_ready(s, cancelled);
        },
        EventView::FileSaved { size } => {
            lemma_reports_file_saved(s, size);
        },
        EventView::FilesFinished => {
            lemma_reports_files_finished(s);
        },
        EventView::ChunkWritten { len, now_ms } => {
            lemma_reports_chunk_written(s, len, now_ms);
        },
        EventView::StreamEnded => {
            lemma_reports_stream_ended(s);
        },
        EventView::EntryExtracted => {
            lemma_reports_entry_extracted(s, cancelled);
        },
        _ => {
            lemma_reports_simple(s, event, cancelled);
        },
    }
}

/// Reports that never fall, followed by reports that never fall and begin
/// no lower than the first end, never fall.
proof fn lemma_reports_append(
    before: Seq<ProgressEvent>,
    events: Seq<ProgressEvent>,
    low: nat,
    middle: nat,
    high: nat,
)
    requires
        low <= middle <= high,
        never_falls(before),
        never_falls(events),
        forall|i: int| 0 <= i < before.len() ==> low <= (#[trigger] before[i]).percent <= middle,
        forall|i: int| 0 <= i < events.len() ==> middle <= (#[trigger] events[i]).percent <= high,
        forall|i: int| 0 <= i < before.len() ==> is_ordinary(#[trigger] before[i]),
        forall|i: int| 0 <= i < events.len() - 1 ==> is_ordinary(#[trigger] events[i]),
    ensures
        never_falls(before + events),
        forall|i: int|
            0 <= i < (before + events).len() ==> low <= (#[trigger] (before + events)[i]).percent
                <= high,
        forall|i: int|
            0 <= i < (before + events).len() - 1 ==> is_ordinary(#[trigger] (before + events)[i]),
        events.len() > 0 ==> (before + events).last() == events.last(),
        events.len() == 0 ==> before + events == before,
{
    let all = before + events;
    assert forall|i: int| 0 <= i < all.len() implies low <= (#[trigger] all[i]).percent <= high
        && (i < all.len() - 1 ==> is_ordinary(all[i])) by {
        if i < before.len() {
            assert(all[i] == before[i]);
        } else {
            assert(all[i] == events[i - before.len()]);
        }
    }
    assert forall|i: int, j: int| 0 <= i <= j < all.len() implies (#[trigger] all[i]).percent <= (
    #[trigger] all[j]).percent by {
        if j < before.len() {
            assert(all[i] == before[i] && all[j] == before[j]);
        } else if i < before.len() {
            assert(all[i] == before[i]);
            assert(all[j] == events[j - before.len()]);
        } else {
            assert(all[i] == events[i - before.len()]);
            assert(all[j] == events[j - before.len()]);
        }
    }
    if events.len() == 0 {
        assert(all =~= before);
    }
}

/// The reports of a run from a state that is not complete never fall and
/// lie between the level before and the level after. All of them are
/// ordinary, but for the last when the run completes the acquisition: that
/// one is the final report.
pub proof fn lemma_run_reports(s: EngineView, inputs: Seq<Input>)
    requires
        s.phase != Phase::Complete,
    ensures
        ({
            let t = run_state(s, inputs);
            let reports = run_reports(s, inputs);
            &&& level(s) <= level(t)
            &&& never_falls(reports)
            &&& forall|i: int|
                0 <= i < reports.len() ==> level(s) <= (#[trigger] reports[i]).percent <= level(t)
            &&& forall|i: int| 0 <= i < reports.len() - 1 ==> is_ordinary(#[trigger] reports[i])
            &&& t.phase == Phase::Complete ==> reports.len() > 0 && is_completion(reports.last())
            &&& t.phase != Phase::Complete && reports.len() > 0 ==> is_ordinary(reports.last())
        }),
    decreases inputs.len(),
{
    if inputs.len() > 0 {
        let earlier = inputs.drop_last();
        let m = run_state(s, earlier);
        let before = run_reports(s, earlier);
        let last = inputs.last();
        lemma_run_reports(s, earlier);
        lemma_step_reports(m, last.event, last.cancelled);
        lemma_run_extends(s, m, before, last);
    }
}

proof fn lemma_run_extends(s: EngineView, m: EngineView, before: Seq<ProgressEvent>, last: Input)
    requires
        level(s) <= level(m),
        never_falls(before),
        forall|i: int| 0 <= i < before.len() ==> level(s) <= (#[trigger] before[i]).percent <= level(m),
        forall|i: int| 0 <= i < before.len() - 1 ==> is_ordinary(#[trigger] before[i]),
        m.phase == Phase::Complete ==> before.len() > 0 && is_completion(before.last()),
        m.phase != Phase::Complete && before.len() > 0 ==> is_ordinary(before.last()),
        ({
            let (t, out) = step_view(m, last.event, last.cancelled);
            reports_in_order(m, t, out)
        }),
    ensures
        ({
            let (t, out) = step_view(m, last.event, last.cancelled);
            let reports = before + out.events;
            &&& level(s) <= level(t)
            &&& never_falls(reports)
            &&& forall|i: int|
                0 <= i < reports.len() ==> level(s) <= (#[trigger] reports[i]).percent <= level(t)
            &&& forall|i: int| 0 <= i < reports.len() - 1 ==> is_ordinary(#[trigger] reports[i])
            &&& t.phase == Phase::Complete ==> reports.len() > 0 && is_completion(reports.last())
            &&& t.phase != Phase::Complete && reports.len() > 0 ==> is_ordinary(reports.last())
        }),
{
    let t = step_view(m, last.event, last.cancelled).0;
    let events = step_view(m, last.event, last.cancelled).1.events;
    if is_over(m) {
        assert(before + events =~= before);
    } else {
        assert forall|i: int| 0 <= i < before.len() implies is_ordinary(#[trigger] before[i]) by {
            if i == before.len() - 1 {
                assert(is_ordinary(before.last()));
            }
        }
        lemma_reports_append(before, events, level(s), level(m), level(t));
    }
}

/// Progress never regresses, and completion is reported once, at the end:
/// over a whole acquisition the percentages never fall; a report is of
/// stage `complete` exactly when it carries 100 percent; and a report
/// carries 100 percent exactly when it is the last one and the acquisition
/// has succeeded. Every other report carries at most 95 percent.
pub proof fn lemma_progress_is_monotonic(
    info: RepositoryRef,
    output_path: Seq<char>,
    options: GitDownloadOptions,
    inputs: Seq<Input>,
)
    ensures
        ({
            let reports = all_reports(info, output_path, options, inputs);
            let end = run_state(start_view(info, output_path, options).0, inputs);
            &&& never_falls(reports)
            &&& forall|i: int|
                0 <= i < reports.len() ==> ((#[trigger] reports[i]).percent == 100 <==> end.phase
                    == Phase::Complete && i == reports.len() - 1)
            &&& forall|i: int|
                0 <= i < reports.len() ==> ((#[trigger] reports[i]).stage == Stage::Complete
                    <==> reports[i].percent == 100)
            &&& forall|i: int|
                0 <= i < reports.len() ==> (#[trigger] reports[i]).percent <= 95
                    || reports[i].percent == 100
        }),
{
    let (s, out) = start_view(info, output_path, options);
    let later = run_reports(s, inputs);
    let reports = all_reports(info, output_path, options, inputs);
    let end = run_state(s, inputs);
    lemma_run_reports(s, inputs);
    assert(reports == out.events + later);
    assert(out.events.len() == 2);
    assert(is_ordinary(out.events[0]) && is_ordinary(out.events[1]));
    assert(out.events[0].percent <= out.events[1].percent <= level(s));
    assert forall|i: int| 0 <= i < reports.len() implies (is_ordinary(#[trigger] reports[i])
        || is_completion(reports[i])) && (is_completion(reports[i]) <==> end.phase
        == Phase::Complete && i == reports.len() - 1) by {
        if i < 2 {
            assert(reports[i] == out.events[i]);
        } else {
            assert(reports[i] == later[i - 2]);
            if i - 2 == later.len() - 1 {
                assert(later[i - 2] == later.last());
            }
        }
    }
    assert forall|i: int, j: int| 0 <= i <= j < reports.len() implies (
    #[trigger] reports[i]).percent <= (#[trigger] reports[j]).percent by {
        if j < 2 {
            assert(reports[i] == out.events[i] && reports[j] == out.events[j]);
        } else if i < 2 {
            assert(reports[i] == out.events[i]);
            assert(reports[j] == later[j - 2]);
        } else {
            assert(reports[i] == later[i - 2]);
            assert(reports[j] == later[j - 2]);
        }
    }
}

} // verus!
