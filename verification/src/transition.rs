//! The acquisition as a state machine. The engine decides; its caller does
//! the outside work. Each step hands the caller the progress reports to emit
//! and one action to perform, and the caller reports what came of the action
//! as the next event, together with the cancellation flag as it then stands.
//!
//! A directory is acquired by listing it and fetching its files one by one;
//! a whole repository, or a directory whose listing failed for a reason
//! other than a used-up quota or a refusal, by downloading the archive of
//! the repository and extracting the entries of the directory.

use crate::archive::{
    archive_failure, archive_url, clamp_u32, next_selected, saturating_u32, saturating_u64,
    selected_count,
};
use crate::layout::{
    entry_destination, file_accepted, filter_prefix, final_output_dir, listed_destination,
    root_prefix,
};
use crate::lister::{is_final_failure, listing_failure, listing_url, walk};
use crate::model::{
    AcquisitionResult, ArchiveEntry, ContentItem, DownloadError, EntryView, ErrorView,
    FileDescriptor, GitDownloadOptions, GitDownloadProgress, GitDownloadResult,
    GitHubContentItem, ProgressEvent, RepositoryRef,
};
use crate::progress::{
    archive_progress_event, archive_saved_event, archive_started_event, complete_event,
    connecting_event, entry_extracted_event, extracting_event, file_saved_event,
    found_entries_event, found_files_event, listing_event,
};
use vstd::prelude::*;

verus! {

/// How many files are fetched at once.
pub const FETCH_CONCURRENCY: usize = 8;

/// The least time between two progress reports while the archive is received, in milliseconds.
pub const REPORT_INTERVAL_MS: u64 = 500;

/// What the engine is waiting for.
#[derive(Debug, Clone, Copy, PartialEq, Eq, Structural)]
pub enum Phase {
    /// The listing of a directory.
    Listing,
    /// The output directory, before files are fetched.
    PreparingFetch,
    /// The files of the batch.
    Fetching,
    /// The answer to the archive request.
    RequestingArchive,
    /// The next chunk of the archive.
    Receiving,
    /// The chunk being written.
    WritingChunk,
    /// The table of the archive's entries.
    OpeningArchive,
    /// The output directory, before entries are extracted.
    PreparingExtract,
    /// The entry being extracted.
    Extracting,
    /// Nothing: the acquisition succeeded.
    Complete,
    /// Nothing: the acquisition failed.
    Failed,
    /// Nothing: the caller cancelled the acquisition.
    Cancelled,
}

/// What kind of outside work failed.
#[derive(Debug, Clone, Copy, PartialEq, Eq, Structural)]
pub enum FailureKind {
    Network,
    Write,
}

/// What came of the last action.
#[derive(Debug, Clone)]
pub enum Event {
    /// The listing request was answered. `items` is the parsed body when the
    /// status is a success, and is not looked at otherwise.
    ListingAnswered { status: u16, rate_limit_remaining: Option<String>, items: Vec<GitHubContentItem> },
    /// The output directory exists.
    OutputDirReady,
    /// One file of the batch is about to be requested.
    FileStarting,
    /// One file of the batch was written; `size` is its length.
    FileSaved { size: u64 },
    /// Every file of the batch was saved, skipped or given up.
    FilesFinished,
    /// The archive request was answered.
    ArchiveAnswered { status: u16 },
    /// A chunk of the archive arrived, or the stream reported an error in its place.
    ChunkArrived,
    /// The chunk was written. `now_ms` is the time since the stream began.
    ChunkWritten { len: u64, now_ms: u64 },
    /// The archive was received whole.
    StreamEnded,
    /// The archive was opened; `entries` is its table, in order.
    ArchiveOpened { entries: Vec<ArchiveEntry> },
    /// The entry was written to its destination.
    EntryExtracted,
    /// The action failed.
    IoFailed { kind: FailureKind, detail: String },
}

/// View of [`Event`].
pub enum EventView {
    ListingAnswered { status: u16, rate_limit_remaining: Option<Seq<char>>, items: Seq<ContentItem> },
    OutputDirReady,
    FileStarting,
    FileSaved { size: u64 },
    FilesFinished,
    ArchiveAnswered { status: u16 },
    ChunkArrived,
    ChunkWritten { len: u64, now_ms: u64 },
    StreamEnded,
    ArchiveOpened { entries: Seq<EntryView> },
    EntryExtracted,
    IoFailed { kind: FailureKind, detail: Seq<char> },
}

impl View for Event {
    type V = EventView;

    open spec fn view(&self) -> EventView {
        match self {
            Event::ListingAnswered { status, rate_limit_remaining, items } => {
                EventView::ListingAnswered {
                    status: *status,
                    rate_limit_remaining: rate_limit_remaining.deep_view(),
                    items: items.deep_view(),
                }
            },
            Event::OutputDirReady => EventView::OutputDirReady,
            Event::FileStarting => EventView::FileStarting,
            Event::FileSaved { size } => EventView::FileSaved { size: *size },
            Event::FilesFinished => EventView::FilesFinished,
            Event::ArchiveAnswered { status } => EventView::ArchiveAnswered { status: *status },
            Event::ChunkArrived => EventView::ChunkArrived,
            Event::ChunkWritten { len, now_ms } => EventView::ChunkWritten {
                len: *len,
                now_ms: *now_ms,
            },
            Event::StreamEnded => EventView::StreamEnded,
            Event::ArchiveOpened { entries } => EventView::ArchiveOpened {
                entries: entries.deep_view(),
            },
            Event::EntryExtracted => EventView::EntryExtracted,
            Event::IoFailed { kind, detail } => EventView::IoFailed { kind: *kind, detail: detail@ },
        }
    }
}

/// One file to fetch: where from, and where to.
#[derive(Debug, Clone)]
pub struct FetchJob {
    pub url: String,
    pub destination: String,
}

/// View of [`FetchJob`].
pub struct JobView {
    pub url: Seq<char>,
    pub destination: Seq<char>,
}

impl View for FetchJob {
    type V = JobView;

    open spec fn view(&self) -> JobView {
        JobView { url: self.url@, destination: self.destination@ }
    }
}

impl DeepView for FetchJob {
    type V = JobView;

    open spec fn deep_view(&self) -> JobView {
        self@
    }
}

/// What the caller does next.
#[derive(Debug)]
pub enum Action {
    /// Request the listing at `url`.
    ListDirectory { url: String },
    /// Create the directory `path` and its parents.
    CreateOutputDir { path: String },
    /// Fetch the files, at most [`FETCH_CONCURRENCY`] at once. Each file is
    /// announced with `FileStarting`; when the answer is `Proceed`, it is
    /// requested and written, and `FileSaved` or `IoFailed` says what came of
    /// it. `FilesFinished` ends the batch.
    FetchFiles { jobs: Vec<FetchJob> },
    /// Create the parent directories of the file that was announced, request it, and write it.
    Proceed,
    /// Make no request for the file that was announced.
    Skip,
    /// Nothing new: go on with the work at hand.
    Idle,
    /// Request the archive at `url`.
    DownloadArchive { url: String },
    /// Wait for the next chunk of the archive. The first time, create the
    /// temporary file that receives it.
    ReceiveChunk,
    /// Append the chunk to the temporary file.
    WriteChunk,
    /// Open the archive and read the table of its entries.
    OpenArchive,
    /// Write the content of entry `index` to `destination`, creating its parent directories.
    ExtractEntry { index: usize, destination: String },
    /// The acquisition is over: release what it held, and hand on the outcome.
    Finish(Result<GitDownloadResult, DownloadError>),
}

/// View of [`Action`].
pub enum ActionView {
    ListDirectory { url: Seq<char> },
    CreateOutputDir { path: Seq<char> },
    FetchFiles { jobs: Seq<JobView> },
    Proceed,
    Skip,
    Idle,
    DownloadArchive { url: Seq<char> },
    ReceiveChunk,
    WriteChunk,
    OpenArchive,
    ExtractEntry { index: usize, destination: Seq<char> },
    Finish(Result<AcquisitionResult, ErrorView>),
}

impl View for Action {
    type V = ActionView;

    open spec fn view(&self) -> ActionView {
        match self {
            Action::ListDirectory { url } => ActionView::ListDirectory { url: url@ },
            Action::CreateOutputDir { path } => ActionView::CreateOutputDir { path: path@ },
            Action::FetchFiles { jobs } => ActionView::FetchFiles { jobs: jobs.deep_view() },
            Action::Proceed => ActionView::Proceed,
            Action::Skip => ActionView::Skip,
            Action::Idle => ActionView::Idle,
            Action::DownloadArchive { url } => ActionView::DownloadArchive { url: url@ },
            Action::ReceiveChunk => ActionView::ReceiveChunk,
            Action::WriteChunk => ActionView::WriteChunk,
            Action::OpenArchive => ActionView::OpenArchive,
            Action::ExtractEntry { index, destination } => ActionView::ExtractEntry {
                index: *index,
                destination: destination@,
            },
            Action::Finish(outcome) => ActionView::Finish(
                match outcome {
                    Ok(result) => Ok(result@),
                    Err(error) => Err(error@),
                },
            ),
        }
    }
}

/// What one step hands the caller.
#[derive(Debug)]
pub struct Output {
    /// The reports to emit, in order.
    pub events: Vec<GitDownloadProgress>,
    pub action: Action,
}

/// View of [`Output`].
pub struct OutputView {
    pub events: Seq<ProgressEvent>,
    pub action: ActionView,
}

impl View for Output {
    type V = OutputView;

    open spec fn view(&self) -> OutputView {
        OutputView { events: self.events.deep_view(), action: self.action@ }
    }
}

/// View of [`Engine`].
pub struct EngineView {
    pub info: RepositoryRef,
    pub output_path: Seq<char>,
    pub options: GitDownloadOptions,
    pub phase: Phase,
    /// The directory whose listing is awaited.
    pub listed_path: Seq<char>,
    /// The listed items still to visit, the next one first.
    pub pending: Seq<ContentItem>,
    /// The files found so far.
    pub files: Seq<FileDescriptor>,
    /// The directory that receives the files.
    pub output_dir: Seq<char>,
    /// The files to fetch, or the entries to extract.
    pub total: u32,
    /// The files saved, or the entries extracted.
    pub processed: u32,
    /// The bytes saved or extracted; while the archive is received, the bytes received.
    pub bytes: u64,
    /// Whether a file of the batch was skipped because of cancellation.
    pub cancel_seen: bool,
    /// When progress was last reported while receiving the archive.
    pub last_report_ms: u64,
    /// The table of the archive.
    pub entries: Seq<EntryView>,
    /// The prefix that selects the entries to extract.
    pub prefix: Seq<char>,
    /// The entry being extracted.
    pub cursor: usize,
}

/// The error that a failed action stands for.
pub open spec fn failure(kind: FailureKind, detail: Seq<char>) -> ErrorView {
    match kind {
        FailureKind::Network => ErrorView::NetworkError(detail),
        FailureKind::Write => ErrorView::WriteError(detail),
    }
}

/// How many of the first `upto` files found are accepted: how many have a
/// path that stays below the output directory.
pub open spec fn accepted_upto(files: Seq<FileDescriptor>, base: Seq<char>, upto: int) -> nat
    decreases upto,
{
    if upto <= 0 || upto > files.len() {
        0
    } else {
        accepted_upto(files, base, upto - 1) + if file_accepted(
            files[upto - 1].relative_path,
            base,
        ) {
            1nat
        } else {
            0nat
        }
    }
}

/// How many of the files found are accepted.
pub open spec fn accepted_count(files: Seq<FileDescriptor>, base: Seq<char>) -> nat {
    accepted_upto(files, base, files.len() as int)
}

/// The job that fetches a file.
pub open spec fn job_of(
    file: FileDescriptor,
    output_dir: Seq<char>,
    base: Seq<char>,
    flatten: bool,
) -> JobView {
    JobView {
        url: file.download_url,
        destination: listed_destination(output_dir, file.relative_path, base, flatten),
    }
}

/// The jobs for the first `upto` files found: one for each accepted file, in order.
pub open spec fn jobs_upto(
    files: Seq<FileDescriptor>,
    output_dir: Seq<char>,
    base: Seq<char>,
    flatten: bool,
    upto: int,
) -> Seq<JobView>
    decreases upto,
{
    if upto <= 0 || upto > files.len() {
        Seq::empty()
    } else {
        let earlier = jobs_upto(files, output_dir, base, flatten, upto - 1);
        if file_accepted(files[upto - 1].relative_path, base) {
            earlier.push(job_of(files[upto - 1], output_dir, base, flatten))
        } else {
            earlier
        }
    }
}

/// The jobs of a batch: one for each file found whose path stays below the
/// output directory, in order. A file whose path would leave it is not fetched.
pub open spec fn jobs_of(
    files: Seq<FileDescriptor>,
    output_dir: Seq<char>,
    base: Seq<char>,
    flatten: bool,
) -> Seq<JobView> {
    jobs_upto(files, output_dir, base, flatten, files.len() as int)
}

/// Nothing happens.
pub open spec fn idle(s: EngineView) -> (EngineView, OutputView) {
    (s, OutputView { events: Seq::empty(), action: ActionView::Idle })
}

/// The phase that an error ends the acquisition in.
pub open spec fn phase_after(error: ErrorView) -> Phase {
    if error is Cancelled {
        Phase::Cancelled
    } else {
        Phase::Failed
    }
}

/// The acquisition ends with `error`, after `events`.
pub open spec fn fail(s: EngineView, events: Seq<ProgressEvent>, error: ErrorView) -> (
    EngineView,
    OutputView,
) {
    (
        EngineView { phase: phase_after(error), ..s },
        OutputView { events, action: ActionView::Finish(Err(error)) },
    )
}

/// The archive is requested, after `events`.
pub open spec fn enter_archive(s: EngineView, events: Seq<ProgressEvent>) -> (
    EngineView,
    OutputView,
) {
    (
        EngineView { phase: Phase::RequestingArchive, ..s },
        OutputView {
            events: events.push(archive_started_event()),
            action: ActionView::DownloadArchive { url: archive_url(s.info) },
        },
    )
}

/// The engine as it starts, and the first thing to do: list the directory,
/// or request the archive when the whole repository is asked for.
pub open spec fn start_view(
    info: RepositoryRef,
    output_path: Seq<char>,
    options: GitDownloadOptions,
) -> (EngineView, OutputView) {
    let s = EngineView {
        info,
        output_path,
        options,
        phase: Phase::Listing,
        listed_path: info.path,
        pending: Seq::empty(),
        files: Seq::empty(),
        output_dir: Seq::empty(),
        total: 0,
        processed: 0,
        bytes: 0,
        cancel_seen: false,
        last_report_ms: 0,
        entries: Seq::empty(),
        prefix: Seq::empty(),
        cursor: 0,
    };
    if info.path.len() == 0 {
        enter_archive(s, seq![connecting_event()])
    } else {
        (
            s,
            OutputView {
                events: seq![connecting_event(), listing_event()],
                action: ActionView::ListDirectory { url: listing_url(info, info.path) },
            },
        )
    }
}

/// A listing was answered. A failure ends the acquisition, or turns it to
/// the archive. Else the walk goes on: to the next directory, or, when none
/// is left, to the batch of the files found that are accepted. With no such
/// file the acquisition fails.
pub open spec fn on_listing_answered(
    s: EngineView,
    status: u16,
    remaining: Option<Seq<char>>,
    items: Seq<ContentItem>,
) -> (EngineView, OutputView) {
    if s.phase != Phase::Listing {
        idle(s)
    } else {
        match listing_failure(status, remaining, s.listed_path) {
            Some(error) => if is_final_failure(error) {
                fail(s, Seq::empty(), error)
            } else {
                enter_archive(s, Seq::empty())
            },
            None => {
                let w = walk(items + s.pending, s.files);
                let walked = EngineView { pending: w.pending, files: w.files, ..s };
                match w.next_dir {
                    Some(path) => (
                        EngineView { listed_path: path, ..walked },
                        OutputView {
                            events: Seq::empty(),
                            action: ActionView::ListDirectory { url: listing_url(s.info, path) },
                        },
                    ),
                    None => if accepted_count(w.files, s.info.path) == 0 {
                        fail(walked, Seq::empty(), ErrorView::PathEmpty)
                    } else {
                        let total = clamp_u32(accepted_count(w.files, s.info.path));
                        let dir = final_output_dir(s.output_path, s.info, s.options);
                        (
                            EngineView {
                                phase: Phase::PreparingFetch,
                                output_dir: dir,
                                total,
                                processed: 0,
                                bytes: 0,
                                cancel_seen: false,
                                ..walked
                            },
                            OutputView {
                                events: seq![found_files_event(total)],
                                action: ActionView::CreateOutputDir { path: dir },
                            },
                        )
                    },
                }
            },
        }
    }
}

/// The acquisition succeeds, after `events` and the final report.
pub open spec fn finish(s: EngineView, events: Seq<ProgressEvent>, total: u32) -> (
    EngineView,
    OutputView,
) {
    (
        EngineView { phase: Phase::Complete, ..s },
        OutputView {
            events: events.push(complete_event(s.processed, total)),
            action: ActionView::Finish(
                Ok(
                    AcquisitionResult {
                        success: true,
                        files_count: s.processed,
                        total_size: s.bytes,
                        output_path: s.output_dir,
                    },
                ),
            ),
        },
    )
}

/// Extraction goes on with the entries from `from` on: it ends when none is
/// left, stops when cancelled, and otherwise turns to the next selected entry.
pub open spec fn continue_extraction(
    s: EngineView,
    events: Seq<ProgressEvent>,
    from: int,
    cancelled: bool,
) -> (EngineView, OutputView) {
    if from >= s.entries.len() {
        finish(s, events, s.total)
    } else if cancelled {
        fail(s, events, ErrorView::Cancelled)
    } else {
        let next = next_selected(s.entries, s.prefix, from);
        if next >= s.entries.len() {
            finish(s, events, s.total)
        } else {
            (
                EngineView { phase: Phase::Extracting, cursor: next as usize, ..s },
                OutputView {
                    events,
                    action: ActionView::ExtractEntry {
                        index: next as usize,
                        destination: entry_destination(
                            s.output_dir,
                            s.entries[next].name,
                            s.prefix,
                            s.options.flatten_structure,
                        ),
                    },
                },
            )
        }
    }
}

/// The output directory exists.
pub open spec fn on_output_dir_ready(s: EngineView, cancelled: bool) -> (EngineView, OutputView) {
    if s.phase == Phase::PreparingFetch {
        (
            EngineView { phase: Phase::Fetching, ..s },
            OutputView {
                events: Seq::empty(),
                action: ActionView::FetchFiles {
                    jobs: jobs_of(s.files, s.output_dir, s.info.path, s.options.flatten_structure),
                },
            },
        )
    } else if s.phase == Phase::PreparingExtract {
        let matching = clamp_u32(selected_count(s.entries, s.prefix));
        if matching == 0 && s.info.path.len() > 0 {
            fail(s, Seq::empty(), ErrorView::FolderNotFound)
        } else {
            continue_extraction(
                EngineView { total: matching, processed: 0, bytes: 0, ..s },
                seq![found_entries_event(matching)],
                0,
                cancelled,
            )
        }
    } else {
        idle(s)
    }
}

/// A file of the batch is about to be requested.
pub open spec fn on_file_starting(s: EngineView, cancelled: bool) -> (EngineView, OutputView) {
    if s.phase != Phase::Fetching {
        idle(s)
    } else if cancelled {
        (
            EngineView { cancel_seen: true, ..s },
            OutputView { events: Seq::empty(), action: ActionView::Skip },
        )
    } else {
        (s, OutputView { events: Seq::empty(), action: ActionView::Proceed })
    }
}

/// A file of the batch was written.
pub open spec fn on_file_saved(s: EngineView, size: u64) -> (EngineView, OutputView) {
    if s.phase != Phase::Fetching {
        idle(s)
    } else {
        let processed = saturating_u32(s.processed, 1);
        (
            EngineView { processed, bytes: saturating_u64(s.bytes, size), ..s },
            OutputView {
                events: seq![file_saved_event(processed, s.total)],
                action: ActionView::Idle,
            },
        )
    }
}

/// The batch is over.
pub open spec fn on_files_finished(s: EngineView) -> (EngineView, OutputView) {
    if s.phase != Phase::Fetching {
        idle(s)
    } else if s.cancel_seen {
        fail(s, Seq::empty(), ErrorView::Cancelled)
    } else {
        finish(s, Seq::empty(), s.processed)
    }
}

/// The archive request was answered.
pub open spec fn on_archive_answered(s: EngineView, status: u16) -> (EngineView, OutputView) {
    if s.phase != Phase::RequestingArchive {
        idle(s)
    } else {
        match archive_failure(status) {
            Some(error) => fail(s, Seq::empty(), error),
            None => (
                EngineView { phase: Phase::Receiving, bytes: 0, last_report_ms: 0, ..s },
                OutputView { events: Seq::empty(), action: ActionView::ReceiveChunk },
            ),
        }
    }
}

/// A chunk arrived.
pub open spec fn on_chunk_arrived(s: EngineView, cancelled: bool) -> (EngineView, OutputView) {
    if s.phase != Phase::Receiving {
        idle(s)
    } else if cancelled {
        fail(s, Seq::empty(), ErrorView::Cancelled)
    } else {
        (
            EngineView { phase: Phase::WritingChunk, ..s },
            OutputView { events: Seq::empty(), action: ActionView::WriteChunk },
        )
    }
}

/// Whether progress is due at `now_ms`.
pub open spec fn report_due(last_report_ms: u64, now_ms: u64) -> bool {
    now_ms - last_report_ms > REPORT_INTERVAL_MS
}

/// A chunk was written.
pub open spec fn on_chunk_written(s: EngineView, len: u64, now_ms: u64) -> (EngineView, OutputView) {
    if s.phase != Phase::WritingChunk {
        idle(s)
    } else {
        let received = saturating_u64(s.bytes, len);
        if report_due(s.last_report_ms, now_ms) {
            (
                EngineView { phase: Phase::Receiving, bytes: received, last_report_ms: now_ms, ..s },
                OutputView {
                    events: seq![archive_progress_event(received)],
                    action: ActionView::ReceiveChunk,
                },
            )
        } else {
            (
                EngineView { phase: Phase::Receiving, bytes: received, ..s },
                OutputView { events: Seq::empty(), action: ActionView::ReceiveChunk },
            )
        }
    }
}

/// The archive was received whole.
pub open spec fn on_stream_ended(s: EngineView) -> (EngineView, OutputView) {
    if s.phase != Phase::Receiving {
        idle(s)
    } else {
        (
            EngineView { phase: Phase::OpeningArchive, ..s },
            OutputView {
                events: seq![archive_saved_event(s.bytes), extracting_event()],
                action: ActionView::OpenArchive,
            },
        )
    }
}

/// The archive was opened.
pub open spec fn on_archive_opened(s: EngineView, entries: Seq<EntryView>) -> (
    EngineView,
    OutputView,
) {
    if s.phase != Phase::OpeningArchive {
        idle(s)
    } else if entries.len() == 0 {
        fail(s, Seq::empty(), ErrorView::EmptyArchive)
    } else {
        let dir = final_output_dir(s.output_path, s.info, s.options);
        (
            EngineView {
                phase: Phase::PreparingExtract,
                entries,
                prefix: filter_prefix(root_prefix(entries[0].name), s.info.path),
                output_dir: dir,
                ..s
            },
            OutputView {
                events: Seq::empty(),
                action: ActionView::CreateOutputDir { path: dir },
            },
        )
    }
}

/// The entry at the cursor was written.
pub open spec fn on_entry_extracted(s: EngineView, cancelled: bool) -> (EngineView, OutputView) {
    if s.phase != Phase::Extracting {
        idle(s)
    } else {
        let size = if s.cursor < s.entries.len() {
            s.entries[s.cursor as int].size
        } else {
            0
        };
        let processed = saturating_u32(s.processed, 1);
        continue_extraction(
            EngineView { processed, bytes: saturating_u64(s.bytes, size), ..s },
            seq![entry_extracted_event(processed, s.total)],
            s.cursor + 1,
            cancelled,
        )
    }
}

/// The action failed. A failed listing is answered by switching to the
/// archive; a file of the batch that failed is given up and the batch goes
/// on; any other failure ends the acquisition.
pub open spec fn on_io_failed(s: EngineView, kind: FailureKind, detail: Seq<char>) -> (
    EngineView,
    OutputView,
) {
    match s.phase {
        Phase::Listing => enter_archive(s, Seq::empty()),
        Phase::Fetching | Phase::Complete | Phase::Failed | Phase::Cancelled => idle(s),
        _ => fail(s, Seq::empty(), failure(kind, detail)),
    }
}

/// One step of the engine: the state after `event`, and what to emit and do.
/// An event that does not answer what the engine waits for changes nothing.
pub open spec fn step_view(s: EngineView, event: EventView, cancelled: bool) -> (
    EngineView,
    OutputView,
) {
    match event {
        EventView::ListingAnswered { status, rate_limit_remaining, items } => on_listing_answered(
            s,
            status,
            rate_limit_remaining,
            items,
        ),
        EventView::OutputDirReady => on_output_dir_ready(s, cancelled),
        EventView::FileStarting => on_file_starting(s, cancelled),
        EventView::FileSaved { size } => on_file_saved(s, size),
        EventView::FilesFinished => on_files_finished(s),
        EventView::ArchiveAnswered { status } => on_archive_answered(s, status),
        EventView::ChunkArrived => on_chunk_arrived(s, cancelled),
        EventView::ChunkWritten { len, now_ms } => on_chunk_written(s, len, now_ms),
        EventView::StreamEnded => on_stream_ended(s),
        EventView::ArchiveOpened { entries } => on_archive_opened(s, entries),
        EventView::EntryExtracted => on_entry_extracted(s, cancelled),
        EventView::IoFailed { kind, detail } => on_io_failed(s, kind, detail),
    }
}

} // verus!
