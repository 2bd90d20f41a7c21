//! The engine: the executable state machine of an acquisition. What a step
//! does is stated by [`step_view`]; the engine computes exactly that.

use crate::archive::{
    add_bytes, archive_address, clamp_len, classify_archive, count_selected, find_selected,
    increment,
};
use crate::layout::{
    archive_filter, archive_root, destination_of_entry, destination_of_listed, is_accepted,
    output_dir,
};
use crate::lister::{classify_listing, list_url, pending_of, push_listing, walk_stack};
use crate::model::{
    ArchiveEntry, DownloadError, FileToDownload, GitDownloadOptions, GitDownloadProgress,
    GitDownloadResult, GitHubContentItem, GitHubUrlInfo, ProgressEvent,
};
use crate::progress;
use crate::transition::{
    accepted_count, accepted_upto, continue_extraction, enter_archive, finish, job_of, jobs_of,
    jobs_upto, on_archive_answered, on_archive_opened, on_chunk_arrived, on_chunk_written,
    on_entry_extracted, on_file_saved, on_file_starting, on_files_finished, on_io_failed,
    on_listing_answered, on_output_dir_ready, on_stream_ended, start_view, step_view, Action,
    EngineView, Event, FailureKind, FetchJob, JobView, Output, Phase, REPORT_INTERVAL_MS,
};
use vstd::prelude::*;
use vstd::string::*;

verus! {

/// The state of one acquisition.
pub struct Engine {
    info: GitHubUrlInfo,
    output_path: String,
    options: GitDownloadOptions,
    phase: Phase,
    listed_path: String,
    /// The listed items still to visit; the next one is the last.
    stack: Vec<GitHubContentItem>,
    files: Vec<FileToDownload>,
    output_dir: String,
    total: u32,
    processed: u32,
    bytes: u64,
    cancel_seen: bool,
    last_report_ms: u64,
    entries: Vec<ArchiveEntry>,
    prefix: String,
    cursor: usize,
}

impl View for Engine {
    type V = EngineView;

    closed spec fn view(&self) -> EngineView {
        EngineView {
            info: self.info@,
            output_path: self.output_path@,
            options: self.options,
            phase: self.phase,
            listed_path: self.listed_path@,
            pending: pending_of(self.stack@),
            files: self.files.deep_view(),
            output_dir: self.output_dir@,
            total: self.total,
            processed: self.processed,
            bytes: self.bytes,
            cancel_seen: self.cancel_seen,
            last_report_ms: self.last_report_ms,
            entries: self.entries.deep_view(),
            prefix: self.prefix@,
            cursor: self.cursor,
        }
    }
}

fn no_events() -> (r: Vec<GitDownloadProgress>)
    ensures
        r.deep_view() == Seq::<ProgressEvent>::empty(),
{
    let r: Vec<GitDownloadProgress> = Vec::new();
    assert(r.deep_view() =~= Seq::<ProgressEvent>::empty());
    r
}

fn one_event(event: GitDownloadProgress) -> (r: Vec<GitDownloadProgress>)
    ensures
        r.deep_view() == seq![event@],
{
    let mut r: Vec<GitDownloadProgress> = Vec::new();
    r.push(event);
    assert(r.deep_view() =~= seq![event@]);
    r
}

fn with_event(events: Vec<GitDownloadProgress>, event: GitDownloadProgress) -> (r: Vec<
    GitDownloadProgress,
>)
    ensures
        r.deep_view() == events.deep_view().push(event@),
{
    let mut r = events;
    r.push(event);
    assert(r.deep_view() =~= events.deep_view().push(event@));
    r
}

fn idle_output() -> (r: Output)
    ensures
        r@.events == Seq::<ProgressEvent>::empty(),
        r@.action == crate::transition::ActionView::Idle,
{
    Output { events: no_events(), action: Action::Idle }
}

fn failure_of(kind: FailureKind, detail: String) -> (r: DownloadError)
    ensures
        r@ == crate::transition::failure(kind, detail@),
{
    match kind {
        FailureKind::Network => DownloadError::NetworkError(detail),
        FailureKind::Write => DownloadError::WriteError(detail),
    }
}

fn is_final(error: &DownloadError) -> (r: bool)
    ensures
        r == crate::lister::is_final_failure(error@),
{
    match error {
        DownloadError::RateLimited(_) => true,
        DownloadError::AccessDenied => true,
        _ => false,
    }
}

fn jobs_for(files: &Vec<FileToDownload>, output_dir: &str, base: &str, flatten: bool) -> (r: Vec<
    FetchJob,
>)
    ensures
        r.deep_view() == jobs_of(files.deep_view(), output_dir@, base@, flatten),
{
    let mut jobs: Vec<FetchJob> = Vec::new();
    assert(jobs.deep_view() =~= Seq::<JobView>::empty());
    let mut i: usize = 0;
    while i < files.len()
        invariant
            i <= files.len(),
            jobs.deep_view() == jobs_upto(files.deep_view(), output_dir@, base@, flatten, i as int),
        decreases files.len() - i,
    {
        let file = &files[i];
        assert(files.deep_view()[i as int] == file@);
        if is_accepted(file.relative_path.as_str(), base) {
            let ghost before = jobs.deep_view();
            let destination = destination_of_listed(
                output_dir,
                file.relative_path.as_str(),
                base,
                flatten,
            );
            let job = FetchJob { url: file.download_url.clone(), destination };
            assert(job@ == job_of(file@, output_dir@, base@, flatten));
            jobs.push(job);
            assert(jobs.deep_view() =~= before.push(job@));
        }
        i = i + 1;
    }
    jobs
}

fn count_accepted(files: &Vec<FileToDownload>, base: &str) -> (r: usize)
    ensures
        r == accepted_count(files.deep_view(), base@),
{
    let mut count: usize = 0;
    let mut i: usize = 0;
    while i < files.len()
        invariant
            i <= files.len(),
            count <= i,
            count == accepted_upto(files.deep_view(), base@, i as int),
        decreases files.len() - i,
    {
        assert(files.deep_view()[i as int] == files@[i as int]@);
        if is_accepted(files[i].relative_path.as_str(), base) {
            count = count + 1;
        }
        i = i + 1;
    }
    count
}

impl Engine {
    /// Starts an acquisition of `info` into `output_path`.
    pub fn start(info: GitHubUrlInfo, output_path: String, options: GitDownloadOptions) -> (r: (
        Engine,
        Output,
    ))
        ensures
            (r.0@, r.1@) == start_view(info@, output_path@, options),
    {
        let whole = info.path.as_str().unicode_len() == 0;
        let url = if whole {
            archive_address(&info)
        } else {
            list_url(&info, info.path.as_str())
        };
        let listed_path = info.path.clone();
        let engine = Engine {
            info,
            output_path,
            options,
            phase: if whole {
                Phase::RequestingArchive
            } else {
                Phase::Listing
            },
            listed_path,
            stack: Vec::new(),
            files: Vec::new(),
            output_dir: String::new(),
            total: 0,
            processed: 0,
            bytes: 0,
            cancel_seen: false,
            last_report_ms: 0,
            entries: Vec::new(),
            prefix: String::new(),
            cursor: 0,
        };
        assert(engine@.pending =~= Seq::empty());
        assert(engine@.files =~= Seq::empty());
        assert(engine@.entries =~= Seq::empty());
        let events = one_event(progress::connecting());
        let out = if whole {
            Output {
                events: with_event(events, progress::archive_started()),
                action: Action::DownloadArchive { url },
            }
        } else {
            let events = with_event(events, progress::listing());
            assert(events.deep_view() =~= seq![
                progress::connecting_event(),
                progress::listing_event(),
            ]);
            Output { events, action: Action::ListDirectory { url } }
        };
        (engine, out)
    }

    /// What the engine is waiting for.
    pub fn phase(&self) -> (r: Phase)
        ensures
            r == self@.phase,
    {
        self.phase
    }

    /// Whether the acquisition is over.
    pub fn is_over(&self) -> (r: bool)
        ensures
            r == (self@.phase == Phase::Complete || self@.phase == Phase::Failed || self@.phase
                == Phase::Cancelled),
    {
        self.phase == Phase::Complete || self.phase == Phase::Failed || self.phase
            == Phase::Cancelled
    }

    fn fail_with(&mut self, events: Vec<GitDownloadProgress>, error: DownloadError) -> (out: Output)
        ensures
            (final(self)@, out@) == crate::transition::fail(
                old(self)@,
                events.deep_view(),
                error@,
            ),
    {
        self.phase = match &error {
            DownloadError::Cancelled => Phase::Cancelled,
            _ => Phase::Failed,
        };
        Output { events, action: Action::Finish(Err(error)) }
    }

    fn request_archive(&mut self, events: Vec<GitDownloadProgress>) -> (out: Output)
        ensures
            (final(self)@, out@) == enter_archive(old(self)@, events.deep_view()),
    {
        self.phase = Phase::RequestingArchive;
        Output {
            events: with_event(events, progress::archive_started()),
            action: Action::DownloadArchive { url: archive_address(&self.info) },
        }
    }

    fn finish_with(&mut self, events: Vec<GitDownloadProgress>, total: u32) -> (out: Output)
        ensures
            (final(self)@, out@) == finish(old(self)@, events.deep_view(), total),
    {
        self.phase = Phase::Complete;
        Output {
            events: with_event(events, progress::complete(self.processed, total)),
            action: Action::Finish(
                Ok(
                    GitDownloadResult {
                        success: true,
                        files_count: self.processed,
                        total_size: self.bytes,
                        output_path: self.output_dir.clone(),
                    },
                ),
            ),
        }
    }

    fn extract_from(&mut self, events: Vec<GitDownloadProgress>, from: usize, cancelled: bool) -> (out:
        Output)
        ensures
            (final(self)@, out@) == continue_extraction(
                old(self)@,
                events.deep_view(),
                from as int,
                cancelled,
            ),
    {
        if from >= self.entries.len() {
            let total = self.total;
            self.finish_with(events, total)
        } else if cancelled {
            self.fail_with(events, DownloadError::Cancelled)
        } else {
            let next = find_selected(&self.entries, self.prefix.as_str(), from);
            if next >= self.entries.len() {
                let total = self.total;
                self.finish_with(events, total)
            } else {
                assert(self.entries.deep_view()[next as int] == self.entries@[next as int]@);
                let destination = destination_of_entry(
                    self.output_dir.as_str(),
                    self.entries[next].name.as_str(),
                    self.prefix.as_str(),
                    self.options.flatten_structure,
                );
                self.phase = Phase::Extracting;
                self.cursor = next;
                Output { events, action: Action::ExtractEntry { index: next, destination } }
            }
        }
    }

    fn listing_answered(
        &mut self,
        status: u16,
        remaining: Option<String>,
        items: Vec<GitHubContentItem>,
    ) -> (out: Output)
        ensures
            (final(self)@, out@) == on_listing_answered(
                old(self)@,
                status,
                remaining.deep_view(),
                items.deep_view(),
            ),
    {
        if self.phase != Phase::Listing {
            return idle_output();
        }
        match classify_listing(status, &remaining, self.listed_path.as_str()) {
            Some(error) => {
                if is_final(&error) {
                    self.fail_with(no_events(), error)
                } else {
                    self.request_archive(no_events())
                }
            },
            None => {
                push_listing(&mut self.stack, items);
                let next = walk_stack(&mut self.stack, &mut self.files);
                match next {
                    Some(path) => {
                        let url = list_url(&self.info, path.as_str());
                        self.listed_path = path;
                        Output { events: no_events(), action: Action::ListDirectory { url } }
                    },
                    None => {
                        let accepted = count_accepted(&self.files, self.info.path.as_str());
                        if accepted == 0 {
                            self.fail_with(no_events(), DownloadError::PathEmpty)
                        } else {
                            let total = clamp_len(accepted);
                            let dir = output_dir(
                                self.output_path.as_str(),
                                &self.info,
                                &self.options,
                            );
                            self.phase = Phase::PreparingFetch;
                            self.output_dir = dir.clone();
                            self.total = total;
                            self.processed = 0;
                            self.bytes = 0;
                            self.cancel_seen = false;
                            Output {
                                events: one_event(progress::found_files(total)),
                                action: Action::CreateOutputDir { path: dir },
                            }
                        }
                    },
                }
            },
        }
    }

    fn output_dir_ready(&mut self, cancelled: bool) -> (out: Output)
        ensures
            (final(self)@, out@) == on_output_dir_ready(old(self)@, cancelled),
    {
        if self.phase == Phase::PreparingFetch {
            let jobs = jobs_for(
                &self.files,
                self.output_dir.as_str(),
                self.info.path.as_str(),
                self.options.flatten_structure,
            );
            self.phase = Phase::Fetching;
            Output { events: no_events(), action: Action::FetchFiles { jobs } }
        } else if self.phase == Phase::PreparingExtract {
            let matching = count_selected(&self.entries, self.prefix.as_str());
            if matching == 0 && self.info.path.as_str().unicode_len() > 0 {
                self.fail_with(no_events(), DownloadError::FolderNotFound)
            } else {
                self.total = matching;
                self.processed = 0;
                self.bytes = 0;
                self.extract_from(one_event(progress::found_entries(matching)), 0, cancelled)
            }
        } else {
            idle_output()
        }
    }

    fn file_starting(&mut self, cancelled: bool) -> (out: Output)
        ensures
            (final(self)@, out@) == on_file_starting(old(self)@, cancelled),
    {
        if self.phase != Phase::Fetching {
            idle_output()
        } else if cancelled {
            self.cancel_seen = true;
            Output { events: no_events(), action: Action::Skip }
        } else {
            Output { events: no_events(), action: Action::Proceed }
        }
    }

    fn file_saved(&mut self, size: u64) -> (out: Output)
        ensures
            (final(self)@, out@) == on_file_saved(old(self)@, size),
    {
        if self.phase != Phase::Fetching {
            idle_output()
        } else {
            self.processed = increment(self.processed);
            self.bytes = add_bytes(self.bytes, size);
            Output {
                events: one_event(progress::file_saved(self.processed, self.total)),
                action: Action::Idle,
            }
        }
    }

    fn files_finished(&mut self) -> (out: Output)
        ensures
            (final(self)@, out@) == on_files_finished(old(self)@),
    {
        if self.phase != Phase::Fetching {
            idle_output()
        } else if self.cancel_seen {
            self.fail_with(no_events(), DownloadError::Cancelled)
        } else {
            let total = self.processed;
            self.finish_with(no_events(), total)
        }
    }

    fn archive_answered(&mut self, status: u16) -> (out: Output)
        ensures
            (final(self)@, out@) == on_archive_answered(old(self)@, status),
    {
        if self.phase != Phase::RequestingArchive {
            return idle_output();
        }
        match classify_archive(status) {
            Some(error) => self.fail_with(no_events(), error),
            None => {
                self.phase = Phase::Receiving;
                self.bytes = 0;
                self.last_report_ms = 0;
                Output { events: no_events(), action: Action::ReceiveChunk }
            },
        }
    }

    fn chunk_arrived(&mut self, cancelled: bool) -> (out: Output)
        ensures
            (final(self)@, out@) == on_chunk_arrived(old(self)@, cancelled),
    {
        if self.phase != Phase::Receiving {
            idle_output()
        } else if cancelled {
            self.fail_with(no_events(), DownloadError::Cancelled)
        } else {
            self.phase = Phase::WritingChunk;
            Output { events: no_events(), action: Action::WriteChunk }
        }
    }

    fn chunk_written(&mut self, len: u64, now_ms: u64) -> (out: Output)
        ensures
            (final(self)@, out@) == on_chunk_written(old(self)@, len, now_ms),
    {
        if self.phase != Phase::WritingChunk {
            return idle_output();
        }
        self.phase = Phase::Receiving;
        self.bytes = add_bytes(self.bytes, len);
        if now_ms > self.last_report_ms && now_ms - self.last_report_ms > REPORT_INTERVAL_MS {
            self.last_report_ms = now_ms;
            Output {
                events: one_event(progress::archive_progress(self.bytes)),
                action: Action::ReceiveChunk,
            }
        } else {
            Output { events: no_events(), action: Action::ReceiveChunk }
        }
    }

    fn stream_ended(&mut self) -> (out: Output)
        ensures
            (final(self)@, out@) == on_stream_ended(old(self)@),
    {
        if self.phase != Phase::Receiving {
            return idle_output();
        }
        self.phase = Phase::OpeningArchive;
        let events = with_event(
            one_event(progress::archive_saved(self.bytes)),
            progress::extracting(),
        );
        assert(events.deep_view() =~= seq![
            progress::archive_saved_event(self.bytes),
            progress::extracting_event(),
        ]);
        Output { events, action: Action::OpenArchive }
    }

    fn archive_opened(&mut self, entries: Vec<ArchiveEntry>) -> (out: Output)
        ensures
            (final(self)@, out@) == on_archive_opened(old(self)@, entries.deep_view()),
    {
        if self.phase != Phase::OpeningArchive {
            idle_output()
        } else if entries.len() == 0 {
            self.fail_with(no_events(), DownloadError::EmptyArchive)
        } else {
            assert(entries.deep_view()[0] == entries@[0]@);
            let root = archive_root(entries[0].name.as_str());
            let prefix = archive_filter(root.as_str(), self.info.path.as_str());
            let dir = output_dir(self.output_path.as_str(), &self.info, &self.options);
            self.phase = Phase::PreparingExtract;
            self.entries = entries;
            self.prefix = prefix;
            self.output_dir = dir.clone();
            Output { events: no_events(), action: Action::CreateOutputDir { path: dir } }
        }
    }

    fn entry_extracted(&mut self, cancelled: bool) -> (out: Output)
        ensures
            (final(self)@, out@) == on_entry_extracted(old(self)@, cancelled),
    {
        if self.phase != Phase::Extracting {
            return idle_output();
        }
        let known = self.cursor < self.entries.len();
        let size: u64 = if known {
            assert(self.entries.deep_view()[self.cursor as int] == self.entries@[self.cursor as int]@);
            self.entries[self.cursor].size
        } else {
            0
        };
        let from: usize = if known {
            self.cursor + 1
        } else {
            self.entries.len()
        };
        self.processed = increment(self.processed);
        self.bytes = add_bytes(self.bytes, size);
        let events = one_event(progress::entry_extracted(self.processed, self.total));
        self.extract_from(events, from, cancelled)
    }

    fn io_failed(&mut self, kind: FailureKind, detail: String) -> (out: Output)
        ensures
            (final(self)@, out@) == on_io_failed(old(self)@, kind, detail@),
    {
        match self.phase {
            Phase::Listing => self.request_archive(no_events()),
            Phase::Fetching | Phase::Complete | Phase::Failed | Phase::Cancelled => idle_output(),
            _ => self.fail_with(no_events(), failure_of(kind, detail)),
        }
    }

    /// Takes what came of the last action, with the cancellation flag as it
    /// stands, and says what to emit and what to do next.
    pub fn step(&mut self, event: Event, cancelled: bool) -> (out: Output)
        ensures
            (final(self)@, out@) == step_view(old(self)@, event@, cancelled),
    {
        match event {
            Event::ListingAnswered { status, rate_limit_remaining, items } => self.listing_answered(
                status,
                rate_limit_remaining,
                items,
            ),
            Event::OutputDirReady => self.output_dir_ready(cancelled),
            Event::FileStarting => self.file_starting(cancelled),
            Event::FileSaved { size } => self.file_saved(size),
            Event::FilesFinished => self.files_finished(),
            Event::ArchiveAnswered { status } => self.archive_answered(status),
            Event::ChunkArrived => self.chunk_arrived(cancelled),
            Event::ChunkWritten { len, now_ms } => self.chunk_written(len, now_ms),
            Event::StreamEnded => self.stream_ended(),
            Event::ArchiveOpened { entries } => self.archive_opened(entries),
            Event::EntryExtracted => self.entry_extracted(cancelled),
            Event::IoFailed { kind, detail } => self.io_failed(kind, detail),
        }
    }
}

} // verus!
