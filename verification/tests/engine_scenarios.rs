use bunchatools::engine::Engine;
use bunchatools::model::{
    ArchiveEntry, DownloadError, Endpoint, GitDownloadOptions, GitDownloadProgress, GitHubContentItem,
    GitHubUrlInfo, Stage,
};
use bunchatools::transition::{Action, Event, FailureKind, Output, Phase};

fn info(path: &str) -> GitHubUrlInfo {
    GitHubUrlInfo {
        owner: "acme".to_string(),
        repo: "widgets".to_string(),
        branch: "main".to_string(),
        path: path.to_string(),
    }
}

fn options(flatten: bool, subfolder: bool) -> GitDownloadOptions {
    GitDownloadOptions { extract_files: true, flatten_structure: flatten, create_subfolder: subfolder }
}

fn file(path: &str, size: u64) -> GitHubContentItem {
    GitHubContentItem {
        name: path.rsplit('/').next().unwrap().to_string(),
        path: path.to_string(),
        item_type: "file".to_string(),
        size: Some(size),
        download_url: Some(format!("https://raw.example/{}", path)),
    }
}

fn dir(path: &str) -> GitHubContentItem {
    GitHubContentItem {
        name: path.rsplit('/').next().unwrap().to_string(),
        path: path.to_string(),
        item_type: "dir".to_string(),
        size: None,
        download_url: None,
    }
}

fn entry(name: &str, size: u64) -> ArchiveEntry {
    ArchiveEntry { name: name.to_string(), is_dir: name.ends_with('/'), size }
}

fn listing(items: Vec<GitHubContentItem>) -> Event {
    Event::ListingAnswered { status: 200, rate_limit_remaining: None, items }
}

fn percents(events: &[GitDownloadProgress]) -> Vec<u32> {
    events.iter().map(|e| e.percent).collect()
}

fn widgets_archive() -> Vec<ArchiveEntry> {
    vec![
        entry("acme-widgets-abc123/", 0),
        entry("acme-widgets-abc123/README.md", 5),
        entry("acme-widgets-abc123/docs/", 0),
        entry("acme-widgets-abc123/docs/guide.md", 7),
        entry("acme-widgets-abc123/docs/img/", 0),
        entry("acme-widgets-abc123/docs/img/logo.png", 11),
    ]
}

/// Drives an engine on the archive strategy up to the point where the archive is opened.
fn receive_archive(engine: &mut Engine) -> Output {
    let out = engine.step(Event::ArchiveAnswered { status: 200 }, false);
    assert!(matches!(out.action, Action::ReceiveChunk));
    let out = engine.step(Event::ChunkArrived, false);
    assert!(matches!(out.action, Action::WriteChunk));
    let out = engine.step(Event::ChunkWritten { len: 1_000, now_ms: 10 }, false);
    assert!(matches!(out.action, Action::ReceiveChunk));
    engine.step(Event::StreamEnded, false)
}

#[test]
fn directory_with_subfolder_mirrors_the_remote_structure() {
    let (mut engine, out) = Engine::start(info("docs"), "/out".to_string(), options(false, true));
    assert_eq!(percents(&out.events), vec![0, 5]);
    assert_eq!(out.events[0].stage, Stage::Fetching);
    assert_eq!(out.events[0].message, "Connecting to GitHub...");
    assert_eq!(out.events[1].stage, Stage::Listing);
    assert_eq!(out.events[1].message, "Listing files in folder...");
    match out.action {
        Action::ListDirectory { url } => {
            assert_eq!(url, "https://api.github.com/repos/acme/widgets/contents/docs?ref=main")
        }
        other => panic!("unexpected action {:?}", other),
    }
    assert_eq!(engine.phase(), Phase::Listing);

    let out = engine.step(listing(vec![file("docs/a.md", 10), dir("docs/img"), file("docs/z.md", 3)]), false);
    assert!(out.events.is_empty());
    match out.action {
        Action::ListDirectory { url } => {
            assert_eq!(url, "https://api.github.com/repos/acme/widgets/contents/docs/img?ref=main")
        }
        other => panic!("unexpected action {:?}", other),
    }

    let out = engine.step(listing(vec![file("docs/img/x.png", 20)]), false);
    assert_eq!(percents(&out.events), vec![10]);
    assert_eq!(out.events[0].stage, Stage::Downloading);
    assert_eq!(out.events[0].message, "Found 3 files to download");
    assert_eq!(out.events[0].total_files, Some(3));
    assert_eq!(out.events[0].processed_files, Some(0));
    match out.action {
        Action::CreateOutputDir { path } => assert_eq!(path, "/out/docs"),
        other => panic!("unexpected action {:?}", other),
    }

    let out = engine.step(Event::OutputDirReady, false);
    match out.action {
        Action::FetchFiles { jobs } => {
            let destinations: Vec<&str> = jobs.iter().map(|j| j.destination.as_str()).collect();
            assert_eq!(destinations, vec!["/out/docs/a.md", "/out/docs/img/x.png", "/out/docs/z.md"]);
            assert_eq!(jobs[1].url, "https://raw.example/docs/img/x.png");
        }
        other => panic!("unexpected action {:?}", other),
    }

    assert!(matches!(engine.step(Event::FileStarting, false).action, Action::Proceed));
    let out = engine.step(Event::FileSaved { size: 10 }, false);
    assert_eq!(percents(&out.events), vec![38]);
    assert_eq!(out.events[0].message, "Downloaded 1 of 3 files");
    assert_eq!(out.events[0].processed_files, Some(1));
    let out = engine.step(Event::FileSaved { size: 20 }, false);
    assert_eq!(percents(&out.events), vec![66]);
    let out = engine.step(Event::FileSaved { size: 3 }, false);
    assert_eq!(percents(&out.events), vec![95]);

    let out = engine.step(Event::FilesFinished, false);
    assert_eq!(percents(&out.events), vec![100]);
    assert_eq!(out.events[0].stage, Stage::Complete);
    assert_eq!(out.events[0].message, "Successfully downloaded 3 files");
    match out.action {
        Action::Finish(Ok(result)) => {
            assert!(result.success);
            assert_eq!(result.files_count, 3);
            assert_eq!(result.total_size, 33);
            assert!(result.output_path.ends_with("/docs"));
            assert_eq!(result.output_path, "/out/docs");
        }
        other => panic!("unexpected action {:?}", other),
    }
    assert_eq!(engine.phase(), Phase::Complete);
    assert!(engine.is_over());
}

#[test]
fn whole_repository_runs_the_archive_strategy() {
    let (mut engine, out) = Engine::start(info(""), "/out".to_string(), options(false, true));
    assert_eq!(percents(&out.events), vec![0, 10]);
    assert_eq!(out.events[1].message, "Downloading repository archive...");
    match out.action {
        Action::DownloadArchive { url } => {
            assert_eq!(url, "https://api.github.com/repos/acme/widgets/zipball/main")
        }
        other => panic!("unexpected action {:?}", other),
    }
    assert_eq!(engine.phase(), Phase::RequestingArchive);

    let out = engine.step(Event::ArchiveAnswered { status: 200 }, false);
    assert!(matches!(out.action, Action::ReceiveChunk));
    let out = engine.step(Event::ChunkArrived, false);
    assert!(matches!(out.action, Action::WriteChunk));
    let out = engine.step(Event::ChunkWritten { len: 2_000_000, now_ms: 600 }, false);
    assert_eq!(percents(&out.events), vec![17]);
    assert_eq!(out.events[0].message, "Downloading... 2.0 MB");
    assert!(matches!(out.action, Action::ReceiveChunk));

    let out = engine.step(Event::StreamEnded, false);
    assert_eq!(percents(&out.events), vec![50, 55]);
    assert_eq!(out.events[0].message, "Downloaded 2.0 MB");
    assert_eq!(out.events[1].stage, Stage::Extracting);
    assert_eq!(out.events[1].message, "Extracting files...");
    assert!(matches!(out.action, Action::OpenArchive));

    let out = engine.step(Event::ArchiveOpened { entries: widgets_archive() }, false);
    match out.action {
        Action::CreateOutputDir { path } => assert_eq!(path, "/out/widgets"),
        other => panic!("unexpected action {:?}", other),
    }

    let out = engine.step(Event::OutputDirReady, false);
    assert_eq!(percents(&out.events), vec![60]);
    assert_eq!(out.events[0].message, "Found 3 files to extract...");
    match out.action {
        Action::ExtractEntry { index, destination } => {
            assert_eq!(index, 1);
            assert_eq!(destination, "/out/widgets/README.md");
        }
        other => panic!("unexpected action {:?}", other),
    }

    let out = engine.step(Event::EntryExtracted, false);
    assert_eq!(percents(&out.events), vec![71]);
    assert_eq!(out.events[0].message, "Extracting file 1 of 3...");
    match out.action {
        Action::ExtractEntry { index, destination } => {
            assert_eq!(index, 3);
            assert_eq!(destination, "/out/widgets/docs/guide.md");
        }
        other => panic!("unexpected action {:?}", other),
    }

    let out = engine.step(Event::EntryExtracted, false);
    assert_eq!(percents(&out.events), vec![83]);
    match out.action {
        Action::ExtractEntry { index, destination } => {
            assert_eq!(index, 5);
            assert_eq!(destination, "/out/widgets/docs/img/logo.png");
        }
        other => panic!("unexpected action {:?}", other),
    }

    let out = engine.step(Event::EntryExtracted, false);
    assert_eq!(percents(&out.events), vec![95, 100]);
    assert_eq!(out.events[1].stage, Stage::Complete);
    assert_eq!(out.events[1].message, "Successfully downloaded 3 files");
    assert_eq!(out.events[1].total_files, Some(3));
    match out.action {
        Action::Finish(Ok(result)) => {
            assert_eq!(result.files_count, 3);
            assert_eq!(result.total_size, 23);
            assert_eq!(result.output_path, "/out/widgets");
        }
        other => panic!("unexpected action {:?}", other),
    }
}

#[test]
fn missing_folder_is_never_an_empty_success() {
    // The listing says 404: the archive is tried, and it has no such folder.
    let (mut engine, _) = Engine::start(info("missing-folder"), "/out".to_string(), options(false, true));
    let out = engine.step(
        Event::ListingAnswered { status: 404, rate_limit_remaining: None, items: vec![] },
        false,
    );
    assert_eq!(percents(&out.events), vec![10]);
    assert!(matches!(out.action, Action::DownloadArchive { .. }));
    let out = receive_archive(&mut engine);
    assert!(matches!(out.action, Action::OpenArchive));
    let out = engine.step(Event::ArchiveOpened { entries: widgets_archive() }, false);
    match out.action {
        Action::CreateOutputDir { path } => assert_eq!(path, "/out/missing-folder"),
        other => panic!("unexpected action {:?}", other),
    }
    let out = engine.step(Event::OutputDirReady, false);
    assert!(out.events.is_empty());
    assert!(matches!(out.action, Action::Finish(Err(DownloadError::FolderNotFound))));
    assert_eq!(engine.phase(), Phase::Failed);

    // The listing succeeds and holds nothing.
    let (mut engine, _) = Engine::start(info("missing-folder"), "/out".to_string(), options(false, true));
    let out = engine.step(listing(vec![]), false);
    assert!(matches!(out.action, Action::Finish(Err(DownloadError::PathEmpty))));
}

#[test]
fn archive_of_a_directory_selects_its_entries_only() {
    let (mut engine, _) = Engine::start(info("docs"), "/out".to_string(), options(false, false));
    let out = engine.step(Event::IoFailed { kind: FailureKind::Network, detail: "timed out".to_string() }, false);
    assert!(matches!(out.action, Action::DownloadArchive { .. }));
    receive_archive(&mut engine);
    let out = engine.step(Event::ArchiveOpened { entries: widgets_archive() }, false);
    match out.action {
        Action::CreateOutputDir { path } => assert_eq!(path, "/out"),
        other => panic!("unexpected action {:?}", other),
    }
    let out = engine.step(Event::OutputDirReady, false);
    assert_eq!(out.events[0].message, "Found 2 files to extract...");
    match out.action {
        Action::ExtractEntry { index, destination } => {
            assert_eq!(index, 3);
            assert_eq!(destination, "/out/guide.md");
        }
        other => panic!("unexpected action {:?}", other),
    }
    let out = engine.step(Event::EntryExtracted, false);
    assert_eq!(percents(&out.events), vec![77]);
    match out.action {
        Action::ExtractEntry { index, destination } => {
            assert_eq!(index, 5);
            assert_eq!(destination, "/out/img/logo.png");
        }
        other => panic!("unexpected action {:?}", other),
    }
    let out = engine.step(Event::EntryExtracted, false);
    assert_eq!(percents(&out.events), vec![95, 100]);
    match out.action {
        Action::Finish(Ok(result)) => {
            assert_eq!(result.files_count, 2);
            assert_eq!(result.total_size, 18);
            assert_eq!(result.output_path, "/out");
        }
        other => panic!("unexpected action {:?}", other),
    }
}

#[test]
fn both_strategies_put_a_file_in_the_same_place() {
    for flatten in [false, true] {
        let (mut listed, _) = Engine::start(info("docs"), "/out".to_string(), options(flatten, true));
        listed.step(listing(vec![dir("docs/img"), file("docs/guide.md", 7)]), false);
        listed.step(listing(vec![file("docs/img/logo.png", 11)]), false);
        let jobs = match listed.step(Event::OutputDirReady, false).action {
            Action::FetchFiles { jobs } => jobs,
            other => panic!("unexpected action {:?}", other),
        };
        let mut from_listing: Vec<String> = jobs.into_iter().map(|j| j.destination).collect();
        from_listing.sort();

        let (mut archived, _) = Engine::start(info("docs"), "/out".to_string(), options(flatten, true));
        archived.step(Event::ListingAnswered { status: 500, rate_limit_remaining: None, items: vec![] }, false);
        receive_archive(&mut archived);
        archived.step(Event::ArchiveOpened { entries: widgets_archive() }, false);
        let mut from_archive: Vec<String> = Vec::new();
        let mut out = archived.step(Event::OutputDirReady, false);
        loop {
            match out.action {
                Action::ExtractEntry { destination, .. } => from_archive.push(destination),
                Action::Finish(Ok(_)) => break,
                other => panic!("unexpected action {:?}", other),
            }
            out = archived.step(Event::EntryExtracted, false);
        }
        from_archive.sort();
        assert_eq!(from_listing, from_archive);
        if flatten {
            assert_eq!(from_archive, vec!["/out/docs/guide.md", "/out/docs/logo.png"]);
        } else {
            assert_eq!(from_archive, vec!["/out/docs/guide.md", "/out/docs/img/logo.png"]);
        }
    }
}

#[test]
fn used_up_quota_ends_the_run_without_the_archive() {
    let (mut engine, _) = Engine::start(info("docs"), "/out".to_string(), options(false, false));
    let out = engine.step(
        Event::ListingAnswered { status: 403, rate_limit_remaining: Some("0".to_string()), items: vec![] },
        false,
    );
    assert!(out.events.is_empty());
    assert!(matches!(out.action, Action::Finish(Err(DownloadError::RateLimited(Endpoint::Listing)))));
    assert_eq!(engine.phase(), Phase::Failed);
    for event in [
        Event::ArchiveAnswered { status: 200 },
        Event::OutputDirReady,
        Event::StreamEnded,
        Event::FilesFinished,
        Event::IoFailed { kind: FailureKind::Write, detail: "x".to_string() },
    ] {
        let out = engine.step(event, false);
        assert!(out.events.is_empty());
        assert!(matches!(out.action, Action::Idle));
        assert_eq!(engine.phase(), Phase::Failed);
    }
}

#[test]
fn refusal_with_quota_left_is_access_denied() {
    for remaining in [None, Some("12".to_string()), Some("zero".to_string()), Some("".to_string())] {
        let (mut engine, _) = Engine::start(info("docs"), "/out".to_string(), options(false, false));
        let out = engine.step(
            Event::ListingAnswered { status: 403, rate_limit_remaining: remaining, items: vec![] },
            false,
        );
        assert!(matches!(out.action, Action::Finish(Err(DownloadError::AccessDenied))));
    }
    for remaining in ["0", "+0", "000"] {
        let (mut engine, _) = Engine::start(info("docs"), "/out".to_string(), options(false, false));
        let out = engine.step(
            Event::ListingAnswered {
                status: 403,
                rate_limit_remaining: Some(remaining.to_string()),
                items: vec![],
            },
            false,
        );
        assert!(matches!(out.action, Action::Finish(Err(DownloadError::RateLimited(Endpoint::Listing)))));
    }
}

#[test]
fn other_listing_failures_fall_back_to_the_archive_once() {
    for status in [404u16, 500, 502, 301, 100] {
        let (mut engine, _) = Engine::start(info("docs"), "/out".to_string(), options(false, false));
        let out = engine.step(
            Event::ListingAnswered { status, rate_limit_remaining: Some("0".to_string()), items: vec![] },
            false,
        );
        match out.action {
            Action::DownloadArchive { url } => {
                assert_eq!(url, "https://api.github.com/repos/acme/widgets/zipball/main")
            }
            other => panic!("unexpected action {:?}", other),
        }
        assert_eq!(engine.phase(), Phase::RequestingArchive);
        // A second failure of the same kind does not ask again.
        let out = engine.step(
            Event::ListingAnswered { status, rate_limit_remaining: None, items: vec![] },
            false,
        );
        assert!(matches!(out.action, Action::Idle));
    }
}

#[test]
fn failure_in_a_nested_listing_falls_back_too() {
    let (mut engine, _) = Engine::start(info("docs"), "/out".to_string(), options(false, false));
    let out = engine.step(listing(vec![file("docs/a.md", 1), dir("docs/img")]), false);
    assert!(matches!(out.action, Action::ListDirectory { .. }));
    let out = engine.step(
        Event::ListingAnswered { status: 404, rate_limit_remaining: None, items: vec![] },
        false,
    );
    assert!(matches!(out.action, Action::DownloadArchive { .. }));
}

#[test]
fn archive_request_failures_are_told_apart() {
    let cases: [(u16, DownloadError); 4] = [
        (404, DownloadError::RepoOrBranchNotFound),
        (403, DownloadError::RateLimited(Endpoint::Archive)),
        (500, DownloadError::ApiError(500)),
        (302, DownloadError::ApiError(302)),
    ];
    for (status, expected) in cases {
        let (mut engine, _) = Engine::start(info(""), "/out".to_string(), options(false, false));
        match engine.step(Event::ArchiveAnswered { status }, false).action {
            Action::Finish(Err(error)) => assert_eq!(error, expected),
            other => panic!("unexpected action {:?}", other),
        }
    }
    let (mut engine, _) = Engine::start(info(""), "/out".to_string(), options(false, false));
    assert!(matches!(engine.step(Event::ArchiveAnswered { status: 204 }, false).action, Action::ReceiveChunk));
}

#[test]
fn empty_archive_is_an_error() {
    let (mut engine, _) = Engine::start(info(""), "/out".to_string(), options(false, false));
    receive_archive(&mut engine);
    let out = engine.step(Event::ArchiveOpened { entries: vec![] }, false);
    assert!(matches!(out.action, Action::Finish(Err(DownloadError::EmptyArchive))));
}

#[test]
fn a_failed_file_does_not_fail_the_batch() {
    let (mut engine, _) = Engine::start(info("docs"), "/out".to_string(), options(false, false));
    engine.step(listing(vec![file("docs/a.md", 10), file("docs/b.md", 20)]), false);
    engine.step(Event::OutputDirReady, false);
    assert!(matches!(engine.step(Event::FileStarting, false).action, Action::Proceed));
    assert!(matches!(engine.step(Event::FileStarting, false).action, Action::Proceed));
    let out = engine.step(
        Event::IoFailed { kind: FailureKind::Network, detail: "Failed to download a.md".to_string() },
        false,
    );
    assert!(out.events.is_empty());
    assert!(matches!(out.action, Action::Idle));
    assert_eq!(engine.phase(), Phase::Fetching);
    let out = engine.step(Event::FileSaved { size: 20 }, false);
    assert_eq!(percents(&out.events), vec![52]);
    match engine.step(Event::FilesFinished, false).action {
        Action::Finish(Ok(result)) => {
            assert_eq!(result.files_count, 1);
            assert_eq!(result.total_size, 20);
        }
        other => panic!("unexpected action {:?}", other),
    }
}

#[test]
fn failures_outside_the_batch_end_the_run() {
    let (mut engine, _) = Engine::start(info(""), "/out".to_string(), options(false, false));
    let out = engine.step(
        Event::IoFailed { kind: FailureKind::Network, detail: "Failed to download: reset".to_string() },
        false,
    );
    match out.action {
        Action::Finish(Err(error)) => {
            assert_eq!(error, DownloadError::NetworkError("Failed to download: reset".to_string()))
        }
        other => panic!("unexpected action {:?}", other),
    }

    let (mut engine, _) = Engine::start(info("docs"), "/out".to_string(), options(false, false));
    engine.step(listing(vec![file("docs/a.md", 10)]), false);
    let out = engine.step(
        Event::IoFailed { kind: FailureKind::Write, detail: "Failed to create output directory: denied".to_string() },
        false,
    );
    match out.action {
        Action::Finish(Err(error)) => assert_eq!(
            error,
            DownloadError::WriteError("Failed to create output directory: denied".to_string())
        ),
        other => panic!("unexpected action {:?}", other),
    }

    let (mut engine, _) = Engine::start(info(""), "/out".to_string(), options(false, false));
    receive_archive(&mut engine);
    engine.step(Event::ArchiveOpened { entries: widgets_archive() }, false);
    engine.step(Event::OutputDirReady, false);
    let out = engine.step(
        Event::IoFailed { kind: FailureKind::Write, detail: "Failed to write file: full".to_string() },
        false,
    );
    assert!(matches!(out.action, Action::Finish(Err(DownloadError::WriteError(_)))));
    assert_eq!(engine.phase(), Phase::Failed);
}

#[test]
fn unexpected_events_change_nothing() {
    let (mut engine, _) = Engine::start(info("docs"), "/out".to_string(), options(false, false));
    for event in [
        Event::OutputDirReady,
        Event::FileStarting,
        Event::FileSaved { size: 1 },
        Event::FilesFinished,
        Event::ArchiveAnswered { status: 200 },
        Event::ChunkArrived,
        Event::ChunkWritten { len: 1, now_ms: 1000 },
        Event::StreamEnded,
        Event::ArchiveOpened { entries: widgets_archive() },
        Event::EntryExtracted,
    ] {
        let out = engine.step(event, true);
        assert!(out.events.is_empty());
        assert!(matches!(out.action, Action::Idle));
        assert_eq!(engine.phase(), Phase::Listing);
    }
}

#[test]
fn items_without_an_address_and_other_kinds_are_passed_over() {
    let (mut engine, _) = Engine::start(info("docs"), "/out".to_string(), options(false, false));
    let mut no_url = file("docs/no-url.md", 4);
    no_url.download_url = None;
    let mut link = file("docs/link", 4);
    link.item_type = "symlink".to_string();
    let mut module = dir("docs/module");
    module.item_type = "submodule".to_string();
    let mut unsized_file = file("docs/b.md", 0);
    unsized_file.size = None;
    let out = engine.step(listing(vec![no_url, link, module, unsized_file]), false);
    assert_eq!(out.events[0].message, "Found 1 files to download");
    match engine.step(Event::OutputDirReady, false).action {
        Action::FetchFiles { jobs } => {
            assert_eq!(jobs.len(), 1);
            assert_eq!(jobs[0].destination, "/out/b.md");
        }
        other => panic!("unexpected action {:?}", other),
    }
}

#[test]
fn listing_is_depth_first_in_the_order_of_the_answers() {
    let (mut engine, _) = Engine::start(info("r"), "/o".to_string(), options(false, false));
    let out = engine.step(listing(vec![file("r/1", 1), dir("r/a"), file("r/2", 1), dir("r/b"), file("r/3", 1)]), false);
    match out.action {
        Action::ListDirectory { url } => assert!(url.contains("/contents/r/a?")),
        other => panic!("unexpected action {:?}", other),
    }
    let out = engine.step(listing(vec![dir("r/a/x"), file("r/a/4", 1)]), false);
    match out.action {
        Action::ListDirectory { url } => assert!(url.contains("/contents/r/a/x?")),
        other => panic!("unexpected action {:?}", other),
    }
    let out = engine.step(listing(vec![file("r/a/x/5", 1)]), false);
    match out.action {
        Action::ListDirectory { url } => assert!(url.contains("/contents/r/b?")),
        other => panic!("unexpected action {:?}", other),
    }
    let out = engine.step(listing(vec![]), false);
    assert_eq!(out.events[0].message, "Found 5 files to download");
    match engine.step(Event::OutputDirReady, false).action {
        Action::FetchFiles { jobs } => {
            let order: Vec<&str> = jobs.iter().map(|j| j.destination.as_str()).collect();
            assert_eq!(order, vec!["/o/1", "/o/a/x/5", "/o/a/4", "/o/2", "/o/3"]);
        }
        other => panic!("unexpected action {:?}", other),
    }
}

#[test]
fn archive_progress_is_reported_at_most_twice_a_second() {
    let (mut engine, _) = Engine::start(info(""), "/out".to_string(), options(false, false));
    engine.step(Event::ArchiveAnswered { status: 200 }, false);
    let mut write = |len: u64, now_ms: u64| {
        assert!(matches!(engine.step(Event::ChunkArrived, false).action, Action::WriteChunk));
        engine.step(Event::ChunkWritten { len, now_ms }, false)
    };
    assert!(write(1_000_000, 100).events.is_empty());
    assert!(write(1_000_000, 500).events.is_empty());
    let out = write(1_000_000, 501);
    assert_eq!(percents(&out.events), vec![18]);
    assert_eq!(out.events[0].message, "Downloading... 3.0 MB");
    assert!(write(1_000_000, 1001).events.is_empty());
    let out = write(40_000_000, 1002);
    assert_eq!(percents(&out.events), vec![50]);
    assert_eq!(out.events[0].message, "Downloading... 44.0 MB");
    // A clock that runs backwards triggers nothing.
    assert!(write(1, 3).events.is_empty());
}

#[test]
fn output_directory_without_subfolder_is_the_one_asked_for() {
    let (mut engine, _) = Engine::start(info("a/b/c"), "/out/".to_string(), options(false, false));
    match engine.step(listing(vec![file("a/b/c/f.txt", 1)]), false).action {
        Action::CreateOutputDir { path } => assert_eq!(path, "/out/"),
        other => panic!("unexpected action {:?}", other),
    }
    let (mut engine, _) = Engine::start(info("a/b/c"), "/out/".to_string(), options(false, true));
    match engine.step(listing(vec![file("a/b/c/f.txt", 1)]), false).action {
        Action::CreateOutputDir { path } => assert_eq!(path, "/out/c"),
        other => panic!("unexpected action {:?}", other),
    }
    match engine.step(Event::OutputDirReady, false).action {
        Action::FetchFiles { jobs } => assert_eq!(jobs[0].destination, "/out/c/f.txt"),
        other => panic!("unexpected action {:?}", other),
    }
}

/// Whether `destination` is `dir`, a `/`, and a name without a leading `/`
/// and without a `..` segment.
fn is_inside(dir: &str, destination: &str) -> bool {
    match destination.strip_prefix(dir).and_then(|rest| rest.strip_prefix('/')) {
        Some(name) => !name.starts_with('/') && name.split('/').all(|segment| segment != ".."),
        None => false,
    }
}

#[test]
fn archive_entries_never_leave_the_output_directory() {
    let entries = vec![
        entry("root/", 0),
        entry("root//etc/passwd", 1),
        entry("root/ok.txt", 2),
        entry("root/../evil", 4),
        entry("root/a/../../b", 8),
        entry("root/a/", 0),
        entry("root/a/c..d", 16),
        entry("root/a/..", 32),
    ];
    for flatten in [false, true] {
        let (mut engine, out) = Engine::start(info(""), "/out".to_string(), options(flatten, false));
        assert!(matches!(out.action, Action::DownloadArchive { .. }));
        receive_archive(&mut engine);
        let out = engine.step(Event::ArchiveOpened { entries: entries.clone() }, false);
        match out.action {
            Action::CreateOutputDir { path } => assert_eq!(path, "/out"),
            other => panic!("unexpected action {:?}", other),
        }
        let mut out = engine.step(Event::OutputDirReady, false);
        assert_eq!(out.events[0].message, "Found 2 files to extract...");
        let mut written = Vec::new();
        while let Action::ExtractEntry { index, destination } = out.action {
            assert!(is_inside("/out", &destination), "{:?}", destination);
            written.push((index, destination));
            out = engine.step(Event::EntryExtracted, false);
        }
        let second = if flatten { "/out/c..d" } else { "/out/a/c..d" };
        assert_eq!(written, vec![(2, "/out/ok.txt".to_string()), (6, second.to_string())]);
        match out.action {
            Action::Finish(Ok(result)) => {
                assert_eq!(result.files_count, 2);
                assert_eq!(result.total_size, 18);
                assert_eq!(result.output_path, "/out");
            }
            other => panic!("unexpected action {:?}", other),
        }
    }
}

#[test]
fn a_folder_whose_entries_all_leave_it_is_not_found() {
    let entries = vec![
        entry("root/", 0),
        entry("root/docs/", 0),
        entry("root/docs/../../evil", 4),
        entry("root/docs//etc/x", 1),
    ];
    let (mut engine, _) = Engine::start(info("docs"), "/out".to_string(), options(false, false));
    let out = engine.step(Event::IoFailed { kind: FailureKind::Network, detail: "reset".to_string() }, false);
    assert!(matches!(out.action, Action::DownloadArchive { .. }));
    receive_archive(&mut engine);
    let out = engine.step(Event::ArchiveOpened { entries }, false);
    assert!(matches!(out.action, Action::CreateOutputDir { .. }));
    let out = engine.step(Event::OutputDirReady, false);
    assert!(matches!(out.action, Action::Finish(Err(DownloadError::FolderNotFound))));
    assert_eq!(engine.phase(), Phase::Failed);
}

#[test]
fn listed_files_never_leave_the_output_directory() {
    for flatten in [false, true] {
        let (mut engine, _) = Engine::start(info("docs"), "/out".to_string(), options(flatten, false));
        let out = engine.step(
            listing(vec![
                file("docs/a.md", 10),
                file("docs/../secret", 1),
                file("../../etc/x", 1),
                file("/etc/y", 1),
                file("docs/img/..", 1),
                file("docs/img/x.png", 20),
            ]),
            false,
        );
        assert_eq!(out.events[0].message, "Found 2 files to download");
        assert_eq!(out.events[0].total_files, Some(2));
        assert!(matches!(out.action, Action::CreateOutputDir { .. }));
        let out = engine.step(Event::OutputDirReady, false);
        match out.action {
            Action::FetchFiles { jobs } => {
                for job in jobs.iter() {
                    assert!(is_inside("/out", &job.destination), "{:?}", job.destination);
                }
                let destinations: Vec<&str> = jobs.iter().map(|j| j.destination.as_str()).collect();
                let second = if flatten { "/out/x.png" } else { "/out/img/x.png" };
                assert_eq!(destinations, vec!["/out/a.md", second]);
                assert_eq!(jobs[0].url, "https://raw.example/docs/a.md");
                assert_eq!(jobs[1].url, "https://raw.example/docs/img/x.png");
            }
            other => panic!("unexpected action {:?}", other),
        }
        engine.step(Event::FileSaved { size: 10 }, false);
        let out = engine.step(Event::FileSaved { size: 20 }, false);
        assert_eq!(percents(&out.events), vec![95]);
        match engine.step(Event::FilesFinished, false).action {
            Action::Finish(Ok(result)) => {
                assert_eq!(result.files_count, 2);
                assert_eq!(result.total_size, 30);
            }
            other => panic!("unexpected action {:?}", other),
        }
    }
}

#[test]
fn a_listing_whose_files_all_leave_the_directory_is_empty() {
    let (mut engine, _) = Engine::start(info("docs"), "/out".to_string(), options(false, true));
    let out = engine.step(listing(vec![file("docs/../secret", 1), file("/etc/y", 1)]), false);
    assert!(out.events.is_empty());
    assert!(matches!(out.action, Action::Finish(Err(DownloadError::PathEmpty))));
    assert_eq!(engine.phase(), Phase::Failed);
}
