use bunchatools::archive::{
    add_bytes, archive_address, clamp_len, classify_archive, count_selected, find_selected,
    increment,
};
use bunchatools::layout::{
    archive_filter, archive_root, destination_of_entry, destination_of_listed, is_accepted,
    is_below, is_selected, join, lay_out, output_dir, relative_to_base, subfolder,
};
use bunchatools::lister::{
    classify_listing, is_quota_exhausted, item_kind, list_url, push_listing, status_is_success,
    walk_stack, ItemKind,
};
use bunchatools::messages::{error_message, status_line, status_line_for};
use bunchatools::model::{
    ArchiveEntry, DownloadError, Endpoint, FileToDownload, GitDownloadOptions, GitHubContentItem,
    GitHubUrlInfo,
};
use bunchatools::progress::{
    archive_progress, archive_saved, archive_started, complete, connecting, entry_extracted,
    extracting, file_saved, found_entries, found_files, listing, megabytes, percent_of_archive,
    percent_of_extract, percent_of_fetch,
};

fn info(path: &str) -> GitHubUrlInfo {
    GitHubUrlInfo {
        owner: "acme".to_string(),
        repo: "widgets".to_string(),
        branch: "main".to_string(),
        path: path.to_string(),
    }
}

fn item(kind: &str, path: &str, url: Option<&str>, size: Option<u64>) -> GitHubContentItem {
    GitHubContentItem {
        name: path.to_string(),
        path: path.to_string(),
        item_type: kind.to_string(),
        size,
        download_url: url.map(str::to_string),
    }
}

fn entry(name: &str, is_dir: bool) -> ArchiveEntry {
    ArchiveEntry { name: name.to_string(), is_dir, size: 1 }
}

#[test]
fn joining_paths() {
    assert_eq!(join("/out", "docs"), "/out/docs");
    assert_eq!(join("/out/", "docs"), "/out/docs");
    assert_eq!(join("", "docs"), "docs");
    assert_eq!(join("/out", ""), "/out/");
    assert_eq!(join("/out", "/abs"), "/abs");
    assert_eq!(join("out", "a/b.txt"), "out/a/b.txt");
    for (base, name) in [("/out", "docs"), ("/out/", "docs"), ("", "docs"), ("/out", ""), ("/out", "/abs"), ("a", "b/c")] {
        let expected = std::path::Path::new(base).join(name);
        assert_eq!(join(base, name), expected.to_string_lossy());
    }
}

#[test]
fn output_directory() {
    let nested = GitDownloadOptions { extract_files: true, flatten_structure: false, create_subfolder: true };
    let plain = GitDownloadOptions { extract_files: true, flatten_structure: false, create_subfolder: false };
    assert_eq!(subfolder(&info("docs")), "docs");
    assert_eq!(subfolder(&info("a/b/c")), "c");
    assert_eq!(subfolder(&info("")), "widgets");
    assert_eq!(subfolder(&info("a/b/")), "");
    assert_eq!(output_dir("/out", &info("docs"), &nested), "/out/docs");
    assert_eq!(output_dir("/out", &info(""), &nested), "/out/widgets");
    assert_eq!(output_dir("/out", &info("a/b/c"), &nested), "/out/c");
    assert_eq!(output_dir("/out", &info("docs"), &plain), "/out");
    // The folder is added whenever one is asked for, whatever its name.
    assert_eq!(subfolder(&info("a/..")), "..");
    assert_eq!(output_dir("/out", &info("a/.."), &nested), "/out/..");
    assert_eq!(output_dir("/out", &info(".."), &nested), "/out/..");
    assert_eq!(output_dir("/out", &info("a/..b"), &nested), "/out/..b");
    let rooted = GitHubUrlInfo { repo: "/etc".to_string(), ..info("") };
    assert_eq!(output_dir("/out", &rooted, &nested), "/etc");
    assert_eq!(output_dir("/out", &rooted, &plain), "/out");
    let dotted = GitHubUrlInfo { repo: "..".to_string(), ..info("") };
    assert_eq!(output_dir("/out", &dotted, &nested), "/out/..");
}

#[test]
fn places_of_listed_files() {
    assert_eq!(relative_to_base("docs/a/b.md", "docs"), "a/b.md");
    assert_eq!(relative_to_base("docs//b.md", "docs"), "b.md");
    assert_eq!(relative_to_base("docs", "docs"), "");
    assert_eq!(relative_to_base("src/b.md", "docs"), "src/b.md");
    assert_eq!(relative_to_base("docs/b.md", ""), "docs/b.md");
    // A path that merely begins with the same letters loses them too.
    assert_eq!(relative_to_base("docs2/b.md", "docs"), "2/b.md");
    assert_eq!(lay_out("a/b/c.md", true), "c.md");
    assert_eq!(lay_out("a/b/c.md", false), "a/b/c.md");
    assert_eq!(lay_out("c.md", true), "c.md");
    assert_eq!(destination_of_listed("/out/docs", "docs/img/x.png", "docs", false), "/out/docs/img/x.png");
    assert_eq!(destination_of_listed("/out/docs", "docs/img/x.png", "docs", true), "/out/docs/x.png");
}

#[test]
fn places_of_archive_entries() {
    assert_eq!(archive_root("acme-widgets-abc123/"), "acme-widgets-abc123/");
    assert_eq!(archive_root("acme-widgets-abc123/README.md"), "acme-widgets-abc123/");
    assert_eq!(archive_root("README.md"), "README.md/");
    assert_eq!(archive_root(""), "/");
    assert_eq!(archive_filter("root/", ""), "root/");
    assert_eq!(archive_filter("root/", "docs"), "root/docs/");
    assert_eq!(archive_filter("root/", "a/b"), "root/a/b/");
    assert!(is_selected(&entry("root/docs/a.md", false), "root/docs/"));
    assert!(!is_selected(&entry("root/docs/", true), "root/docs/"));
    assert!(!is_selected(&entry("root/docs2/a.md", false), "root/docs/"));
    assert!(!is_selected(&entry("root/a.md", false), "root/docs/"));
    assert!(is_selected(&entry("root/a.md", false), "root/"));
    assert_eq!(destination_of_entry("/out", "root/docs/img/x.png", "root/docs/", false), "/out/img/x.png");
    assert_eq!(destination_of_entry("/out", "root/docs/img/x.png", "root/docs/", true), "/out/x.png");
    assert_eq!(destination_of_entry("/out", "elsewhere/x.png", "root/docs/", false), "/out/elsewhere/x.png");
}

#[test]
fn names_that_stay_below_a_directory() {
    for name in ["", "a", "a/b.md", ".", "./a", "a/./b", "...", "a/.../b", "..a", "a..", "a/..b/c", "a/b../c", "a//b", ".. ", "a/"] {
        assert!(is_below(name), "{:?}", name);
    }
    for name in ["/", "/etc/x", "//x", "..", "../x", "a/..", "a/../b", "a/b/../../../x", "../", "a/../"] {
        assert!(!is_below(name), "{:?}", name);
    }
}

#[test]
fn listed_files_that_would_leave_the_directory_are_refused() {
    assert!(is_accepted("docs/a.md", "docs"));
    assert!(is_accepted("docs//a.md", "docs"));
    assert!(is_accepted("docs/img/x.png", "docs"));
    assert!(is_accepted("elsewhere/x.png", "docs"));
    assert!(is_accepted("a.md", ""));
    assert!(!is_accepted("docs/../secret", "docs"));
    assert!(!is_accepted("docs/a/../../secret", "docs"));
    assert!(!is_accepted("../secret", "docs"));
    assert!(!is_accepted("/etc/x", "docs"));
    assert!(!is_accepted("/etc/x", ""));
    assert!(!is_accepted("..", ""));
}

#[test]
fn entries_that_would_leave_the_directory_are_not_selected() {
    assert!(!is_selected(&entry("root//etc/x", false), "root/"));
    assert!(!is_selected(&entry("root/../x", false), "root/"));
    assert!(!is_selected(&entry("root/docs/../../evil", false), "root/docs/"));
    assert!(!is_selected(&entry("root/docs/a/..", false), "root/docs/"));
    assert!(!is_selected(&entry("root/docs//abs", false), "root/docs/"));
    assert!(is_selected(&entry("root/docs/..a", false), "root/docs/"));
    assert!(is_selected(&entry("root/docs/a/b", false), "root/docs/"));
    // A `..` in the prefix itself is part of what was asked for.
    assert!(is_selected(&entry("root/../a", false), "root/../"));
    let entries = vec![
        entry("root/", true),
        entry("root//etc/x", false),
        entry("root/ok.txt", false),
        entry("root/../evil", false),
        entry("root/a/../../b", false),
        entry("root/a/c", false),
    ];
    assert_eq!(count_selected(&entries, "root/"), 2);
    assert_eq!(find_selected(&entries, "root/", 0), 2);
    assert_eq!(find_selected(&entries, "root/", 3), 5);
    assert_eq!(find_selected(&entries, "root/", 6), 6);
}

#[test]
fn counting_and_finding_selected_entries() {
    let entries = vec![
        entry("root/", true),
        entry("root/a.md", false),
        entry("root/docs/", true),
        entry("root/docs/b.md", false),
        entry("root/docs/c.md", false),
        entry("other/docs/d.md", false),
    ];
    assert_eq!(count_selected(&entries, "root/"), 3);
    assert_eq!(count_selected(&entries, "root/docs/"), 2);
    assert_eq!(count_selected(&entries, "root/missing/"), 0);
    assert_eq!(count_selected(&vec![], "root/"), 0);
    assert_eq!(find_selected(&entries, "root/docs/", 0), 3);
    assert_eq!(find_selected(&entries, "root/docs/", 3), 3);
    assert_eq!(find_selected(&entries, "root/docs/", 4), 4);
    assert_eq!(find_selected(&entries, "root/docs/", 5), 6);
    assert_eq!(find_selected(&entries, "root/docs/", 6), 6);
    assert_eq!(find_selected(&entries, "root/docs/", 60), 6);
}

#[test]
fn counters_saturate() {
    assert_eq!(increment(0), 1);
    assert_eq!(increment(u32::MAX - 1), u32::MAX);
    assert_eq!(increment(u32::MAX), u32::MAX);
    assert_eq!(add_bytes(1, 2), 3);
    assert_eq!(add_bytes(u64::MAX - 1, 1), u64::MAX);
    assert_eq!(add_bytes(u64::MAX, 1), u64::MAX);
    assert_eq!(add_bytes(u64::MAX - 5, 100), u64::MAX);
    assert_eq!(clamp_len(0), 0);
    assert_eq!(clamp_len(4_294_967_295), u32::MAX);
    assert_eq!(clamp_len(usize::MAX), u32::MAX);
}

#[test]
fn addresses() {
    assert_eq!(list_url(&info("docs"), "docs"), "https://api.github.com/repos/acme/widgets/contents/docs?ref=main");
    assert_eq!(list_url(&info("docs"), "docs/img"), "https://api.github.com/repos/acme/widgets/contents/docs/img?ref=main");
    assert_eq!(list_url(&info(""), ""), "https://api.github.com/repos/acme/widgets/contents?ref=main");
    assert_eq!(archive_address(&info("docs")), "https://api.github.com/repos/acme/widgets/zipball/main");
}

#[test]
fn kinds_of_items() {
    assert_eq!(item_kind("file"), ItemKind::File);
    assert_eq!(item_kind("dir"), ItemKind::Dir);
    assert_eq!(item_kind("symlink"), ItemKind::Other);
    assert_eq!(item_kind("submodule"), ItemKind::Other);
    assert_eq!(item_kind("File"), ItemKind::Other);
    assert_eq!(item_kind(""), ItemKind::Other);
}

#[test]
fn listing_statuses() {
    assert_eq!(classify_listing(200, &None, "docs"), None);
    assert_eq!(classify_listing(299, &None, "docs"), None);
    assert_eq!(classify_listing(403, &Some("0".to_string()), "docs"), Some(DownloadError::RateLimited(Endpoint::Listing)));
    assert_eq!(classify_listing(403, &Some("1".to_string()), "docs"), Some(DownloadError::AccessDenied));
    assert_eq!(classify_listing(403, &None, "docs"), Some(DownloadError::AccessDenied));
    assert_eq!(classify_listing(404, &None, "docs/x"), Some(DownloadError::PathNotFound("docs/x".to_string())));
    assert_eq!(classify_listing(404, &Some("0".to_string()), "docs"), Some(DownloadError::PathNotFound("docs".to_string())));
    assert_eq!(classify_listing(500, &None, "docs"), Some(DownloadError::ApiError(500)));
    assert_eq!(classify_listing(199, &None, "docs"), Some(DownloadError::ApiError(199)));
    assert_eq!(classify_listing(300, &None, "docs"), Some(DownloadError::ApiError(300)));
    assert!(is_quota_exhausted(&Some("0".to_string())));
    assert!(!is_quota_exhausted(&Some("-0".to_string())));
    assert!(!is_quota_exhausted(&Some("0 ".to_string())));
    assert!(!is_quota_exhausted(&Some("4294967296".to_string())));
    assert!(!is_quota_exhausted(&None));
    for status in [0u16, 100, 199, 200, 204, 299, 300, 404, 999, u16::MAX] {
        assert_eq!(status_is_success(status), (200..300).contains(&status));
    }
}

#[test]
fn archive_statuses() {
    assert_eq!(classify_archive(200), None);
    assert_eq!(classify_archive(404), Some(DownloadError::RepoOrBranchNotFound));
    assert_eq!(classify_archive(403), Some(DownloadError::RateLimited(Endpoint::Archive)));
    assert_eq!(classify_archive(500), Some(DownloadError::ApiError(500)));
    assert_eq!(classify_archive(301), Some(DownloadError::ApiError(301)));
}

#[test]
fn walking_a_listing() {
    let mut stack: Vec<GitHubContentItem> = Vec::new();
    let mut files: Vec<FileToDownload> = Vec::new();
    push_listing(
        &mut stack,
        vec![
            item("file", "d/a", Some("u/a"), Some(3)),
            item("file", "d/nourl", None, Some(1)),
            item("symlink", "d/link", Some("u/l"), None),
            item("dir", "d/sub", None, None),
            item("file", "d/z", Some("u/z"), None),
        ],
    );
    assert_eq!(stack.len(), 5);
    assert_eq!(stack.last().unwrap().path, "d/a");
    assert_eq!(walk_stack(&mut stack, &mut files), Some("d/sub".to_string()));
    assert_eq!(files.len(), 1);
    assert_eq!(files[0].relative_path, "d/a");
    assert_eq!(files[0].download_url, "u/a");
    assert_eq!(files[0].size, 3);
    assert_eq!(stack.len(), 1);
    push_listing(&mut stack, vec![item("file", "d/sub/m", Some("u/m"), Some(9))]);
    assert_eq!(walk_stack(&mut stack, &mut files), None);
    let paths: Vec<&str> = files.iter().map(|f| f.relative_path.as_str()).collect();
    assert_eq!(paths, vec!["d/a", "d/sub/m", "d/z"]);
    assert_eq!(files[2].size, 0);
    assert!(stack.is_empty());
    assert_eq!(walk_stack(&mut stack, &mut files), None);
}

#[test]
fn fetch_percentages() {
    assert_eq!(percent_of_fetch(0, 10), 10);
    assert_eq!(percent_of_fetch(1, 10), 18);
    assert_eq!(percent_of_fetch(5, 10), 52);
    assert_eq!(percent_of_fetch(10, 10), 95);
    assert_eq!(percent_of_fetch(1, 3), 38);
    assert_eq!(percent_of_fetch(20, 10), 95);
    assert_eq!(percent_of_fetch(0, 0), 10);
    assert_eq!(percent_of_fetch(1, 0), 95);
    assert_eq!(percent_of_fetch(u32::MAX, 1), 95);
    assert_eq!(percent_of_fetch(u32::MAX, u32::MAX), 95);
    for total in [1u32, 2, 3, 7, 100, 1000] {
        let mut last = 10;
        for count in 0..=total {
            let percent = percent_of_fetch(count, total);
            assert!(last <= percent && percent <= 95);
            last = percent;
        }
        assert_eq!(last, 95);
    }
}

#[test]
fn archive_percentages() {
    assert_eq!(percent_of_archive(0), 15);
    assert_eq!(percent_of_archive(999_999), 15);
    assert_eq!(percent_of_archive(1_000_000), 16);
    assert_eq!(percent_of_archive(34_999_999), 49);
    assert_eq!(percent_of_archive(35_000_000), 50);
    assert_eq!(percent_of_archive(36_000_000), 50);
    assert_eq!(percent_of_archive(u64::MAX), 50);
}

#[test]
fn extraction_percentages() {
    assert_eq!(percent_of_extract(0, 4), 60);
    assert_eq!(percent_of_extract(1, 4), 68);
    assert_eq!(percent_of_extract(2, 4), 77);
    assert_eq!(percent_of_extract(4, 4), 95);
    assert_eq!(percent_of_extract(0, 0), 60);
    assert_eq!(percent_of_extract(1, 0), 95);
    assert_eq!(percent_of_extract(9, 4), 95);
}

#[test]
fn megabytes_with_one_decimal() {
    assert_eq!(megabytes(0), "0.0");
    assert_eq!(megabytes(49_999), "0.0");
    assert_eq!(megabytes(50_000), "0.1");
    assert_eq!(megabytes(1_000_000), "1.0");
    assert_eq!(megabytes(1_234_567), "1.2");
    assert_eq!(megabytes(1_950_000), "2.0");
    assert_eq!(megabytes(245_600_000), "245.6");
    assert_eq!(megabytes(u64::MAX), "18446744073709.6");
}

#[test]
fn reports() {
    let r = connecting();
    assert_eq!((r.percent, r.message.as_str(), r.total_files, r.processed_files), (0, "Connecting to GitHub...", None, None));
    let r = listing();
    assert_eq!((r.percent, r.message.as_str()), (5, "Listing files in folder..."));
    let r = found_files(12);
    assert_eq!((r.percent, r.message.as_str(), r.total_files, r.processed_files), (10, "Found 12 files to download", Some(12), Some(0)));
    let r = file_saved(3, 12);
    assert_eq!((r.percent, r.message.as_str(), r.total_files, r.processed_files), (31, "Downloaded 3 of 12 files", Some(12), Some(3)));
    let r = archive_started();
    assert_eq!((r.percent, r.message.as_str()), (10, "Downloading repository archive..."));
    let r = archive_progress(12_340_000);
    assert_eq!((r.percent, r.message.as_str()), (27, "Downloading... 12.3 MB"));
    let r = archive_saved(12_340_000);
    assert_eq!((r.percent, r.message.as_str()), (50, "Downloaded 12.3 MB"));
    let r = extracting();
    assert_eq!((r.percent, r.message.as_str()), (55, "Extracting files..."));
    let r = found_entries(7);
    assert_eq!((r.percent, r.message.as_str(), r.total_files, r.processed_files), (60, "Found 7 files to extract...", Some(7), Some(0)));
    let r = entry_extracted(2, 7);
    assert_eq!((r.percent, r.message.as_str(), r.total_files, r.processed_files), (70, "Extracting file 2 of 7...", Some(7), Some(2)));
    let r = complete(7, 7);
    assert_eq!((r.percent, r.message.as_str(), r.total_files, r.processed_files), (100, "Successfully downloaded 7 files", Some(7), Some(7)));
}

#[test]
fn error_messages() {
    assert_eq!(error_message(&DownloadError::PathNotFound("docs/x".to_string()), "docs"), "Path 'docs/x' not found in repository");
    assert_eq!(error_message(&DownloadError::PathEmpty, "docs"), "Folder 'docs' is empty or not found");
    assert_eq!(error_message(&DownloadError::FolderNotFound, "docs"), "Folder 'docs' not found in repository");
    assert_eq!(
        error_message(&DownloadError::RateLimited(Endpoint::Listing), "docs"),
        "GitHub API rate limit exceeded (60 requests/hour for unauthenticated). Please try again later."
    );
    assert_eq!(
        error_message(&DownloadError::RateLimited(Endpoint::Archive), "docs"),
        "GitHub rate limit exceeded. Please try again later."
    );
    assert_eq!(error_message(&DownloadError::AccessDenied, "docs"), "Access denied. This may be a private repository.");
    assert_eq!(error_message(&DownloadError::RepoOrBranchNotFound, "docs"), "Repository or branch not found");
    assert_eq!(error_message(&DownloadError::EmptyArchive, "docs"), "Empty archive");
    assert_eq!(error_message(&DownloadError::ApiError(500), "docs"), "GitHub API error: 500 Internal Server Error");
    assert_eq!(error_message(&DownloadError::ApiError(418), "docs"), "GitHub API error: 418 I'm a teapot");
    assert_eq!(error_message(&DownloadError::NetworkError("Failed to download: x".to_string()), "docs"), "Failed to download: x");
    assert_eq!(error_message(&DownloadError::WriteError("Write error: y".to_string()), "docs"), "Write error: y");
    assert_eq!(error_message(&DownloadError::Cancelled, "docs"), "Download cancelled");
}

#[test]
fn status_lines() {
    assert_eq!(status_line(200), "200 OK");
    assert_eq!(status_line(404), "404 Not Found");
    assert_eq!(status_line(502), "502 Bad Gateway");
    assert_eq!(status_line(599), "599 <unknown status code>");
    assert_eq!(status_line(42), "42 <unknown status code>");
    assert_eq!(status_line_for(404, Some("Not Found")), "404 Not Found");
    assert_eq!(status_line_for(7, None), "7 <unknown status code>");
}
