//! Progress reports: the percentage formulas of each stage and the reports
//! built from them. Within one strategy the percentages rise from 0 to 95,
//! and only the final report carries 100.

use crate::model::{GitDownloadProgress, ProgressEvent, Stage};
use crate::number::{decimal, u64_to_decimal};
use vstd::prelude::*;
use vstd::string::*;

verus! {

/// Percentage while files are fetched one by one: from 10 up to 95, in
/// proportion to the files saved.
#[verifier::opaque]
pub open spec fn fetch_percent(processed: nat, total: nat) -> nat {
    let denominator = if total == 0 {
        1
    } else {
        total
    };
    let raw = 10 + (processed * 85) / denominator;
    if raw > 95 {
        95
    } else {
        raw
    }
}

/// Percentage while the archive is received, whose size is not known: 15 plus
/// one point for each whole million bytes, and never more than 50.
pub open spec fn archive_percent(downloaded: nat) -> nat {
    let megabytes = downloaded / 1_000_000;
    if megabytes > 35 {
        50
    } else {
        15 + megabytes
    }
}

/// Percentage while entries are extracted: from 60 up to 95, in proportion to
/// the entries written.
#[verifier::opaque]
pub open spec fn extract_percent(extracted: nat, matching: nat) -> nat {
    let denominator = if matching == 0 {
        1
    } else {
        matching
    };
    let raw = 60 + (extracted * 35) / denominator;
    if raw > 95 {
        95
    } else {
        raw
    }
}

/// A number of bytes in tenths of a million, rounded to the nearest, halves up.
pub open spec fn tenths_of_megabyte(bytes: nat) -> nat {
    (bytes + 50_000) / 100_000
}

/// A number of bytes as megabytes with one decimal, such as `12.3`.
pub open spec fn megabytes_text(bytes: nat) -> Seq<char> {
    decimal(tenths_of_megabyte(bytes) / 10) + seq!['.'] + decimal(tenths_of_megabyte(bytes) % 10)
}

pub open spec fn connecting_event() -> ProgressEvent {
    ProgressEvent {
        stage: Stage::Fetching,
        percent: 0,
        message: "Connecting to GitHub..."@,
        total_files: None,
        processed_files: None,
    }
}

pub open spec fn listing_event() -> ProgressEvent {
    ProgressEvent {
        stage: Stage::Listing,
        percent: 5,
        message: "Listing files in folder..."@,
        total_files: None,
        processed_files: None,
    }
}

pub open spec fn found_files_event(total: u32) -> ProgressEvent {
    ProgressEvent {
        stage: Stage::Downloading,
        percent: 10,
        message: "Found "@ + decimal(total as nat) + " files to download"@,
        total_files: Some(total),
        processed_files: Some(0),
    }
}

pub open spec fn file_saved_event(processed: u32, total: u32) -> ProgressEvent {
    ProgressEvent {
        stage: Stage::Downloading,
        percent: fetch_percent(processed as nat, total as nat) as u32,
        message: "Downloaded "@ + decimal(processed as nat) + " of "@ + decimal(total as nat)
            + " files"@,
        total_files: Some(total),
        processed_files: Some(processed),
    }
}

pub open spec fn archive_started_event() -> ProgressEvent {
    ProgressEvent {
        stage: Stage::Downloading,
        percent: 10,
        message: "Downloading repository archive..."@,
        total_files: None,
        processed_files: None,
    }
}

pub open spec fn archive_progress_event(downloaded: u64) -> ProgressEvent {
    ProgressEvent {
        stage: Stage::Downloading,
        percent: archive_percent(downloaded as nat) as u32,
        message: "Downloading... "@ + megabytes_text(downloaded as nat) + " MB"@,
        total_files: None,
        processed_files: None,
    }
}

pub open spec fn archive_saved_event(downloaded: u64) -> ProgressEvent {
    ProgressEvent {
        stage: Stage::Downloading,
        percent: 50,
        message: "Downloaded "@ + megabytes_text(downloaded as nat) + " MB"@,
        total_files: None,
        processed_files: None,
    }
}

pub open spec fn extracting_event() -> ProgressEvent {
    ProgressEvent {
        stage: Stage::Extracting,
        percent: 55,
        message: "Extracting files..."@,
        total_files: None,
        processed_files: None,
    }
}

pub open spec fn found_entries_event(matching: u32) -> ProgressEvent {
    ProgressEvent {
        stage: Stage::Extracting,
        percent: 60,
        message: "Found "@ + decimal(matching as nat) + " files to extract..."@,
        total_files: Some(matching),
        processed_files: Some(0),
    }
}

pub open spec fn entry_extracted_event(extracted: u32, matching: u32) -> ProgressEvent {
    ProgressEvent {
        stage: Stage::Extracting,
        percent: extract_percent(extracted as nat, matching as nat) as u32,
        message: "Extracting file "@ + decimal(extracted as nat) + " of "@ + decimal(
            matching as nat,
        ) + "..."@,
        total_files: Some(matching),
        processed_files: Some(extracted),
    }
}

pub open spec fn complete_event(processed: u32, total: u32) -> ProgressEvent {
    ProgressEvent {
        stage: Stage::Complete,
        percent: 100,
        message: "Successfully downloaded "@ + decimal(processed as nat) + " files"@,
        total_files: Some(total),
        processed_files: Some(processed),
    }
}

/// The fetch percentage lies between 10 and 95 and does not fall as files are saved.
pub proof fn lemma_fetch_percent_monotone(a: nat, b: nat, total: nat)
    requires
        a <= b,
    ensures
        10 <= fetch_percent(a, total) <= fetch_percent(b, total) <= 95,
{
    reveal(fetch_percent);
    let d: nat = if total == 0 {
        1
    } else {
        total
    };
    assert((a * 85) / d <= (b * 85) / d) by (nonlinear_arith)
        requires
            a <= b,
            d > 0,
    ;
    assert(0 <= (a * 85) / d) by (nonlinear_arith)
        requires
            d > 0,
    ;
}

/// The archive percentage lies between 15 and 50 and does not fall as bytes arrive.
pub proof fn lemma_archive_percent_monotone(a: nat, b: nat)
    requires
        a <= b,
    ensures
        15 <= archive_percent(a) <= archive_percent(b) <= 50,
{
}

/// The extraction percentage lies between 60 and 95 and does not fall as entries are written.
pub proof fn lemma_extract_percent_monotone(a: nat, b: nat, matching: nat)
    requires
        a <= b,
    ensures
        60 <= extract_percent(a, matching) <= extract_percent(b, matching) <= 95,
{
    reveal(extract_percent);
    let d: nat = if matching == 0 {
        1
    } else {
        matching
    };
    assert((a * 35) / d <= (b * 35) / d) by (nonlinear_arith)
        requires
            a <= b,
            d > 0,
    ;
    assert(0 <= (a * 35) / d) by (nonlinear_arith)
        requires
            d > 0,
    ;
}

/// Computes [`fetch_percent`].
pub fn percent_of_fetch(processed: u32, total: u32) -> (r: u32)
    ensures
        r == fetch_percent(processed as nat, total as nat),
        10 <= r <= 95,
{
    reveal(fetch_percent);
    let denominator: u64 = if total == 0 {
        1
    } else {
        total as u64
    };
    let raw: u64 = 10 + (processed as u64 * 85) / denominator;
    if raw > 95 {
        95
    } else {
        raw as u32
    }
}

/// Computes [`archive_percent`].
pub fn percent_of_archive(downloaded: u64) -> (r: u32)
    ensures
        r == archive_percent(downloaded as nat),
        15 <= r <= 50,
{
    let megabytes: u64 = downloaded / 1_000_000;
    if megabytes > 35 {
        50
    } else {
        (15 + megabytes) as u32
    }
}

/// Computes [`extract_percent`].
pub fn percent_of_extract(extracted: u32, matching: u32) -> (r: u32)
    ensures
        r == extract_percent(extracted as nat, matching as nat),
        60 <= r <= 95,
{
    reveal(extract_percent);
    let denominator: u64 = if matching == 0 {
        1
    } else {
        matching as u64
    };
    let raw: u64 = 60 + (extracted as u64 * 35) / denominator;
    if raw > 95 {
        95
    } else {
        raw as u32
    }
}

/// Renders [`megabytes_text`].
pub fn megabytes(bytes: u64) -> (r: String)
    ensures
        r@ == megabytes_text(bytes as nat),
{
    proof {
        reveal_strlit(".");
    }
    let tenths: u64 = bytes / 100_000 + if bytes % 100_000 >= 50_000 {
        1u64
    } else {
        0u64
    };
    assert(tenths == tenths_of_megabyte(bytes as nat));
    let mut out = u64_to_decimal(tenths / 10);
    out.append(".");
    let fraction = u64_to_decimal(tenths % 10);
    out.append(fraction.as_str());
    assert("."@ =~= seq!['.']);
    out
}

fn plain(stage: Stage, percent: u32, message: &str) -> (r: GitDownloadProgress)
    ensures
        r@ == (ProgressEvent {
            stage,
            percent,
            message: message@,
            total_files: None,
            processed_files: None,
        }),
{
    GitDownloadProgress {
        stage,
        percent,
        message: String::from_str(message),
        total_files: None,
        processed_files: None,
    }
}

pub fn connecting() -> (r: GitDownloadProgress)
    ensures
        r@ == connecting_event(),
{
    plain(Stage::Fetching, 0, "Connecting to GitHub...")
}

pub fn listing() -> (r: GitDownloadProgress)
    ensures
        r@ == listing_event(),
{
    plain(Stage::Listing, 5, "Listing files in folder...")
}

pub fn found_files(total: u32) -> (r: GitDownloadProgress)
    ensures
        r@ == found_files_event(total),
{
    let mut message = String::from_str("Found ");
    let count = u64_to_decimal(total as u64);
    message.append(count.as_str());
    message.append(" files to download");
    GitDownloadProgress {
        stage: Stage::Downloading,
        percent: 10,
        message,
        total_files: Some(total),
        processed_files: Some(0),
    }
}

pub fn file_saved(processed: u32, total: u32) -> (r: GitDownloadProgress)
    ensures
        r@ == file_saved_event(processed, total),
{
    let mut message = String::from_str("Downloaded ");
    let done = u64_to_decimal(processed as u64);
    message.append(done.as_str());
    message.append(" of ");
    let all = u64_to_decimal(total as u64);
    message.append(all.as_str());
    message.append(" files");
    GitDownloadProgress {
        stage: Stage::Downloading,
        percent: percent_of_fetch(processed, total),
        message,
        total_files: Some(total),
        processed_files: Some(processed),
    }
}

pub fn archive_started() -> (r: GitDownloadProgress)
    ensures
        r@ == archive_started_event(),
{
    plain(Stage::Downloading, 10, "Downloading repository archive...")
}

pub fn archive_progress(downloaded: u64) -> (r: GitDownloadProgress)
    ensures
        r@ == archive_progress_event(downloaded),
{
    let mut message = String::from_str("Downloading... ");
    let size = megabytes(downloaded);
    message.append(size.as_str());
    message.append(" MB");
    GitDownloadProgress {
        stage: Stage::Downloading,
        percent: percent_of_archive(downloaded),
        message,
        total_files: None,
        processed_files: None,
    }
}

pub fn archive_saved(downloaded: u64) -> (r: GitDownloadProgress)
    ensures
        r@ == archive_saved_event(downloaded),
{
    let mut message = String::from_str("Downloaded ");
    let size = megabytes(downloaded);
    message.append(size.as_str());
    message.append(" MB");
    GitDownloadProgress {
        stage: Stage::Downloading,
        percent: 50,
        message,
        total_files: None,
        processed_files: None,
    }
}

pub fn extracting() -> (r: GitDownloadProgress)
    ensures
        r@ == extracting_event(),
{
    plain(Stage::Extracting, 55, "Extracting files...")
}

pub fn found_entries(matching: u32) -> (r: GitDownloadProgress)
    ensures
        r@ == found_entries_event(matching),
{
    let mut message = String::from_str("Found ");
    let count = u64_to_decimal(matching as u64);
    message.append(count.as_str());
    message.append(" files to extract...");
    GitDownloadProgress {
        stage: Stage::Extracting,
        percent: 60,
        message,
        total_files: Some(matching),
        processed_files: Some(0),
    }
}

pub fn entry_extracted(extracted: u32, matching: u32) -> (r: GitDownloadProgress)
    ensures
        r@ == entry_extracted_event(extracted, matching),
{
    let mut message = String::from_str("Extracting file ");
    let done = u64_to_decimal(extracted as u64);
    message.append(done.as_str());
    message.append(" of ");
    let all = u64_to_decimal(matching as u64);
    message.append(all.as_str());
    message.append("...");
    GitDownloadProgress {
        stage: Stage::Extracting,
        percent: percent_of_extract(extracted, matching),
        message,
        total_files: Some(matching),
        processed_files: Some(extracted),
    }
}

pub fn complete(processed: u32, total: u32) -> (r: GitDownloadProgress)
    ensures
        r@ == complete_event(processed, total),
{
    let mut message = String::from_str("Successfully downloaded ");
    let done = u64_to_decimal(processed as u64);
    message.append(done.as_str());
    message.append(" files");
    GitDownloadProgress {
        stage: Stage::Complete,
        percent: 100,
        message,
        total_files: Some(total),
        processed_files: Some(processed),
    }
}

} // verus!
