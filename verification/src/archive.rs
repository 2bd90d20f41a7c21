//! The archive of a whole repository: its address, what a refused request
//! means, and which of its entries belong to the requested directory.

use crate::layout::{entry_selected, is_selected};
use crate::lister::{is_success, status_is_success};
use crate::model::{
    ArchiveEntry, DownloadError, Endpoint, EntryView, ErrorView, GitHubUrlInfo, RepositoryRef,
};
use vstd::prelude::*;
use vstd::string::*;

verus! {

/// The address of the archive of a branch.
pub open spec fn archive_url(info: RepositoryRef) -> Seq<char> {
    "https://api.github.com/repos/"@ + info.owner + "/"@ + info.repo + "/zipball/"@ + info.branch
}

/// Why the archive request failed, from its status; `None` when the status is a success.
pub open spec fn archive_failure(status: u16) -> Option<ErrorView> {
    if is_success(status) {
        None
    } else if status == 404 {
        Some(ErrorView::RepoOrBranchNotFound)
    } else if status == 403 {
        Some(ErrorView::RateLimited(Endpoint::Archive))
    } else {
        Some(ErrorView::ApiError(status))
    }
}

/// How many of the first `upto` entries are files of the requested directory.
pub open spec fn selected_upto(entries: Seq<EntryView>, prefix: Seq<char>, upto: int) -> nat
    decreases upto,
{
    if upto <= 0 || upto > entries.len() {
        0
    } else {
        selected_upto(entries, prefix, upto - 1) + if entry_selected(entries[upto - 1], prefix) {
            1nat
        } else {
            0nat
        }
    }
}

/// How many entries are files of the requested directory.
pub open spec fn selected_count(entries: Seq<EntryView>, prefix: Seq<char>) -> nat {
    selected_upto(entries, prefix, entries.len() as int)
}

/// Index of the first selected entry at or after `from`; `entries.len()` when there is none.
pub open spec fn next_selected(entries: Seq<EntryView>, prefix: Seq<char>, from: int) -> int
    decreases entries.len() - from,
{
    if from < 0 || from >= entries.len() {
        entries.len() as int
    } else if entry_selected(entries[from], prefix) {
        from
    } else {
        next_selected(entries, prefix, from + 1)
    }
}

/// `n`, or the largest `u32` when `n` is larger.
pub open spec fn clamp_u32(n: nat) -> u32 {
    if n > 0xffff_ffff {
        0xffff_ffffu32
    } else {
        n as u32
    }
}

/// `a + b`, or the largest `u32` when the sum is larger.
pub open spec fn saturating_u32(a: u32, b: nat) -> u32 {
    clamp_u32(a as nat + b)
}

/// `a + b`, or the largest `u64` when the sum is larger.
pub open spec fn saturating_u64(a: u64, b: u64) -> u64 {
    if a + b > 0xffff_ffff_ffff_ffff {
        0xffff_ffff_ffff_ffffu64
    } else {
        (a + b) as u64
    }
}

/// Where the next selected entry is: it is selected, and none before it is.
pub proof fn lemma_next_selected(entries: Seq<EntryView>, prefix: Seq<char>, from: int)
    requires
        0 <= from <= entries.len(),
    ensures
        from <= next_selected(entries, prefix, from) <= entries.len(),
        forall|j: int|
            from <= j < next_selected(entries, prefix, from) ==> !entry_selected(
                #[trigger] entries[j],
                prefix,
            ),
        next_selected(entries, prefix, from) < entries.len() ==> entry_selected(
            entries[next_selected(entries, prefix, from)],
            prefix,
        ),
    decreases entries.len() - from,
{
    if from < entries.len() && !entry_selected(entries[from], prefix) {
        lemma_next_selected(entries, prefix, from + 1);
    }
}

/// The address of the archive of a branch.
pub fn archive_address(info: &GitHubUrlInfo) -> (r: String)
    ensures
        r@ == archive_url(info@),
{
    let mut out = String::from_str("https://api.github.com/repos/");
    out.append(info.owner.as_str());
    out.append("/");
    out.append(info.repo.as_str());
    out.append("/zipball/");
    out.append(info.branch.as_str());
    out
}

/// Why the archive request failed, if it did.
pub fn classify_archive(status: u16) -> (r: Option<DownloadError>)
    ensures
        r.deep_view() == archive_failure(status),
{
    if status_is_success(status) {
        None
    } else if status == 404 {
        Some(DownloadError::RepoOrBranchNotFound)
    } else if status == 403 {
        Some(DownloadError::RateLimited(Endpoint::Archive))
    } else {
        Some(DownloadError::ApiError(status))
    }
}

/// `a + 1`, or the largest `u32`.
pub fn increment(a: u32) -> (r: u32)
    ensures
        r == saturating_u32(a, 1),
{
    if a == 0xffff_ffff {
        a
    } else {
        a + 1
    }
}

/// `a + b`, or the largest `u64`.
pub fn add_bytes(a: u64, b: u64) -> (r: u64)
    ensures
        r == saturating_u64(a, b),
{
    if b > 0xffff_ffff_ffff_ffff - a {
        0xffff_ffff_ffff_ffff
    } else {
        a + b
    }
}

/// A length as a `u32`, or the largest `u32` when it is larger.
pub fn clamp_len(n: usize) -> (r: u32)
    ensures
        r == clamp_u32(n as nat),
{
    if n > 0xffff_ffff {
        0xffff_ffff
    } else {
        n as u32
    }
}

/// Counts the entries that are files of the requested directory.
pub fn count_selected(entries: &Vec<ArchiveEntry>, prefix: &str) -> (r: u32)
    ensures
        r == clamp_u32(selected_count(entries.deep_view(), prefix@)),
{
    let mut count: u32 = 0;
    let mut i: usize = 0;
    while i < entries.len()
        invariant
            i <= entries.len(),
            count == clamp_u32(selected_upto(entries.deep_view(), prefix@, i as int)),
        decreases entries.len() - i,
    {
        assert(entries.deep_view()[i as int] == entries@[i as int]@);
        if is_selected(&entries[i], prefix) {
            count = increment(count);
        }
        i = i + 1;
    }
    count
}

/// Finds the first selected entry at or after `from`.
pub fn find_selected(entries: &Vec<ArchiveEntry>, prefix: &str, from: usize) -> (r: usize)
    ensures
        r == next_selected(entries.deep_view(), prefix@, from as int),
{
    let mut i: usize = from;
    while i < entries.len()
        invariant
            from <= i,
            next_selected(entries.deep_view(), prefix@, i as int) == next_selected(
                entries.deep_view(),
                prefix@,
                from as int,
            ),
        decreases entries.len() - i,
    {
        assert(entries.deep_view()[i as int] == entries@[i as int]@);
        if is_selected(&entries[i], prefix) {
            return i;
        }
        i = i + 1;
    }
    entries.len()
}

} // verus!
