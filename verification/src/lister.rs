//! Listing a directory tree: the address of each listing request, what a
//! refused request means, and the depth-first walk over the answers.

use crate::model::{
    ContentItem, DownloadError, Endpoint, ErrorView, FileDescriptor, FileToDownload,
    GitHubContentItem, GitHubUrlInfo, RepositoryRef,
};
use crate::number::{parse_u64, parse_unsigned};
use crate::text::str_eq;
use vstd::prelude::*;
use vstd::string::*;

verus! {

/// What an item of a listing is.
#[derive(Debug, Clone, Copy, PartialEq, Eq, Structural)]
pub enum ItemKind {
    File,
    Dir,
    /// A symlink, a submodule, or anything else: it is passed over.
    Other,
}

/// The kind that the forge's `type` field names.
pub open spec fn kind_of(item_type: Seq<char>) -> ItemKind {
    if item_type == "file"@ {
        ItemKind::File
    } else if item_type == "dir"@ {
        ItemKind::Dir
    } else {
        ItemKind::Other
    }
}

/// The address that lists the directory `path` of the repository; an empty
/// `path` lists its root.
pub open spec fn listing_url(info: RepositoryRef, path: Seq<char>) -> Seq<char> {
    if path.len() == 0 {
        "https://api.github.com/repos/"@ + info.owner + "/"@ + info.repo + "/contents?ref="@
            + info.branch
    } else {
        "https://api.github.com/repos/"@ + info.owner + "/"@ + info.repo + "/contents/"@ + path
            + "?ref="@ + info.branch
    }
}

/// Whether the header that carries the remaining quota says zero.
pub open spec fn quota_exhausted(remaining: Option<Seq<char>>) -> bool {
    match remaining {
        Some(text) => parse_unsigned(text, 10, 0xffff_ffff) == Some(0nat),
        None => false,
    }
}

/// Whether a status is in 200..=299.
pub open spec fn is_success(status: u16) -> bool {
    200 <= status <= 299
}

/// Why a listing request for `path` failed, from its status and quota
/// header; `None` when the status is a success.
pub open spec fn listing_failure(
    status: u16,
    remaining: Option<Seq<char>>,
    path: Seq<char>,
) -> Option<ErrorView> {
    if status == 403 {
        if quota_exhausted(remaining) {
            Some(ErrorView::RateLimited(Endpoint::Listing))
        } else {
            Some(ErrorView::AccessDenied)
        }
    } else if status == 404 {
        Some(ErrorView::PathNotFound(path))
    } else if !is_success(status) {
        Some(ErrorView::ApiError(status))
    } else {
        None
    }
}

/// Whether a listing failure ends the acquisition. Any other failure is
/// answered by switching to the archive.
pub open spec fn is_final_failure(error: ErrorView) -> bool {
    error is RateLimited || error is AccessDenied
}

/// Where a walk stands: the items still to visit, the files found so far,
/// and the directory to list next, if the walk stopped at one.
pub struct Walk {
    pub pending: Seq<ContentItem>,
    pub files: Seq<FileDescriptor>,
    pub next_dir: Option<Seq<char>>,
}

/// The file that a listed item stands for, when it has an address to download it from.
pub open spec fn descriptor_of(item: ContentItem) -> Option<FileDescriptor> {
    match item.download_url {
        Some(url) => Some(
            FileDescriptor {
                download_url: url,
                relative_path: item.path,
                size: match item.size {
                    Some(n) => n,
                    None => 0,
                },
            },
        ),
        None => None,
    }
}

/// Visits `pending` from the front until a directory comes up or nothing is
/// left. Files with an address join `files`, in order; files without one
/// and other items are passed over.
pub open spec fn walk(pending: Seq<ContentItem>, files: Seq<FileDescriptor>) -> Walk
    decreases pending.len(),
{
    if pending.len() == 0 {
        Walk { pending, files, next_dir: None }
    } else {
        let item = pending[0];
        let rest = pending.skip(1);
        match kind_of(item.item_type) {
            ItemKind::Dir => Walk { pending: rest, files, next_dir: Some(item.path) },
            ItemKind::File => match descriptor_of(item) {
                Some(file) => walk(rest, files.push(file)),
                None => walk(rest, files),
            },
            ItemKind::Other => walk(rest, files),
        }
    }
}

/// The items that a stack holds, the top of the stack first.
pub open spec fn pending_of(stack: Seq<GitHubContentItem>) -> Seq<ContentItem> {
    Seq::new(stack.len(), |i: int| stack[stack.len() - 1 - i]@)
}

/// The kind of an item.
pub fn item_kind(item_type: &str) -> (r: ItemKind)
    ensures
        r == kind_of(item_type@),
{
    if str_eq(item_type, "file") {
        ItemKind::File
    } else if str_eq(item_type, "dir") {
        ItemKind::Dir
    } else {
        ItemKind::Other
    }
}

/// The address that lists the directory `path`.
pub fn list_url(info: &GitHubUrlInfo, path: &str) -> (r: String)
    ensures
        r@ == listing_url(info@, path@),
{
    let mut out = String::from_str("https://api.github.com/repos/");
    out.append(info.owner.as_str());
    out.append("/");
    out.append(info.repo.as_str());
    if path.unicode_len() == 0 {
        out.append("/contents?ref=");
    } else {
        out.append("/contents/");
        out.append(path);
        out.append("?ref=");
    }
    out.append(info.branch.as_str());
    out
}

/// Whether the quota header says zero.
pub fn is_quota_exhausted(remaining: &Option<String>) -> (r: bool)
    ensures
        r == quota_exhausted(remaining.deep_view()),
{
    match remaining {
        Some(text) => {
            match parse_u64(text.as_str(), 10, 0xffff_ffff) {
                Some(n) => n == 0,
                None => false,
            }
        },
        None => false,
    }
}

/// Whether a status is in 200..=299.
pub fn status_is_success(status: u16) -> (r: bool)
    ensures
        r == is_success(status),
{
    200 <= status && status <= 299
}

/// Why a listing request failed, if it did.
pub fn classify_listing(status: u16, remaining: &Option<String>, path: &str) -> (r: Option<
    DownloadError,
>)
    ensures
        r.deep_view() == listing_failure(status, remaining.deep_view(), path@),
{
    if status == 403 {
        if is_quota_exhausted(remaining) {
            Some(DownloadError::RateLimited(Endpoint::Listing))
        } else {
            Some(DownloadError::AccessDenied)
        }
    } else if status == 404 {
        Some(DownloadError::PathNotFound(String::from_str(path)))
    } else if !status_is_success(status) {
        Some(DownloadError::ApiError(status))
    } else {
        None
    }
}

/// Puts the items of a listing on the stack so that the first of them is visited next.
pub fn push_listing(stack: &mut Vec<GitHubContentItem>, items: Vec<GitHubContentItem>)
    ensures
        pending_of(final(stack)@) == items.deep_view() + pending_of(old(stack)@),
{
    let mut items = items;
    let ghost all = items.deep_view();
    let ghost before = pending_of(stack@);
    while items.len() > 0
        invariant
            items.deep_view() == all.take(items.len() as int),
            items.len() <= all.len(),
            pending_of(stack@) == all.skip(items.len() as int) + before,
        decreases items.len(),
    {
        let ghost k = items.len() as int;
        let ghost prior = stack@;
        let item = items.pop().unwrap();
        assert(item@ == all[k - 1]) by {
            assert(all.take(k)[k - 1] == all[k - 1]);
        }
        stack.push(item);
        assert(items.deep_view() =~= all.take(k - 1));
        assert(pending_of(stack@) =~= all.skip(k - 1) + before) by {
            let older = all.skip(k) + before;
            let newer = all.skip(k - 1) + before;
            assert(pending_of(prior) == older);
            assert(pending_of(prior).len() == prior.len());
            assert(newer.len() == older.len() + 1);
            assert forall|i: int| 0 <= i < stack@.len() implies pending_of(stack@)[i]
                == newer[i] by {
                if i == 0 {
                    assert(newer[0] == all[k - 1]);
                } else {
                    assert(pending_of(stack@)[i] == pending_of(prior)[i - 1]);
                    if i - 1 < all.len() - k {
                        assert(older[i - 1] == all[k + i - 1]);
                        assert(newer[i] == all[k - 1 + i]);
                    } else {
                        assert(older[i - 1] == before[i - 1 - (all.len() - k)]);
                        assert(newer[i] == before[i - (all.len() - k + 1)]);
                    }
                }
            }
        }
    }
    assert(all.skip(0) =~= all);
}

/// Visits the stack from its top until a directory comes up or nothing is
/// left, and returns the directory's path.
pub fn walk_stack(stack: &mut Vec<GitHubContentItem>, files: &mut Vec<FileToDownload>) -> (r:
    Option<String>)
    ensures
        ({
            let w = walk(pending_of(old(stack)@), old(files).deep_view());
            &&& pending_of(final(stack)@) == w.pending
            &&& final(files).deep_view() == w.files
            &&& r.deep_view() == w.next_dir
        }),
{
    let ghost goal = walk(pending_of(stack@), files.deep_view());
    while stack.len() > 0
        invariant
            goal == walk(pending_of(old(stack)@), old(files).deep_view()),
            walk(pending_of(stack@), files.deep_view()) == goal,
        decreases stack.len(),
    {
        let ghost before = pending_of(stack@);
        let ghost found = files.deep_view();
        let item = stack.pop().unwrap();
        assert(before[0] == item@);
        assert(pending_of(stack@) =~= before.skip(1));
        match item_kind(item.item_type.as_str()) {
            ItemKind::Dir => {
                return Some(item.path);
            },
            ItemKind::File => {
                match item.download_url {
                    Some(url) => {
                        let size: u64 = match item.size {
                            Some(n) => n,
                            None => 0,
                        };
                        files.push(
                            FileToDownload { download_url: url, relative_path: item.path, size },
                        );
                        assert(files.deep_view() =~= found.push(descriptor_of(item@).unwrap()));
                    },
                    None => {},
                }
            },
            ItemKind::Other => {},
        }
    }
    assert(pending_of(stack@) =~= Seq::<ContentItem>::empty());
    None
}

} // verus!
