//! What the user is told when an acquisition fails.

use crate::model::{DownloadError, Endpoint, ErrorView};
use crate::number::{decimal, u64_to_decimal};
use vstd::prelude::*;
use vstd::string::*;

verus! {

/// The reason phrase that goes with an HTTP status, when it has one.
pub uninterp spec fn reason_phrase(status: u16) -> Option<Seq<char>>;

/// `http::StatusCode::from_u16`, then `StatusCode::canonical_reason`, both
/// through `reqwest::StatusCode`: the standard reason phrase of `status`,
/// or `None` when the status is outside 100..=999 or has no phrase. The
/// phrase is taken from a fixed table.
#[verifier::external_body]
pub(crate) fn canonical_reason(status: u16) -> (r: Option<String>)
    ensures
        r.deep_view() == reason_phrase(status),
{
    let code = reqwest::StatusCode::from_u16(status).ok()?;
    code.canonical_reason().map(|reason| reason.to_string())
}

/// A status as it is shown: its number, then its reason phrase, or a
/// placeholder when it has none.
pub open spec fn status_text(status: u16, reason: Option<Seq<char>>) -> Seq<char> {
    decimal(status as nat) + " "@ + match reason {
        Some(phrase) => phrase,
        None => "<unknown status code>"@,
    }
}

/// What the user is told of an error of an acquisition of `path`, when
/// `reason` is the reason phrase of the status that the error carries, if
/// it carries one.
pub open spec fn error_text(error: ErrorView, path: Seq<char>, reason: Option<Seq<char>>) -> Seq<
    char,
> {
    match error {
        ErrorView::PathNotFound(listed) => "Path '"@ + listed + "' not found in repository"@,
        ErrorView::PathEmpty => "Folder '"@ + path + "' is empty or not found"@,
        ErrorView::FolderNotFound => "Folder '"@ + path + "' not found in repository"@,
        ErrorView::RateLimited(Endpoint::Listing) => "GitHub API rate limit exceeded (60 requests/hour for unauthenticated). Please try again later."@,
        ErrorView::RateLimited(Endpoint::Archive) => "GitHub rate limit exceeded. Please try again later."@,
        ErrorView::AccessDenied => "Access denied. This may be a private repository."@,
        ErrorView::RepoOrBranchNotFound => "Repository or branch not found"@,
        ErrorView::EmptyArchive => "Empty archive"@,
        ErrorView::ApiError(status) => "GitHub API error: "@ + status_text(status, reason),
        ErrorView::NetworkError(detail) => detail,
        ErrorView::WriteError(detail) => detail,
        ErrorView::Cancelled => "Download cancelled"@,
    }
}

/// The status that an error carries.
pub open spec fn status_of(error: ErrorView) -> u16 {
    match error {
        ErrorView::ApiError(status) => status,
        _ => 0,
    }
}

/// A status as it is shown, with the reason phrase given.
pub fn status_line_for(status: u16, reason: Option<&str>) -> (r: String)
    ensures
        r@ == status_text(
            status,
            match reason {
                Some(phrase) => Some(phrase@),
                None => None,
            },
        ),
{
    let mut out = u64_to_decimal(status as u64);
    out.append(" ");
    match reason {
        Some(phrase) => out.append(phrase),
        None => out.append("<unknown status code>"),
    }
    out
}

/// A status as it is shown.
pub fn status_line(status: u16) -> (r: String)
    ensures
        r@ == status_text(status, reason_phrase(status)),
{
    match canonical_reason(status) {
        Some(phrase) => status_line_for(status, Some(phrase.as_str())),
        None => status_line_for(status, None),
    }
}

fn wrapped(before: &str, middle: &str, after: &str) -> (r: String)
    ensures
        r@ == before@ + middle@ + after@,
{
    let mut out = String::from_str(before);
    out.append(middle);
    out.append(after);
    out
}

/// What the user is told of `error`, in an acquisition of `path`.
pub fn error_message(error: &DownloadError, path: &str) -> (r: String)
    ensures
        r@ == error_text(error@, path@, reason_phrase(status_of(error@))),
{
    match error {
        DownloadError::PathNotFound(listed) => wrapped(
            "Path '",
            listed.as_str(),
            "' not found in repository",
        ),
        DownloadError::PathEmpty => wrapped("Folder '", path, "' is empty or not found"),
        DownloadError::FolderNotFound => wrapped("Folder '", path, "' not found in repository"),
        DownloadError::RateLimited(Endpoint::Listing) => String::from_str(
            "GitHub API rate limit exceeded (60 requests/hour for unauthenticated). Please try again later.",
        ),
        DownloadError::RateLimited(Endpoint::Archive) => String::from_str(
            "GitHub rate limit exceeded. Please try again later.",
        ),
        DownloadError::AccessDenied => String::from_str(
            "Access denied. This may be a private repository.",
        ),
        DownloadError::RepoOrBranchNotFound => String::from_str("Repository or branch not found"),
        DownloadError::EmptyArchive => String::from_str("Empty archive"),
        DownloadError::ApiError(status) => {
            let line = status_line(*status);
            crate::text::followed_by("GitHub API error: ", line.as_str())
        },
        DownloadError::NetworkError(detail) => detail.clone(),
        DownloadError::WriteError(detail) => detail.clone(),
        DownloadError::Cancelled => String::from_str("Download cancelled"),
    }
}

} // verus!
