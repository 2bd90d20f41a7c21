//! The records that an acquisition works with, each with its mathematical view.

use vstd::prelude::*;

verus! {

/// A directory, or a whole repository, on the forge. An empty `path` means
/// the whole repository.
#[derive(Debug, Clone)]
pub struct GitHubUrlInfo {
    pub owner: String,
    pub repo: String,
    pub branch: String,
    pub path: String,
}

/// View of [`GitHubUrlInfo`].
pub struct RepositoryRef {
    pub owner: Seq<char>,
    pub repo: Seq<char>,
    pub branch: Seq<char>,
    pub path: Seq<char>,
}

impl View for GitHubUrlInfo {
    type V = RepositoryRef;

    open spec fn view(&self) -> RepositoryRef {
        RepositoryRef {
            owner: self.owner@,
            repo: self.repo@,
            branch: self.branch@,
            path: self.path@,
        }
    }
}

/// How the files are laid out under the output directory.
#[derive(Debug, Clone, Copy, PartialEq, Eq, Structural)]
pub struct GitDownloadOptions {
    pub extract_files: bool,
    /// Drop intermediate directories: every file lands directly in the output directory.
    pub flatten_structure: bool,
    /// Nest the output in a folder named after the last segment of the path,
    /// or after the repository when the path is empty.
    pub create_subfolder: bool,
}

/// The step of an acquisition that a progress report belongs to.
#[derive(Debug, Clone, Copy, PartialEq, Eq, Structural)]
pub enum Stage {
    Fetching,
    Listing,
    Downloading,
    Extracting,
    Complete,
}

/// One progress report.
#[derive(Debug, Clone)]
pub struct GitDownloadProgress {
    pub stage: Stage,
    pub percent: u32,
    pub message: String,
    pub total_files: Option<u32>,
    pub processed_files: Option<u32>,
}

/// View of [`GitDownloadProgress`].
pub struct ProgressEvent {
    pub stage: Stage,
    pub percent: u32,
    pub message: Seq<char>,
    pub total_files: Option<u32>,
    pub processed_files: Option<u32>,
}

impl View for GitDownloadProgress {
    type V = ProgressEvent;

    open spec fn view(&self) -> ProgressEvent {
        ProgressEvent {
            stage: self.stage,
            percent: self.percent,
            message: self.message@,
            total_files: self.total_files,
            processed_files: self.processed_files,
        }
    }
}

impl DeepView for GitDownloadProgress {
    type V = ProgressEvent;

    open spec fn deep_view(&self) -> ProgressEvent {
        self@
    }
}

/// What a finished acquisition reports.
#[derive(Debug, Clone)]
pub struct GitDownloadResult {
    pub success: bool,
    pub files_count: u32,
    pub total_size: u64,
    pub output_path: String,
}

/// View of [`GitDownloadResult`].
pub struct AcquisitionResult {
    pub success: bool,
    pub files_count: u32,
    pub total_size: u64,
    pub output_path: Seq<char>,
}

impl View for GitDownloadResult {
    type V = AcquisitionResult;

    open spec fn view(&self) -> AcquisitionResult {
        AcquisitionResult {
            success: self.success,
            files_count: self.files_count,
            total_size: self.total_size,
            output_path: self.output_path@,
        }
    }
}

impl DeepView for GitDownloadResult {
    type V = AcquisitionResult;

    open spec fn deep_view(&self) -> AcquisitionResult {
        self@
    }
}

/// One item of a directory listing, as the forge reports it.
#[derive(Debug, Clone)]
pub struct GitHubContentItem {
    pub name: String,
    pub path: String,
    /// `"file"`, `"dir"`, or something else (a symlink, a submodule).
    pub item_type: String,
    pub size: Option<u64>,
    pub download_url: Option<String>,
}

/// View of [`GitHubContentItem`].
pub struct ContentItem {
    pub name: Seq<char>,
    pub path: Seq<char>,
    pub item_type: Seq<char>,
    pub size: Option<u64>,
    pub download_url: Option<Seq<char>>,
}

impl View for GitHubContentItem {
    type V = ContentItem;

    open spec fn view(&self) -> ContentItem {
        ContentItem {
            name: self.name@,
            path: self.path@,
            item_type: self.item_type@,
            size: self.size,
            download_url: self.download_url.deep_view(),
        }
    }
}

impl DeepView for GitHubContentItem {
    type V = ContentItem;

    open spec fn deep_view(&self) -> ContentItem {
        self@
    }
}

/// A file that the listing found and that can be downloaded.
#[derive(Debug, Clone)]
pub struct FileToDownload {
    pub download_url: String,
    /// The file's path in the repository.
    pub relative_path: String,
    pub size: u64,
}

/// View of [`FileToDownload`].
pub struct FileDescriptor {
    pub download_url: Seq<char>,
    pub relative_path: Seq<char>,
    pub size: u64,
}

impl View for FileToDownload {
    type V = FileDescriptor;

    open spec fn view(&self) -> FileDescriptor {
        FileDescriptor {
            download_url: self.download_url@,
            relative_path: self.relative_path@,
            size: self.size,
        }
    }
}

impl DeepView for FileToDownload {
    type V = FileDescriptor;

    open spec fn deep_view(&self) -> FileDescriptor {
        self@
    }
}

/// One entry of an archive's table: its name, whether it is a directory, and
/// the size of its content once decompressed.
#[derive(Debug, Clone)]
pub struct ArchiveEntry {
    pub name: String,
    pub is_dir: bool,
    pub size: u64,
}

/// View of [`ArchiveEntry`].
pub struct EntryView {
    pub name: Seq<char>,
    pub is_dir: bool,
    pub size: u64,
}

impl View for ArchiveEntry {
    type V = EntryView;

    open spec fn view(&self) -> EntryView {
        EntryView { name: self.name@, is_dir: self.is_dir, size: self.size }
    }
}

impl DeepView for ArchiveEntry {
    type V = EntryView;

    open spec fn deep_view(&self) -> EntryView {
        self@
    }
}

/// The two requests that the forge can refuse for want of quota.
#[derive(Debug, Clone, Copy, PartialEq, Eq, Structural)]
pub enum Endpoint {
    /// The listing of a directory.
    Listing,
    /// The archive of the repository.
    Archive,
}

/// Why an acquisition ended without a result.
#[derive(Debug, Clone, PartialEq, Eq)]
pub enum DownloadError {
    /// The listing answered 404 for this path.
    PathNotFound(String),
    /// The listing succeeded and holds no downloadable file.
    PathEmpty,
    /// The archive holds no file under the requested path.
    FolderNotFound,
    /// The forge refused the request because the quota is used up: a listing
    /// answered 403 with no request left, or the archive request answered 403.
    RateLimited(Endpoint),
    /// The forge refused the listing for another reason.
    AccessDenied,
    /// The archive request answered 404.
    RepoOrBranchNotFound,
    /// The archive has no entries.
    EmptyArchive,
    /// Any other status outside 200..=299.
    ApiError(u16),
    /// A request or a response body failed; the text says how.
    NetworkError(String),
    /// A file or directory could not be written or read; the text says how.
    WriteError(String),
    /// The caller cancelled the acquisition.
    Cancelled,
}

/// View of [`DownloadError`].
pub enum ErrorView {
    PathNotFound(Seq<char>),
    PathEmpty,
    FolderNotFound,
    RateLimited(Endpoint),
    AccessDenied,
    RepoOrBranchNotFound,
    EmptyArchive,
    ApiError(u16),
    NetworkError(Seq<char>),
    WriteError(Seq<char>),
    Cancelled,
}

impl View for DownloadError {
    type V = ErrorView;

    open spec fn view(&self) -> ErrorView {
        match self {
            DownloadError::PathNotFound(p) => ErrorView::PathNotFound(p@),
            DownloadError::PathEmpty => ErrorView::PathEmpty,
            DownloadError::FolderNotFound => ErrorView::FolderNotFound,
            DownloadError::RateLimited(e) => ErrorView::RateLimited(*e),
            DownloadError::AccessDenied => ErrorView::AccessDenied,
            DownloadError::RepoOrBranchNotFound => ErrorView::RepoOrBranchNotFound,
            DownloadError::EmptyArchive => ErrorView::EmptyArchive,
            DownloadError::ApiError(s) => ErrorView::ApiError(*s),
            DownloadError::NetworkError(d) => ErrorView::NetworkError(d@),
            DownloadError::WriteError(d) => ErrorView::WriteError(d@),
            DownloadError::Cancelled => ErrorView::Cancelled,
        }
    }
}

impl DeepView for DownloadError {
    type V = ErrorView;

    open spec fn deep_view(&self) -> ErrorView {
        self@
    }
}

} // verus!
