//! Driving the video downloader: which formats to ask for, the arguments of
//! each run, and what its output lines say.

use crate::layout::{join, join_path};
use crate::scan::{after_mark, find, first_occurrence, has, read_after_mark, trim, trimmed};
use crate::text::{last_index, push_text, slice_to_string, str_eq, to_chars};
use vstd::prelude::*;
use vstd::string::*;

verus! {

/// What is known of a video.
#[derive(Debug, Clone)]
pub struct YouTubeVideoInfo {
    pub url: String,
    pub title: String,
    pub thumbnail: String,
    pub duration: u64,
    pub channel: String,
    pub is_valid: bool,
}

/// What to download of a video.
#[derive(Debug, Clone)]
pub struct YouTubeDownloadOptions {
    /// `"best"`, `"4k"`, `"1080p"`, `"720p"`, `"480p"` or `"360p"`.
    pub quality: String,
    /// `"video_audio"`, `"audio_only"` or `"video_only"`.
    pub mode: String,
}

/// The largest height that a quality allows, as text; `None` for the best quality
/// and for a quality that is not known.
pub open spec fn height_limit(quality: Seq<char>) -> Option<Seq<char>> {
    if quality == "4k"@ {
        Some("2160"@)
    } else if quality == "1080p"@ {
        Some("1080"@)
    } else if quality == "720p"@ {
        Some("720"@)
    } else if quality == "480p"@ {
        Some("480"@)
    } else if quality == "360p"@ {
        Some("360"@)
    } else {
        None
    }
}

/// The format selector for a quality and a mode. Each selector ends in
/// fallbacks, so that a download goes through even when the wanted height
/// is not on offer or streams cannot be merged.
pub open spec fn format_selector(quality: Seq<char>, mode: Seq<char>) -> Seq<char> {
    if mode == "audio_only"@ {
        "bestaudio[ext=m4a]/bestaudio/best"@
    } else if mode == "video_only"@ {
        match height_limit(quality) {
            Some(h) => "bestvideo[height<="@ + h + "]/best[height<="@ + h + "]/bestvideo/best"@,
            None => "bestvideo/best"@,
        }
    } else {
        match height_limit(quality) {
            Some(h) => "bestvideo[height<="@ + h + "]+bestaudio/best[height<="@ + h
                + "]/bestvideo+bestaudio/best"@,
            None => "bestvideo+bestaudio/best"@,
        }
    }
}

/// The arguments of the run that describes a video.
pub open spec fn info_arguments(url: Seq<char>) -> Seq<Seq<char>> {
    seq![
        "--dump-json"@,
        "--no-download"@,
        "--no-warnings"@,
        "--socket-timeout"@,
        "10"@,
        url,
    ]
}

/// The arguments that a mode adds to a download.
pub open spec fn mode_arguments(mode: Seq<char>) -> Seq<Seq<char>> {
    if mode == "video_audio"@ {
        seq!["--merge-output-format"@, "mp4"@]
    } else if mode == "audio_only"@ {
        seq!["-x"@, "--audio-format"@, "mp3"@]
    } else {
        Seq::empty()
    }
}

/// The arguments of the run that downloads a video into `output_path`.
pub open spec fn download_arguments(
    url: Seq<char>,
    output_path: Seq<char>,
    quality: Seq<char>,
    mode: Seq<char>,
) -> Seq<Seq<char>> {
    seq![
        "-f"@,
        format_selector(quality, mode),
        "-o"@,
        join_path(output_path, "%(title)s.%(ext)s"@),
        "--newline"@,
        "--progress"@,
        "--no-warnings"@,
    ] + mode_arguments(mode) + seq![url]
}

/// `text`, or `fallback` when there is none.
pub open spec fn or_text(text: Option<Seq<char>>, fallback: Seq<char>) -> Seq<char> {
    match text {
        Some(t) => t,
        None => fallback,
    }
}

/// The text between the first and the last double quote of `line`, when there are two.
pub open spec fn quoted(line: Seq<char>) -> Option<Seq<char>> {
    let first = first_occurrence(line, seq!['"']);
    let last = last_index(line, '"');
    if 0 <= first < last {
        Some(line.subrange(first + 1, last))
    } else {
        None
    }
}

/// The file that a line names as already downloaded: what stands between
/// the first `"] "` and the following `" has already"`.
pub open spec fn already_downloaded(line: Seq<char>) -> Option<Seq<char>> {
    let bracket = first_occurrence(line, seq!['[']);
    let start = first_occurrence(line, "] "@);
    if bracket < 0 || start < 0 {
        None
    } else {
        let rest = line.skip(start + 2);
        let end = first_occurrence(rest, " has already"@);
        if end < 0 {
            None
        } else {
            Some(rest.take(end))
        }
    }
}

/// What an output line of a download says.
#[derive(Debug, Clone, PartialEq, Eq)]
pub enum DownloadLine {
    /// Progress: the line is for [`crate::youtube::parse_ytdlp_progress`].
    Progress,
    /// The file that the download ends in.
    OutputPath(String),
    /// Nothing of interest.
    Other,
}

/// View of [`DownloadLine`].
pub enum DownloadLineView {
    Progress,
    OutputPath(Seq<char>),
    Other,
}

impl View for DownloadLine {
    type V = DownloadLineView;

    open spec fn view(&self) -> DownloadLineView {
        match self {
            DownloadLine::Progress => DownloadLineView::Progress,
            DownloadLine::OutputPath(p) => DownloadLineView::OutputPath(p@),
            DownloadLine::Other => DownloadLineView::Other,
        }
    }
}

/// What `line` says: progress, when it is a download line with a percent
/// sign; else the destination, the merged file or the file already there,
/// whichever kind of line it is, when the line names one.
pub open spec fn line_meaning(line: Seq<char>) -> DownloadLineView {
    let named = if has(line, "[download]"@) && has(line, "%"@) {
        None
    } else if has(line, "[download] Destination:"@) {
        match after_mark(line, "Destination:"@) {
            Some(piece) => Some(trimmed(piece)),
            None => None,
        }
    } else if has(line, "[Merger] Merging formats into"@) {
        quoted(line)
    } else if has(line, "has already been downloaded"@) {
        already_downloaded(line)
    } else {
        None
    };
    if has(line, "[download]"@) && has(line, "%"@) {
        DownloadLineView::Progress
    } else {
        match named {
            Some(path) => DownloadLineView::OutputPath(path),
            None => DownloadLineView::Other,
        }
    }
}

fn height_of(quality: &str) -> (r: Option<&'static str>)
    ensures
        match r {
            Some(h) => height_limit(quality@) == Some(h@),
            None => height_limit(quality@) is None,
        },
{
    if str_eq(quality, "4k") {
        Some("2160")
    } else if str_eq(quality, "1080p") {
        Some("1080")
    } else if str_eq(quality, "720p") {
        Some("720")
    } else if str_eq(quality, "480p") {
        Some("480")
    } else if str_eq(quality, "360p") {
        Some("360")
    } else {
        None
    }
}

/// The format selector for a quality and a mode.
pub fn build_format_selector(quality: &str, mode: &str) -> (r: String)
    ensures
        r@ == format_selector(quality@, mode@),
{
    if str_eq(mode, "audio_only") {
        String::from_str("bestaudio[ext=m4a]/bestaudio/best")
    } else if str_eq(mode, "video_only") {
        match height_of(quality) {
            Some(h) => {
                let mut out = String::from_str("bestvideo[height<=");
                out.append(h);
                out.append("]/best[height<=");
                out.append(h);
                out.append("]/bestvideo/best");
                out
            },
            None => String::from_str("bestvideo/best"),
        }
    } else {
        match height_of(quality) {
            Some(h) => {
                let mut out = String::from_str("bestvideo[height<=");
                out.append(h);
                out.append("]+bestaudio/best[height<=");
                out.append(h);
                out.append("]/bestvideo+bestaudio/best");
                out
            },
            None => String::from_str("bestvideo+bestaudio/best"),
        }
    }
}

/// The arguments of the run that describes the video at `url`.
pub fn video_info_arguments(url: &str) -> (r: Vec<String>)
    ensures
        r.deep_view() == info_arguments(url@),
{
    let mut args: Vec<String> = Vec::new();
    assert(args.deep_view() =~= Seq::<Seq<char>>::empty());
    push_text(&mut args, "--dump-json");
    push_text(&mut args, "--no-download");
    push_text(&mut args, "--no-warnings");
    push_text(&mut args, "--socket-timeout");
    push_text(&mut args, "10");
    push_text(&mut args, url);
    assert(args.deep_view() =~= info_arguments(url@));
    args
}

/// The arguments of the run that downloads the video at `url` into `output_path`.
pub fn video_download_arguments(url: &str, output_path: &str, options: &YouTubeDownloadOptions) -> (r:
    Vec<String>)
    ensures
        r.deep_view() == download_arguments(url@, output_path@, options.quality@, options.mode@),
{
    let selector = build_format_selector(options.quality.as_str(), options.mode.as_str());
    let template = join(output_path, "%(title)s.%(ext)s");
    let mut args: Vec<String> = Vec::new();
    assert(args.deep_view() =~= Seq::<Seq<char>>::empty());
    push_text(&mut args, "-f");
    push_text(&mut args, selector.as_str());
    push_text(&mut args, "-o");
    push_text(&mut args, template.as_str());
    push_text(&mut args, "--newline");
    push_text(&mut args, "--progress");
    push_text(&mut args, "--no-warnings");
    if str_eq(options.mode.as_str(), "video_audio") {
        push_text(&mut args, "--merge-output-format");
        push_text(&mut args, "mp4");
    } else if str_eq(options.mode.as_str(), "audio_only") {
        push_text(&mut args, "-x");
        push_text(&mut args, "--audio-format");
        push_text(&mut args, "mp3");
    }
    push_text(&mut args, url);
    assert(args.deep_view() =~= download_arguments(
        url@,
        output_path@,
        options.quality@,
        options.mode@,
    ));
    args
}

fn text_or(text: Option<String>, fallback: &str) -> (r: String)
    ensures
        r@ == or_text(text.deep_view(), fallback@),
{
    match text {
        Some(t) => t,
        None => String::from_str(fallback),
    }
}

/// What is known of the video at `url`, from the fields of its
/// description: a missing title or channel reads `Unknown`, the uploader
/// stands in for a missing channel, a missing thumbnail is empty and a
/// missing duration is zero.
pub fn video_info(
    url: String,
    title: Option<String>,
    thumbnail: Option<String>,
    duration: Option<u64>,
    channel: Option<String>,
    uploader: Option<String>,
) -> (r: YouTubeVideoInfo)
    ensures
        r.url@ == url@,
        r.title@ == or_text(title.deep_view(), "Unknown"@),
        r.thumbnail@ == or_text(thumbnail.deep_view(), ""@),
        r.duration == match duration {
            Some(d) => d,
            None => 0,
        },
        r.channel@ == match channel {
            Some(c) => c@,
            None => or_text(uploader.deep_view(), "Unknown"@),
        },
        r.is_valid,
{
    let channel = match channel {
        Some(c) => c,
        None => text_or(uploader, "Unknown"),
    };
    YouTubeVideoInfo {
        url,
        title: text_or(title, "Unknown"),
        thumbnail: text_or(thumbnail, ""),
        duration: match duration {
            Some(d) => d,
            None => 0,
        },
        channel,
        is_valid: true,
    }
}

fn quoted_piece(line: &str) -> (r: Option<String>)
    ensures
        r.deep_view() == quoted(line@),
{
    proof {
        reveal_strlit("\"");
    }
    assert("\""@ =~= seq!['"']);
    let x = to_chars(line);
    let n = x.len();
    let mut last: usize = n;
    while last > 0 && x[last - 1] != '"'
        invariant
            last <= n,
            n == x.len(),
            x@ == line@,
            crate::text::last_index_upto(line@, '"', last as int) == last_index(line@, '"'),
        decreases last,
    {
        last = last - 1;
    }
    match find(line, "\"") {
        None => None,
        Some(first) => {
            proof {
                crate::scan::lemma_first_occurrence_from(line@, seq!['"'], 0);
            }
            if last > 0 && first < last - 1 {
                Some(slice_to_string(line, first + 1, last - 1))
            } else {
                None
            }
        },
    }
}

fn already_there(line: &str) -> (r: Option<String>)
    ensures
        r.deep_view() == already_downloaded(line@),
{
    proof {
        reveal_strlit("[");
        reveal_strlit("] ");
    }
    assert("["@ =~= seq!['[']);
    if find(line, "[").is_none() {
        return None;
    }
    match find(line, "] ") {
        None => None,
        Some(start) => {
            proof {
                crate::scan::lemma_first_occurrence_from(line@, "] "@, 0);
            }
            let n = line.unicode_len();
            let rest = slice_to_string(line, start + 2, n);
            match find(rest.as_str(), " has already") {
                None => None,
                Some(end) => {
                    proof {
                        crate::scan::lemma_first_occurrence_from(rest@, " has already"@, 0);
                    }
                    Some(slice_to_string(rest.as_str(), 0, end))
                },
            }
        },
    }
}

/// The fields of a progress line, such as
/// `[download]  45.2% of 245.60MiB at 5.23MiB/s ETA 02:15`.
#[derive(Debug, Clone)]
pub struct ProgressFields {
    /// The number before the percent sign, as text.
    pub percent: Option<String>,
    pub file_size: Option<String>,
    pub download_speed: Option<String>,
    pub eta: Option<String>,
}

/// View of [`ProgressFields`].
pub struct ProgressFieldsView {
    pub percent: Option<Seq<char>>,
    pub file_size: Option<Seq<char>>,
    pub download_speed: Option<Seq<char>>,
    pub eta: Option<Seq<char>>,
}

impl View for ProgressFields {
    type V = ProgressFieldsView;

    open spec fn view(&self) -> ProgressFieldsView {
        ProgressFieldsView {
            percent: self.percent.deep_view(),
            file_size: self.file_size.deep_view(),
            download_speed: self.download_speed.deep_view(),
            eta: self.eta.deep_view(),
        }
    }
}

/// Index of the first white space at or after `from`; `s.len()` when there is none.
pub open spec fn first_space_from(s: Seq<char>, from: int) -> int
    decreases s.len() - from,
{
    if from < 0 || from >= s.len() {
        s.len() as int
    } else if crate::scan::is_white_space(s[from]) {
        from
    } else {
        first_space_from(s, from + 1)
    }
}

/// End of the last white space before `upto`; `0` when there is none.
pub open spec fn after_last_space_upto(s: Seq<char>, upto: int) -> int
    decreases upto,
{
    if upto <= 0 || upto > s.len() {
        0
    } else if crate::scan::is_white_space(s[upto - 1]) {
        upto
    } else {
        after_last_space_upto(s, upto - 1)
    }
}

/// The number before the first percent sign: what stands between the last
/// white space before the sign and the sign.
pub open spec fn percent_field(line: Seq<char>) -> Option<Seq<char>> {
    let sign = first_occurrence(line, "%"@);
    if sign < 0 {
        None
    } else {
        Some(trimmed(line.subrange(after_last_space_upto(line, sign), sign)))
    }
}

/// The piece of `line` after the first `open` and before the `close` that follows.
pub open spec fn between(line: Seq<char>, open: Seq<char>, close: Seq<char>) -> Option<Seq<char>> {
    let at = first_occurrence(line, open);
    if at < 0 {
        None
    } else {
        let rest = line.skip(at + open.len());
        let end = first_occurrence(rest, close);
        if end < 0 {
            None
        } else {
            Some(trimmed(rest.take(end)))
        }
    }
}

/// The speed: what follows the first `" at "`, up to `" ETA "`, or up to the
/// next white space when no time is given.
pub open spec fn speed_field(line: Seq<char>) -> Option<Seq<char>> {
    let at = first_occurrence(line, " at "@);
    if at < 0 {
        None
    } else {
        let rest = line.skip(at + 4);
        let end = first_occurrence(rest, " ETA "@);
        if end < 0 {
            Some(trimmed(rest.take(first_space_from(rest, 0))))
        } else {
            Some(trimmed(rest.take(end)))
        }
    }
}

/// The time left: what follows the first `" ETA "`.
pub open spec fn eta_field(line: Seq<char>) -> Option<Seq<char>> {
    let at = first_occurrence(line, " ETA "@);
    if at < 0 {
        None
    } else {
        Some(trimmed(line.skip(at + 5)))
    }
}

/// The fields of a progress line.
pub open spec fn progress_fields(line: Seq<char>) -> ProgressFieldsView {
    ProgressFieldsView {
        percent: percent_field(line),
        file_size: between(line, " of "@, " at "@),
        download_speed: speed_field(line),
        eta: eta_field(line),
    }
}

fn read_percent(line: &str) -> (r: Option<String>)
    ensures
        r.deep_view() == percent_field(line@),
{
    match find(line, "%") {
        None => None,
        Some(sign) => {
            proof {
                crate::scan::lemma_first_occurrence_from(line@, "%"@, 0);
            }
            let x = to_chars(line);
            let mut start: usize = sign;
            while start > 0 && !crate::scan::is_space(x[start - 1])
                invariant
                    start <= sign <= x.len(),
                    x@ == line@,
                    after_last_space_upto(line@, start as int) == after_last_space_upto(
                        line@,
                        sign as int,
                    ),
                decreases start,
            {
                start = start - 1;
            }
            let piece = slice_to_string(line, start, sign);
            Some(trim(piece.as_str()))
        },
    }
}

fn read_between(line: &str, open: &str, close: &str) -> (r: Option<String>)
    ensures
        r.deep_view() == between(line@, open@, close@),
{
    match find(line, open) {
        None => None,
        Some(at) => {
            proof {
                crate::scan::lemma_first_occurrence_from(line@, open@, 0);
            }
            let n = line.unicode_len();
            let m = open.unicode_len();
            let rest = slice_to_string(line, at + m, n);
            match find(rest.as_str(), close) {
                None => None,
                Some(end) => {
                    proof {
                        crate::scan::lemma_first_occurrence_from(rest@, close@, 0);
                    }
                    let piece = slice_to_string(rest.as_str(), 0, end);
                    Some(trim(piece.as_str()))
                },
            }
        },
    }
}

fn read_speed(line: &str) -> (r: Option<String>)
    ensures
        r.deep_view() == speed_field(line@),
{
    proof {
        reveal_strlit(" at ");
    }
    match find(line, " at ") {
        None => None,
        Some(at) => {
            proof {
                crate::scan::lemma_first_occurrence_from(line@, " at "@, 0);
            }
            let n = line.unicode_len();
            let rest = slice_to_string(line, at + 4, n);
            match find(rest.as_str(), " ETA ") {
                Some(end) => {
                    proof {
                        crate::scan::lemma_first_occurrence_from(rest@, " ETA "@, 0);
                    }
                    let piece = slice_to_string(rest.as_str(), 0, end);
                    Some(trim(piece.as_str()))
                },
                None => {
                    let x = to_chars(rest.as_str());
                    let mut end: usize = 0;
                    while end < x.len() && !crate::scan::is_space(x[end])
                        invariant
                            end <= x.len(),
                            x@ == rest@,
                            first_space_from(rest@, end as int) == first_space_from(rest@, 0),
                        decreases x.len() - end,
                    {
                        end = end + 1;
                    }
                    let piece = slice_to_string(rest.as_str(), 0, end);
                    Some(trim(piece.as_str()))
                },
            }
        },
    }
}

fn read_eta(line: &str) -> (r: Option<String>)
    ensures
        r.deep_view() == eta_field(line@),
{
    proof {
        reveal_strlit(" ETA ");
    }
    match find(line, " ETA ") {
        None => None,
        Some(at) => {
            proof {
                crate::scan::lemma_first_occurrence_from(line@, " ETA "@, 0);
            }
            let n = line.unicode_len();
            let rest = slice_to_string(line, at + 5, n);
            Some(trim(rest.as_str()))
        },
    }
}

/// Reads the fields of a progress line.
pub fn parse_ytdlp_progress(line: &str) -> (r: ProgressFields)
    ensures
        r@ == progress_fields(line@),
{
    ProgressFields {
        percent: read_percent(line),
        file_size: read_between(line, " of ", " at "),
        download_speed: read_speed(line),
        eta: read_eta(line),
    }
}

/// What an output line of a download says.
pub fn read_download_line(line: &str) -> (r: DownloadLine)
    ensures
        r@ == line_meaning(line@),
{
    if crate::scan::contains(line, "[download]") && crate::scan::contains(line, "%") {
        return DownloadLine::Progress;
    }
    let named = if crate::scan::contains(line, "[download] Destination:") {
        match read_after_mark(line, "Destination:") {
            Some(piece) => Some(trim(piece.as_str())),
            None => None,
        }
    } else if crate::scan::contains(line, "[Merger] Merging formats into") {
        quoted_piece(line)
    } else if crate::scan::contains(line, "has already been downloaded") {
        already_there(line)
    } else {
        None
    };
    match named {
        Some(path) => DownloadLine::OutputPath(path),
        None => DownloadLine::Other,
    }
}

} // verus!
