//! Converting media with `ffmpeg`: the arguments of each run, and what the
//! lines it prints say. Times and rates are handed on as text, for the
//! caller to read as numbers; patterns are matched by `regex`.

use crate::number::{decimal, parse_i64, parse_signed, parse_u64, parse_unsigned, u64_to_decimal};
use crate::scan::{
    after_mark, find, has, lemma_first_occurrence_from, lines, pieces, read_after_mark,
    split_char, split_lines, trim, trimmed,
};
use crate::text::{
    after_last, after_last_char, push_text, slice_to_string, starts_with, str_eq, to_chars,
};
use crate::unicode::{lowercase, to_lowercase};
use vstd::prelude::*;
use vstd::string::*;

verus! {

/// How to convert a video.
#[derive(Debug, Clone)]
pub struct VideoConvertOptions {
    /// `"4K"`, `"1080p"`, `"720p"`, `"480p"`, or anything else to keep the resolution.
    pub resolution: String,
    /// `"60 fps"`, `"30 fps"`, `"24 fps"`, or anything else to keep the rate.
    pub frame_rate: String,
    /// `"H.264"`, `"H.265"`, `"VP9"`, `"AV1"`, or anything else for the default.
    pub codec: String,
    pub keep_audio: bool,
    /// In kilobits per second; `0` leaves the choice to the encoder.
    pub bitrate: u32,
}

/// View of [`VideoConvertOptions`].
pub struct ConvertOptionsView {
    pub resolution: Seq<char>,
    pub frame_rate: Seq<char>,
    pub codec: Seq<char>,
    pub keep_audio: bool,
    pub bitrate: u32,
}

impl View for VideoConvertOptions {
    type V = ConvertOptionsView;

    open spec fn view(&self) -> ConvertOptionsView {
        ConvertOptionsView {
            resolution: self.resolution@,
            frame_rate: self.frame_rate@,
            codec: self.codec@,
            keep_audio: self.keep_audio,
            bitrate: self.bitrate,
        }
    }
}

/// The palette filter that makes a GIF look good.
pub open spec fn palette_filter() -> Seq<char> {
    "split[s0][s1];[s0]palettegen=stats_mode=diff[p];[s1][p]paletteuse=dither=bayer:bayer_scale=5"@
}

/// The arguments of a plain conversion.
pub open spec fn media_arguments(input: Seq<char>, output: Seq<char>) -> Seq<Seq<char>> {
    seq!["-i"@, input, "-y"@, "-progress"@, "pipe:1"@, "-nostats"@, output]
}

/// The arguments of the run that describes a file.
pub open spec fn probe_arguments(input: Seq<char>) -> Seq<Seq<char>> {
    seq!["-i"@, input]
}

/// The filter that scales to a resolution, when one is asked for.
pub open spec fn scale_filters(resolution: Seq<char>) -> Seq<Seq<char>> {
    if resolution == "4K"@ {
        seq!["scale=3840:-2"@]
    } else if resolution == "1080p"@ {
        seq!["scale=1920:-2"@]
    } else if resolution == "720p"@ {
        seq!["scale=1280:-2"@]
    } else if resolution == "480p"@ {
        seq!["scale=854:-2"@]
    } else {
        Seq::empty()
    }
}

/// The frames per second of a GIF: at most 30 when a rate is asked for, and
/// else chosen by the bitrate, which stands for the quality.
pub open spec fn gif_rate(frame_rate: Seq<char>, bitrate: u32) -> Seq<char> {
    if frame_rate != "Keep Original"@ {
        if frame_rate == "60 fps"@ || frame_rate == "30 fps"@ {
            "30"@
        } else if frame_rate == "24 fps"@ {
            "24"@
        } else {
            "15"@
        }
    } else if bitrate == 0 || bitrate >= 8000 {
        "24"@
    } else if bitrate >= 4000 {
        "15"@
    } else if bitrate >= 2000 {
        "12"@
    } else {
        "10"@
    }
}

/// The arguments that choose the video codec.
pub open spec fn codec_arguments(codec: Seq<char>) -> Seq<Seq<char>> {
    if codec == "H.264"@ {
        seq!["-c:v"@, "libx264"@]
    } else if codec == "H.265"@ {
        seq!["-c:v"@, "libx265"@]
    } else if codec == "VP9"@ {
        seq!["-c:v"@, "libvpx-vp9"@]
    } else if codec == "AV1"@ {
        seq!["-c:v"@, "libaom-av1"@, "-cpu-used"@, "4"@]
    } else {
        Seq::empty()
    }
}

/// The arguments that set the frame rate.
pub open spec fn rate_arguments(frame_rate: Seq<char>) -> Seq<Seq<char>> {
    if frame_rate == "60 fps"@ {
        seq!["-r"@, "60"@]
    } else if frame_rate == "30 fps"@ {
        seq!["-r"@, "30"@]
    } else if frame_rate == "24 fps"@ {
        seq!["-r"@, "24"@]
    } else {
        Seq::empty()
    }
}

/// The texts joined with `sep` between them.
pub open spec fn joined(parts: Seq<Seq<char>>, sep: Seq<char>) -> Seq<char>
    decreases parts.len(),
{
    if parts.len() == 0 {
        Seq::empty()
    } else if parts.len() == 1 {
        parts[0]
    } else {
        joined(parts.drop_last(), sep) + sep + parts.last()
    }
}

/// The filters of a GIF, joined with commas: the scaling, the rate and the palette.
pub open spec fn gif_filter_text(options: ConvertOptionsView) -> Seq<char> {
    joined(
        scale_filters(options.resolution).push(
            "fps="@ + gif_rate(options.frame_rate, options.bitrate),
        ).push(palette_filter()),
        ","@,
    )
}

/// The arguments that encode a GIF: its filters, no sound, and looping for ever.
pub open spec fn gif_arguments(options: ConvertOptionsView) -> Seq<Seq<char>> {
    seq!["-vf"@, gif_filter_text(options), "-an"@, "-loop"@, "0"@]
}

/// The arguments that scale, when a resolution is asked for.
pub open spec fn filter_arguments(resolution: Seq<char>) -> Seq<Seq<char>> {
    if scale_filters(resolution).len() > 0 {
        seq!["-vf"@, joined(scale_filters(resolution), ","@)]
    } else {
        Seq::empty()
    }
}

/// The arguments that set the bitrate, when one is asked for.
pub open spec fn bitrate_arguments(bitrate: u32) -> Seq<Seq<char>> {
    if bitrate > 0 {
        seq!["-b:v"@, decimal(bitrate as nat) + "k"@]
    } else {
        Seq::empty()
    }
}

/// The arguments that keep the sound, in the codec that goes with the container, or drop it.
pub open spec fn audio_arguments(keep_audio: bool, webm: bool) -> Seq<Seq<char>> {
    if !keep_audio {
        seq!["-an"@]
    } else if webm {
        seq!["-c:a"@, "libopus"@, "-b:a"@, "128k"@]
    } else {
        seq!["-c:a"@, "aac"@, "-b:a"@, "128k"@]
    }
}

/// The arguments that choose the video codec: VP9 for WebM, else the one asked for.
pub open spec fn container_codec_arguments(codec: Seq<char>, webm: bool) -> Seq<Seq<char>> {
    if webm {
        seq!["-c:v"@, "libvpx-vp9"@]
    } else {
        codec_arguments(codec)
    }
}

/// The arguments that encode a video other than a GIF.
pub open spec fn plain_arguments(options: ConvertOptionsView, webm: bool) -> Seq<Seq<char>> {
    container_codec_arguments(options.codec, webm) + filter_arguments(options.resolution)
        + rate_arguments(options.frame_rate) + bitrate_arguments(options.bitrate)
        + audio_arguments(options.keep_audio, webm)
}

/// The arguments that say how to encode, for an output whose extension in
/// lower case is `extension`. A GIF gets its rate and palette and no sound;
/// anything else gets a codec (VP9 for WebM), the scaling, the rate, the
/// bitrate and the sound that were asked for.
pub open spec fn encoding_arguments(options: ConvertOptionsView, extension: Seq<char>) -> Seq<
    Seq<char>,
> {
    if extension == "gif"@ {
        gif_arguments(options)
    } else {
        plain_arguments(options, extension == "webm"@)
    }
}

/// The arguments of a video conversion.
pub open spec fn video_arguments(
    input: Seq<char>,
    output: Seq<char>,
    options: ConvertOptionsView,
    extension: Seq<char>,
) -> Seq<Seq<char>> {
    seq!["-i"@, input, "-y"@] + encoding_arguments(options, extension) + seq![
        "-progress"@,
        "pipe:1"@,
        "-nostats"@,
        output,
    ]
}

/// A time that `ffmpeg` reports.
#[derive(Debug, Clone, PartialEq, Eq)]
pub enum ProgressTime {
    /// In microseconds.
    Micros(i64),
    /// As hours, minutes and seconds, each as text.
    Clock { hours: String, minutes: String, seconds: String },
}

/// View of [`ProgressTime`].
pub enum ProgressTimeView {
    Micros(i64),
    Clock { hours: Seq<char>, minutes: Seq<char>, seconds: Seq<char> },
}

impl View for ProgressTime {
    type V = ProgressTimeView;

    open spec fn view(&self) -> ProgressTimeView {
        match self {
            ProgressTime::Micros(n) => ProgressTimeView::Micros(*n),
            ProgressTime::Clock { hours, minutes, seconds } => ProgressTimeView::Clock {
                hours: hours@,
                minutes: minutes@,
                seconds: seconds@,
            },
        }
    }
}

impl DeepView for ProgressTime {
    type V = ProgressTimeView;

    open spec fn deep_view(&self) -> ProgressTimeView {
        self@
    }
}

/// The clock time that `text` spells, when colons part it into exactly three pieces.
pub open spec fn clock_of(text: Seq<char>) -> Option<ProgressTimeView> {
    let parts = pieces(text, ':');
    if parts.len() == 3 {
        Some(ProgressTimeView::Clock { hours: parts[0], minutes: parts[1], seconds: parts[2] })
    } else {
        None
    }
}

/// The time that a progress line reports: the number after
/// `out_time_ms=`, or the clock time after `out_time=`.
pub open spec fn progress_time(line: Seq<char>) -> Option<ProgressTimeView> {
    if "out_time_ms="@.is_prefix_of(line) {
        match parse_signed(line.skip(12)) {
            Some(n) => Some(ProgressTimeView::Micros(n as i64)),
            None => None,
        }
    } else if "out_time="@.is_prefix_of(line) {
        clock_of(line.skip(9))
    } else {
        None
    }
}

/// The duration that a line such as `  Duration: 00:01:23.45, start: 0.0`
/// gives: what stands after the first `Duration:`, up to the next
/// `Duration:` and up to the first comma, trimmed and read as a clock time.
pub open spec fn duration_in(line: Seq<char>) -> Option<ProgressTimeView> {
    match after_mark(line, "Duration:"@) {
        Some(rest) => clock_of(trimmed(pieces(rest, ',')[0])),
        None => None,
    }
}

/// The duration that the first line with a full one gives, looking at the lines from `from` on.
pub open spec fn duration_from(all: Seq<Seq<char>>, from: int) -> Option<ProgressTimeView>
    decreases all.len() - from,
{
    if from < 0 || from >= all.len() {
        None
    } else {
        match duration_in(all[from]) {
            Some(time) => Some(time),
            None => duration_from(all, from + 1),
        }
    }
}

/// The duration that the first line with `Duration:` gives, looking at the lines from `from` on.
pub open spec fn first_duration_from(all: Seq<Seq<char>>, from: int) -> Option<ProgressTimeView>
    decreases all.len() - from,
{
    if from < 0 || from >= all.len() {
        None
    } else if has(all[from], "Duration:"@) {
        duration_in(all[from])
    } else {
        first_duration_from(all, from + 1)
    }
}

/// The progress to report, in steps of ten: `progress` rounded down to a
/// multiple of ten, when that is above what was reported last.
pub open spec fn progress_step(progress: i32, last: i32) -> Option<i32> {
    let rounded = if progress >= 0 {
        (progress / 10) * 10
    } else {
        -((-progress / 10) * 10)
    };
    if rounded > last {
        Some(rounded as i32)
    } else {
        None
    }
}

/// The arguments of a plain conversion of `input` into `output`.
pub fn conversion_arguments(input: &str, output: &str) -> (r: Vec<String>)
    ensures
        r.deep_view() == media_arguments(input@, output@),
{
    let mut args: Vec<String> = Vec::new();
    assert(args.deep_view() =~= Seq::<Seq<char>>::empty());
    push_text(&mut args, "-i");
    push_text(&mut args, input);
    push_text(&mut args, "-y");
    push_text(&mut args, "-progress");
    push_text(&mut args, "pipe:1");
    push_text(&mut args, "-nostats");
    push_text(&mut args, output);
    assert(args.deep_view() =~= media_arguments(input@, output@));
    args
}

/// The arguments of the run that describes `input`.
pub fn description_arguments(input: &str) -> (r: Vec<String>)
    ensures
        r.deep_view() == probe_arguments(input@),
{
    let mut args: Vec<String> = Vec::new();
    assert(args.deep_view() =~= Seq::<Seq<char>>::empty());
    push_text(&mut args, "-i");
    push_text(&mut args, input);
    assert(args.deep_view() =~= probe_arguments(input@));
    args
}

fn scale_filter(resolution: &str) -> (r: Option<&'static str>)
    ensures
        match r {
            Some(f) => scale_filters(resolution@) == seq![f@],
            None => scale_filters(resolution@) == Seq::<Seq<char>>::empty(),
        },
{
    if str_eq(resolution, "4K") {
        Some("scale=3840:-2")
    } else if str_eq(resolution, "1080p") {
        Some("scale=1920:-2")
    } else if str_eq(resolution, "720p") {
        Some("scale=1280:-2")
    } else if str_eq(resolution, "480p") {
        Some("scale=854:-2")
    } else {
        None
    }
}

fn gif_rate_of(frame_rate: &str, bitrate: u32) -> (r: &'static str)
    ensures
        r@ == gif_rate(frame_rate@, bitrate),
{
    if !str_eq(frame_rate, "Keep Original") {
        if str_eq(frame_rate, "60 fps") || str_eq(frame_rate, "30 fps") {
            "30"
        } else if str_eq(frame_rate, "24 fps") {
            "24"
        } else {
            "15"
        }
    } else if bitrate == 0 || bitrate >= 8000 {
        "24"
    } else if bitrate >= 4000 {
        "15"
    } else if bitrate >= 2000 {
        "12"
    } else {
        "10"
    }
}

fn push_codec(args: &mut Vec<String>, codec: &str)
    ensures
        final(args).deep_view() == old(args).deep_view() + codec_arguments(codec@),
{
    let ghost before = args.deep_view();
    if str_eq(codec, "H.264") {
        push_text(args, "-c:v");
        push_text(args, "libx264");
    } else if str_eq(codec, "H.265") {
        push_text(args, "-c:v");
        push_text(args, "libx265");
    } else if str_eq(codec, "VP9") {
        push_text(args, "-c:v");
        push_text(args, "libvpx-vp9");
    } else if str_eq(codec, "AV1") {
        push_text(args, "-c:v");
        push_text(args, "libaom-av1");
        push_text(args, "-cpu-used");
        push_text(args, "4");
    }
    assert(args.deep_view() =~= before + codec_arguments(codec@));
}

fn push_rate(args: &mut Vec<String>, frame_rate: &str)
    ensures
        final(args).deep_view() == old(args).deep_view() + rate_arguments(frame_rate@),
{
    let ghost before = args.deep_view();
    if str_eq(frame_rate, "60 fps") {
        push_text(args, "-r");
        push_text(args, "60");
    } else if str_eq(frame_rate, "30 fps") {
        push_text(args, "-r");
        push_text(args, "30");
    } else if str_eq(frame_rate, "24 fps") {
        push_text(args, "-r");
        push_text(args, "24");
    }
    assert(args.deep_view() =~= before + rate_arguments(frame_rate@));
}

fn gif_filters(options: &VideoConvertOptions) -> (r: String)
    ensures
        r@ == gif_filter_text(options@),
{
    let mut filters = String::new();
    match scale_filter(options.resolution.as_str()) {
        Some(f) => {
            filters.append(f);
            filters.append(",");
        },
        None => {},
    }
    filters.append("fps=");
    filters.append(gif_rate_of(options.frame_rate.as_str(), options.bitrate));
    filters.append(",");
    filters.append(
        "split[s0][s1];[s0]palettegen=stats_mode=diff[p];[s1][p]paletteuse=dither=bayer:bayer_scale=5",
    );
    proof {
        let rate = "fps="@ + gif_rate(options.frame_rate@, options.bitrate);
        let scale = scale_filters(options.resolution@);
        let all = scale.push(rate).push(palette_filter());
        assert(all.drop_last() =~= scale.push(rate));
        assert(all.drop_last().drop_last() =~= scale);
        assert(all.last() == palette_filter());
        assert(all.drop_last().last() == rate);
        if scale.len() == 0 {
            assert(joined(all.drop_last(), ","@) == rate);
            assert(filters@ =~= rate + ","@ + palette_filter());
        } else {
            assert(scale.len() == 1);
            assert(joined(scale, ","@) == scale[0]);
            assert(joined(all.drop_last(), ","@) == scale[0] + ","@ + rate);
            assert(filters@ =~= scale[0] + ","@ + rate + ","@ + palette_filter());
        }
    }
    filters
}

fn push_gif(args: &mut Vec<String>, options: &VideoConvertOptions)
    ensures
        final(args).deep_view() == old(args).deep_view() + gif_arguments(options@),
{
    let ghost before = args.deep_view();
    let filters = gif_filters(options);
    push_text(args, "-vf");
    push_text(args, filters.as_str());
    push_text(args, "-an");
    push_text(args, "-loop");
    push_text(args, "0");
    assert(args.deep_view() =~= before + gif_arguments(options@));
}

fn push_filter(args: &mut Vec<String>, resolution: &str)
    ensures
        final(args).deep_view() == old(args).deep_view() + filter_arguments(resolution@),
{
    let ghost before = args.deep_view();
    match scale_filter(resolution) {
        Some(f) => {
            push_text(args, "-vf");
            push_text(args, f);
        },
        None => {},
    }
    assert(args.deep_view() =~= before + filter_arguments(resolution@));
}

fn push_bitrate(args: &mut Vec<String>, bitrate: u32)
    ensures
        final(args).deep_view() == old(args).deep_view() + bitrate_arguments(bitrate),
{
    let ghost before = args.deep_view();
    if bitrate > 0 {
        let mut rate = u64_to_decimal(bitrate as u64);
        rate.append("k");
        push_text(args, "-b:v");
        push_text(args, rate.as_str());
    }
    assert(args.deep_view() =~= before + bitrate_arguments(bitrate));
}

fn push_audio(args: &mut Vec<String>, keep_audio: bool, webm: bool)
    ensures
        final(args).deep_view() == old(args).deep_view() + audio_arguments(keep_audio, webm),
{
    let ghost before = args.deep_view();
    if !keep_audio {
        push_text(args, "-an");
    } else {
        push_text(args, "-c:a");
        if webm {
            push_text(args, "libopus");
        } else {
            push_text(args, "aac");
        }
        push_text(args, "-b:a");
        push_text(args, "128k");
    }
    assert(args.deep_view() =~= before + audio_arguments(keep_audio, webm));
}

fn push_container_codec(args: &mut Vec<String>, codec: &str, webm: bool)
    ensures
        final(args).deep_view() == old(args).deep_view() + container_codec_arguments(
            codec@,
            webm,
        ),
{
    let ghost before = args.deep_view();
    if webm {
        push_text(args, "-c:v");
        push_text(args, "libvpx-vp9");
        assert(args.deep_view() =~= before + container_codec_arguments(codec@, webm));
    } else {
        push_codec(args, codec);
    }
}

fn push_plain(args: &mut Vec<String>, options: &VideoConvertOptions, webm: bool)
    ensures
        final(args).deep_view() == old(args).deep_view() + plain_arguments(options@, webm),
{
    let ghost before = args.deep_view();
    push_container_codec(args, options.codec.as_str(), webm);
    push_filter(args, options.resolution.as_str());
    push_rate(args, options.frame_rate.as_str());
    push_bitrate(args, options.bitrate);
    push_audio(args, options.keep_audio, webm);
    assert(args.deep_view() =~= before + plain_arguments(options@, webm));
}

fn push_encoding(args: &mut Vec<String>, options: &VideoConvertOptions, extension: &str)
    ensures
        final(args).deep_view() == old(args).deep_view() + encoding_arguments(
            options@,
            extension@,
        ),
{
    if str_eq(extension, "gif") {
        push_gif(args, options);
    } else {
        push_plain(args, options, str_eq(extension, "webm"));
    }
}

/// The arguments of a conversion of the video `input` into `output`, whose
/// extension in lower case is `extension`.
pub fn video_arguments_for(
    input: &str,
    output: &str,
    options: &VideoConvertOptions,
    extension: &str,
) -> (r: Vec<String>)
    ensures
        r.deep_view() == video_arguments(input@, output@, options@, extension@),
{
    let mut args: Vec<String> = Vec::new();
    assert(args.deep_view() =~= Seq::<Seq<char>>::empty());
    push_text(&mut args, "-i");
    push_text(&mut args, input);
    push_text(&mut args, "-y");
    push_encoding(&mut args, options, extension);
    push_text(&mut args, "-progress");
    push_text(&mut args, "pipe:1");
    push_text(&mut args, "-nostats");
    push_text(&mut args, output);
    assert(args.deep_view() =~= video_arguments(input@, output@, options@, extension@));
    args
}

/// The arguments of a conversion of the video `input` into `output`: the
/// kind of output is told by what follows the last dot of its name,
/// whatever its case.
pub fn video_conversion_arguments(input: &str, output: &str, options: &VideoConvertOptions) -> (r:
    Vec<String>)
    ensures
        r.deep_view() == video_arguments(
            input@,
            output@,
            options@,
            lowercase(after_last(output@, '.')),
        ),
{
    let tail = after_last_char(output, '.');
    let extension = to_lowercase(tail.as_str());
    video_arguments_for(input, output, options, extension.as_str())
}

fn read_clock(text: &str) -> (r: Option<ProgressTime>)
    ensures
        r.deep_view() == clock_of(text@),
{
    let parts = split_char(text, ':');
    if parts.len() == 3 {
        assert(parts.deep_view()[0] == parts@[0]@);
        assert(parts.deep_view()[1] == parts@[1]@);
        assert(parts.deep_view()[2] == parts@[2]@);
        Some(
            ProgressTime::Clock {
                hours: parts[0].clone(),
                minutes: parts[1].clone(),
                seconds: parts[2].clone(),
            },
        )
    } else {
        None
    }
}

/// The time that a progress line reports.
pub fn parse_time_from_progress(line: &str) -> (r: Option<ProgressTime>)
    ensures
        r.deep_view() == progress_time(line@),
{
    proof {
        reveal_strlit("out_time_ms=");
        reveal_strlit("out_time=");
    }
    let n = line.unicode_len();
    if starts_with(line, "out_time_ms=") {
        let rest = slice_to_string(line, 12, n);
        assert(rest@ =~= line@.skip(12));
        match parse_i64(rest.as_str()) {
            Some(micros) => Some(ProgressTime::Micros(micros)),
            None => None,
        }
    } else if starts_with(line, "out_time=") {
        let rest = slice_to_string(line, 9, n);
        assert(rest@ =~= line@.skip(9));
        read_clock(rest.as_str())
    } else {
        None
    }
}

/// The duration that a line gives.
pub fn read_duration(line: &str) -> (r: Option<ProgressTime>)
    ensures
        r.deep_view() == duration_in(line@),
{
    match find(line, "Duration:") {
        None => None,
        Some(at) => {
            proof {
                lemma_first_occurrence_from(line@, "Duration:"@, 0);
            }
            let n = line.unicode_len();
            let m = "Duration:".unicode_len();
            let rest = slice_to_string(line, at + m, n);
            let piece = match find(rest.as_str(), "Duration:") {
                None => rest,
                Some(next) => {
                    proof {
                        lemma_first_occurrence_from(rest@, "Duration:"@, 0);
                    }
                    slice_to_string(rest.as_str(), 0, next)
                },
            };
            let fields = split_char(piece.as_str(), ',');
            proof {
                lemma_pieces_nonempty(piece@, ',', 0, 0);
            }
            assert(fields.deep_view()[0] == fields@[0]@);
            let first = trim(fields[0].as_str());
            read_clock(first.as_str())
        },
    }
}

/// There is always a first piece.
pub proof fn lemma_pieces_nonempty(s: Seq<char>, sep: char, i: int, start: int)
    ensures
        crate::scan::pieces_from(s, sep, i, start).len() > 0,
    decreases s.len() - i,
{
    if 0 <= i < s.len() && s[i] != sep {
        lemma_pieces_nonempty(s, sep, i + 1, start);
    }
}

/// The duration of a file, from what `ffmpeg` printed about it: the one
/// that the first line with a full duration gives.
pub fn get_media_duration(printed: &str) -> (r: Option<ProgressTime>)
    ensures
        r.deep_view() == duration_from(lines(printed@), 0),
{
    let all = split_lines(printed);
    let mut i: usize = 0;
    while i < all.len()
        invariant
            all.deep_view() == lines(printed@),
            duration_from(all.deep_view(), i as int) == duration_from(lines(printed@), 0),
        decreases all.len() - i,
    {
        assert(all.deep_view()[i as int] == all@[i as int]@);
        match read_duration(all[i].as_str()) {
            Some(time) => {
                return Some(time);
            },
            None => {},
        }
        i = i + 1;
    }
    None
}

/// The duration of a video, from what `ffmpeg` printed about it: the one
/// that the first line with `Duration:` gives.
pub fn first_duration(printed: &str) -> (r: Option<ProgressTime>)
    ensures
        r.deep_view() == first_duration_from(lines(printed@), 0),
{
    let all = split_lines(printed);
    let mut i: usize = 0;
    while i < all.len()
        invariant
            all.deep_view() == lines(printed@),
            first_duration_from(all.deep_view(), i as int) == first_duration_from(
                lines(printed@),
                0,
            ),
        decreases all.len() - i,
    {
        assert(all.deep_view()[i as int] == all@[i as int]@);
        if crate::scan::contains(all[i].as_str(), "Duration:") {
            return read_duration(all[i].as_str());
        }
        i = i + 1;
    }
    None
}

/// The groups of the leftmost match of a pattern in a text, as `regex`
/// finds them: the whole match first, then each group of the pattern, with
/// `None` for a group that took no part. `None` when the pattern is not a
/// valid one or matches nowhere.
pub uninterp spec fn captures(pattern: Seq<char>, text: Seq<char>) -> Option<
    Seq<Option<Seq<char>>>,
>;

/// `regex::Regex::new`, then `Regex::captures`: the groups of the leftmost
/// match of `pattern` in `text`, each as the text it matched. The result is
/// a function of the pattern and the text alone.
#[verifier::external_body]
pub(crate) fn regex_captures(pattern: &str, text: &str) -> (r: Option<Vec<Option<String>>>)
    ensures
        r.deep_view() == captures(pattern@, text@),
{
    let compiled = regex::Regex::new(pattern).ok()?;
    let found = compiled.captures(text)?;
    Some(found.iter().map(|group| group.map(|m| m.as_str().to_string())).collect())
}

/// What is known of a video stream.
#[derive(Debug, Clone)]
pub struct StreamInfo {
    pub codec: String,
    pub width: u32,
    pub height: u32,
    /// The frames per second, as text.
    pub frame_rate: Option<String>,
}

/// View of [`StreamInfo`].
pub struct StreamInfoView {
    pub codec: Seq<char>,
    pub width: u32,
    pub height: u32,
    pub frame_rate: Option<Seq<char>>,
}

impl View for StreamInfo {
    type V = StreamInfoView;

    open spec fn view(&self) -> StreamInfoView {
        StreamInfoView {
            codec: self.codec@,
            width: self.width,
            height: self.height,
            frame_rate: self.frame_rate.deep_view(),
        }
    }
}

impl DeepView for StreamInfo {
    type V = StreamInfoView;

    open spec fn deep_view(&self) -> StreamInfoView {
        self@
    }
}

/// The pattern of a resolution, such as `1920x1080`.
pub open spec fn resolution_pattern() -> Seq<char> {
    "(\\d{2,5})x(\\d{2,5})"@
}

/// The pattern of a frame rate, such as `29.97 fps` or `30 tbr`.
pub open spec fn rate_pattern() -> Seq<char> {
    "(\\d+(?:\\.\\d+)?)\\s*(?:fps|tbr)"@
}

/// Index of the first space or comma at or after `from`; `s.len()` when there is none.
pub open spec fn word_end_from(s: Seq<char>, from: int) -> int
    decreases s.len() - from,
{
    if from < 0 || from >= s.len() {
        s.len() as int
    } else if s[from] == ' ' || s[from] == ',' {
        from
    } else {
        word_end_from(s, from + 1)
    }
}

/// Group `i` of a match, when there is a match and the group took part.
pub open spec fn group(groups: Option<Seq<Option<Seq<char>>>>, i: int) -> Option<Seq<char>> {
    match groups {
        Some(found) => if 0 <= i < found.len() {
            found[i]
        } else {
            None
        },
        None => None,
    }
}

/// The number that a text spells, or zero when it spells none that fits.
pub open spec fn number_or_zero(text: Seq<char>) -> u32 {
    match parse_unsigned(text, 10, 0xffff_ffff) {
        Some(n) => n as u32,
        None => 0,
    }
}

/// What is known of the stream that `video_info` describes, when
/// `resolution` and `rate` are the matches of the two patterns in it: the
/// codec is its first word; width and height are the two groups of the
/// resolution, and zero when there is no match.
pub open spec fn stream_info(
    video_info: Seq<char>,
    resolution: Option<Seq<Option<Seq<char>>>>,
    rate: Option<Seq<Option<Seq<char>>>>,
) -> StreamInfoView {
    let both = group(resolution, 1) is Some && group(resolution, 2) is Some;
    StreamInfoView {
        codec: video_info.take(word_end_from(video_info, 0)),
        width: if both {
            number_or_zero(group(resolution, 1)->0)
        } else {
            0
        },
        height: if both {
            number_or_zero(group(resolution, 2)->0)
        } else {
            0
        },
        frame_rate: group(rate, 1),
    }
}

/// What is known of the first video stream among the lines from `from` on:
/// the first line with `Stream` and `Video:` describes it, after its first `Video:`.
pub open spec fn video_stream_from(all: Seq<Seq<char>>, from: int) -> Option<StreamInfoView>
    decreases all.len() - from,
{
    if from < 0 || from >= all.len() {
        None
    } else if has(all[from], "Stream"@) && has(all[from], "Video:"@) {
        match after_mark(all[from], "Video:"@) {
            Some(part) => Some(
                stream_info(
                    trimmed(part),
                    captures(resolution_pattern(), trimmed(part)),
                    captures(rate_pattern(), trimmed(part)),
                ),
            ),
            None => None,
        }
    } else {
        video_stream_from(all, from + 1)
    }
}

fn group_of(groups: &Option<Vec<Option<String>>>, i: usize) -> (r: Option<String>)
    ensures
        r.deep_view() == group(groups.deep_view(), i as int),
{
    match groups {
        Some(found) => {
            if i < found.len() {
                assert(found.deep_view()[i as int] == found@[i as int].deep_view());
                found[i].clone()
            } else {
                None
            }
        },
        None => None,
    }
}

fn to_number_or_zero(text: &str) -> (r: u32)
    ensures
        r == number_or_zero(text@),
{
    match parse_u64(text, 10, 0xffff_ffff) {
        Some(n) => n as u32,
        None => 0,
    }
}

/// What is known of the stream that `video_info` describes, from the
/// matches of the resolution and rate patterns in it.
pub fn stream_info_for(
    video_info: &str,
    resolution: &Option<Vec<Option<String>>>,
    rate: &Option<Vec<Option<String>>>,
) -> (r: StreamInfo)
    ensures
        r@ == stream_info(video_info@, resolution.deep_view(), rate.deep_view()),
{
    let x = to_chars(video_info);
    let mut end: usize = 0;
    while end < x.len() && x[end] != ' ' && x[end] != ','
        invariant
            end <= x.len(),
            x@ == video_info@,
            word_end_from(video_info@, end as int) == word_end_from(video_info@, 0),
        decreases x.len() - end,
    {
        end = end + 1;
    }
    let codec = slice_to_string(video_info, 0, end);
    let (width, height): (u32, u32) = match (group_of(resolution, 1), group_of(resolution, 2)) {
        (Some(w), Some(h)) => (to_number_or_zero(w.as_str()), to_number_or_zero(h.as_str())),
        _ => (0, 0),
    };
    StreamInfo { codec, width, height, frame_rate: group_of(rate, 1) }
}

/// What is known of the first video stream, from what `ffmpeg` printed about a file.
pub fn read_video_stream(printed: &str) -> (r: Option<StreamInfo>)
    ensures
        r.deep_view() == video_stream_from(lines(printed@), 0),
{
    let all = split_lines(printed);
    let mut i: usize = 0;
    while i < all.len()
        invariant
            all.deep_view() == lines(printed@),
            video_stream_from(all.deep_view(), i as int) == video_stream_from(lines(printed@), 0),
        decreases all.len() - i,
    {
        assert(all.deep_view()[i as int] == all@[i as int]@);
        let line = all[i].as_str();
        if crate::scan::contains(line, "Stream") && crate::scan::contains(line, "Video:") {
            return match read_after_mark(line, "Video:") {
                Some(part) => {
                    let info = trim(part.as_str());
                    let resolution = regex_captures("(\\d{2,5})x(\\d{2,5})", info.as_str());
                    let rate = regex_captures("(\\d+(?:\\.\\d+)?)\\s*(?:fps|tbr)", info.as_str());
                    Some(stream_info_for(info.as_str(), &resolution, &rate))
                },
                None => None,
            };
        }
        i = i + 1;
    }
    None
}

/// The progress to report, in steps of ten.
pub fn next_progress_step(progress: i32, last: i32) -> (r: Option<i32>)
    ensures
        r == progress_step(progress, last),
{
    let rounded: i32 = if progress >= 0 {
        (progress / 10) * 10
    } else if progress == -0x8000_0000i32 {
        -2147483640
    } else {
        -((-progress / 10) * 10)
    };
    if rounded > last {
        Some(rounded)
    } else {
        None
    }
}

} // verus!
