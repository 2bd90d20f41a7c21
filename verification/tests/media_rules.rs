use bunchatools::media::{
    conversion_arguments, description_arguments, first_duration, get_media_duration,
    next_progress_step, parse_time_from_progress, read_duration, read_video_stream,
    stream_info_for, video_arguments_for, video_conversion_arguments, ProgressTime,
    VideoConvertOptions,
};
use bunchatools::translate::{
    build_translation_url, get_language_name, known_language_name, lang_to_code, lang_to_name,
    plan_for_detected, plan_translation, translation_received, TranslationPlan,
};
use bunchatools::youtube::{
    build_format_selector, parse_ytdlp_progress, read_download_line, video_download_arguments,
    video_info, video_info_arguments, DownloadLine, YouTubeDownloadOptions,
};

fn texts(items: &[&str]) -> Vec<String> {
    items.iter().map(|s| s.to_string()).collect()
}

fn convert(resolution: &str, frame_rate: &str, codec: &str, keep_audio: bool, bitrate: u32) -> VideoConvertOptions {
    VideoConvertOptions {
        resolution: resolution.to_string(),
        frame_rate: frame_rate.to_string(),
        codec: codec.to_string(),
        keep_audio,
        bitrate,
    }
}

fn clock(h: &str, m: &str, s: &str) -> ProgressTime {
    ProgressTime::Clock { hours: h.to_string(), minutes: m.to_string(), seconds: s.to_string() }
}

const PALETTE: &str =
    "split[s0][s1];[s0]palettegen=stats_mode=diff[p];[s1][p]paletteuse=dither=bayer:bayer_scale=5";

#[test]
fn plain_conversions() {
    assert_eq!(
        conversion_arguments("in.wav", "out.mp3"),
        texts(&["-i", "in.wav", "-y", "-progress", "pipe:1", "-nostats", "out.mp3"])
    );
    assert_eq!(description_arguments("in.mp4"), texts(&["-i", "in.mp4"]));
}

#[test]
fn video_conversions() {
    assert_eq!(
        video_conversion_arguments("in.mov", "out.mp4", &convert("1080p", "30 fps", "H.264", true, 4000)),
        texts(&[
            "-i", "in.mov", "-y", "-c:v", "libx264", "-vf", "scale=1920:-2", "-r", "30", "-b:v",
            "4000k", "-c:a", "aac", "-b:a", "128k", "-progress", "pipe:1", "-nostats", "out.mp4",
        ])
    );
    assert_eq!(
        video_conversion_arguments("in.mov", "out.mkv", &convert("Original", "Keep Original", "Original", false, 0)),
        texts(&["-i", "in.mov", "-y", "-an", "-progress", "pipe:1", "-nostats", "out.mkv"])
    );
    assert_eq!(
        video_conversion_arguments("in.mov", "clip.WebM", &convert("720p", "60 fps", "H.265", true, 0)),
        texts(&[
            "-i", "in.mov", "-y", "-c:v", "libvpx-vp9", "-vf", "scale=1280:-2", "-r", "60", "-c:a",
            "libopus", "-b:a", "128k", "-progress", "pipe:1", "-nostats", "clip.WebM",
        ])
    );
    assert_eq!(
        video_conversion_arguments("in.mov", "out.mp4", &convert("4K", "24 fps", "AV1", false, 1)),
        texts(&[
            "-i", "in.mov", "-y", "-c:v", "libaom-av1", "-cpu-used", "4", "-vf", "scale=3840:-2",
            "-r", "24", "-b:v", "1k", "-an", "-progress", "pipe:1", "-nostats", "out.mp4",
        ])
    );
    for (codec, library) in [("H.265", "libx265"), ("VP9", "libvpx-vp9")] {
        let args = video_conversion_arguments("i", "o.mp4", &convert("480p", "", codec, false, 0));
        assert_eq!(args, texts(&["-i", "i", "-y", "-c:v", library, "-vf", "scale=854:-2", "-an", "-progress", "pipe:1", "-nostats", "o.mp4"]));
    }
}

#[test]
fn gif_conversions() {
    let gif = |options: &VideoConvertOptions| video_conversion_arguments("in.mov", "out.GIF", options);
    let expect = |filters: String| {
        texts(&["-i", "in.mov", "-y", "-vf", &filters, "-an", "-loop", "0", "-progress", "pipe:1", "-nostats", "out.GIF"])
    };
    assert_eq!(
        gif(&convert("720p", "60 fps", "H.264", true, 9000)),
        expect(format!("scale=1280:-2,fps=30,{}", PALETTE))
    );
    assert_eq!(gif(&convert("Original", "30 fps", "", true, 0)), expect(format!("fps=30,{}", PALETTE)));
    assert_eq!(gif(&convert("Original", "24 fps", "", true, 0)), expect(format!("fps=24,{}", PALETTE)));
    assert_eq!(gif(&convert("Original", "12 fps", "", true, 0)), expect(format!("fps=15,{}", PALETTE)));
    for (bitrate, rate) in [(0u32, "24"), (8000, "24"), (7999, "15"), (4000, "15"), (3999, "12"), (2000, "12"), (1999, "10"), (1, "10")] {
        assert_eq!(
            gif(&convert("Original", "Keep Original", "", true, bitrate)),
            expect(format!("fps={},{}", rate, PALETTE)),
            "bitrate {}",
            bitrate
        );
    }
    // The kind of output is told by the extension that is handed in.
    let plain = video_arguments_for("in.mov", "out.gif", &convert("", "", "", false, 0), "mp4");
    assert_eq!(plain, texts(&["-i", "in.mov", "-y", "-an", "-progress", "pipe:1", "-nostats", "out.gif"]));
}

#[test]
fn progress_times() {
    assert_eq!(parse_time_from_progress("out_time_ms=123456789"), Some(ProgressTime::Micros(123456789)));
    assert_eq!(parse_time_from_progress("out_time_ms=-9223372036854775807"), Some(ProgressTime::Micros(-9223372036854775807)));
    assert_eq!(parse_time_from_progress("out_time_ms=N/A"), None);
    assert_eq!(parse_time_from_progress("out_time_ms="), None);
    assert_eq!(parse_time_from_progress("out_time=00:01:23.456789"), Some(clock("00", "01", "23.456789")));
    assert_eq!(parse_time_from_progress("out_time=01:23"), None);
    assert_eq!(parse_time_from_progress("out_time=1:2:3:4"), None);
    assert_eq!(parse_time_from_progress("out_time=::"), Some(clock("", "", "")));
    assert_eq!(parse_time_from_progress("frame=10"), None);
    assert_eq!(parse_time_from_progress(" out_time_ms=5"), None);
    assert_eq!(parse_time_from_progress(""), None);
}

#[test]
fn durations() {
    assert_eq!(
        read_duration("  Duration: 00:01:23.45, start: 0.000000, bitrate: 1205 kb/s"),
        Some(clock("00", "01", "23.45"))
    );
    assert_eq!(read_duration("  Duration: N/A, start: 0.0"), None);
    assert_eq!(read_duration("Duration:1:2:3"), Some(clock("1", "2", "3")));
    assert_eq!(read_duration("Duration: 1:2:3 Duration: 4:5:6"), Some(clock("1", "2", "3")));
    assert_eq!(read_duration("no such thing"), None);

    let printed = "ffmpeg version 6\n  Duration: N/A, start: 0\nInput #0\r\n  Duration: 00:00:10.50, start: 0\n  Duration: 00:00:20.00\n";
    assert_eq!(get_media_duration(printed), Some(clock("00", "00", "10.50")));
    assert_eq!(first_duration(printed), None);
    assert_eq!(first_duration("x\n  Duration: 01:02:03.04, y\n"), Some(clock("01", "02", "03.04")));
    assert_eq!(get_media_duration("nothing here"), None);
    assert_eq!(get_media_duration(""), None);
}

#[test]
fn video_streams() {
    let printed = "Input #0, mov\n  Duration: 00:00:10.00\n  Stream #0:0: Audio: aac\n  Stream #0:1(und): Video: h264 (High) (avc1 / 0x31637661), yuv420p, 1920x1080 [SAR 1:1 DAR 16:9], 5000 kb/s, 29.97 fps, 30 tbr\n  Stream #0:2: Video: mjpeg, 640x480, 25 fps\n";
    let stream = read_video_stream(printed).unwrap();
    assert_eq!(stream.codec, "h264");
    assert_eq!((stream.width, stream.height), (1920, 1080));
    assert_eq!(stream.frame_rate, Some("29.97".to_string()));

    let stream = read_video_stream("Stream #0:0: Video: hevc, 30 tbr").unwrap();
    assert_eq!(stream.codec, "hevc");
    assert_eq!((stream.width, stream.height), (0, 0));
    assert_eq!(stream.frame_rate, Some("30".to_string()));

    let stream = read_video_stream("Stream #0:0: Video: vp9 999999x10").unwrap();
    assert_eq!(stream.codec, "vp9");
    assert_eq!((stream.width, stream.height), (99999, 10));
    assert_eq!(stream.frame_rate, None);

    assert!(read_video_stream("Stream #0:0: Audio: aac").is_none());
    assert!(read_video_stream("").is_none());

    let resolution = Some(vec![Some("12x34".to_string()), Some("12".to_string()), Some("34".to_string())]);
    let rate = Some(vec![Some("25 fps".to_string()), Some("25".to_string())]);
    let stream = stream_info_for("h264, x", &resolution, &rate);
    assert_eq!((stream.codec.as_str(), stream.width, stream.height), ("h264", 12, 34));
    assert_eq!(stream.frame_rate, Some("25".to_string()));
    let odd = Some(vec![Some("x".to_string()), Some("99999999999".to_string()), None]);
    let stream = stream_info_for("", &odd, &None);
    assert_eq!((stream.codec.as_str(), stream.width, stream.height, stream.frame_rate), ("", 0, 0, None));
}

#[test]
fn progress_in_steps_of_ten() {
    assert_eq!(next_progress_step(0, 0), None);
    assert_eq!(next_progress_step(9, 0), None);
    assert_eq!(next_progress_step(10, 0), Some(10));
    assert_eq!(next_progress_step(19, 10), None);
    assert_eq!(next_progress_step(57, 10), Some(50));
    assert_eq!(next_progress_step(99, 90), None);
    assert_eq!(next_progress_step(99, 80), Some(90));
    assert_eq!(next_progress_step(-5, -10), Some(0));
    assert_eq!(next_progress_step(-15, -20), Some(-10));
    assert_eq!(next_progress_step(i32::MIN, 0), None);
    for progress in [-25, -10, -1, 0, 5, 10, 55, 99, i32::MAX, i32::MIN + 1] {
        let rounded = (progress / 10) * 10;
        assert_eq!(next_progress_step(progress, i32::MIN), Some(rounded));
    }
}

#[test]
fn format_selectors() {
    assert_eq!(build_format_selector("best", "audio_only"), "bestaudio[ext=m4a]/bestaudio/best");
    assert_eq!(build_format_selector("720p", "audio_only"), "bestaudio[ext=m4a]/bestaudio/best");
    assert_eq!(build_format_selector("best", "video_only"), "bestvideo/best");
    assert_eq!(build_format_selector("4k", "video_only"), "bestvideo[height<=2160]/best[height<=2160]/bestvideo/best");
    assert_eq!(build_format_selector("1080p", "video_only"), "bestvideo[height<=1080]/best[height<=1080]/bestvideo/best");
    assert_eq!(build_format_selector("720p", "video_only"), "bestvideo[height<=720]/best[height<=720]/bestvideo/best");
    assert_eq!(build_format_selector("480p", "video_only"), "bestvideo[height<=480]/best[height<=480]/bestvideo/best");
    assert_eq!(build_format_selector("360p", "video_only"), "bestvideo[height<=360]/best[height<=360]/bestvideo/best");
    assert_eq!(build_format_selector("144p", "video_only"), "bestvideo/best");
    assert_eq!(build_format_selector("best", "video_audio"), "bestvideo+bestaudio/best");
    assert_eq!(build_format_selector("4k", "video_audio"), "bestvideo[height<=2160]+bestaudio/best[height<=2160]/bestvideo+bestaudio/best");
    assert_eq!(build_format_selector("1080p", "video_audio"), "bestvideo[height<=1080]+bestaudio/best[height<=1080]/bestvideo+bestaudio/best");
    assert_eq!(build_format_selector("720p", "anything"), "bestvideo[height<=720]+bestaudio/best[height<=720]/bestvideo+bestaudio/best");
    assert_eq!(build_format_selector("480p", ""), "bestvideo[height<=480]+bestaudio/best[height<=480]/bestvideo+bestaudio/best");
    assert_eq!(build_format_selector("360p", "video_audio"), "bestvideo[height<=360]+bestaudio/best[height<=360]/bestvideo+bestaudio/best");
    assert_eq!(build_format_selector("", "video_audio"), "bestvideo+bestaudio/best");
}

#[test]
fn downloader_arguments() {
    assert_eq!(
        video_info_arguments("https://y/watch?v=1"),
        texts(&["--dump-json", "--no-download", "--no-warnings", "--socket-timeout", "10", "https://y/watch?v=1"])
    );
    let options = |quality: &str, mode: &str| YouTubeDownloadOptions { quality: quality.to_string(), mode: mode.to_string() };
    assert_eq!(
        video_download_arguments("URL", "/home/u/Downloads", &options("720p", "video_audio")),
        texts(&[
            "-f", "bestvideo[height<=720]+bestaudio/best[height<=720]/bestvideo+bestaudio/best",
            "-o", "/home/u/Downloads/%(title)s.%(ext)s", "--newline", "--progress", "--no-warnings",
            "--merge-output-format", "mp4", "URL",
        ])
    );
    assert_eq!(
        video_download_arguments("URL", "/d/", &options("best", "audio_only")),
        texts(&[
            "-f", "bestaudio[ext=m4a]/bestaudio/best", "-o", "/d/%(title)s.%(ext)s", "--newline",
            "--progress", "--no-warnings", "-x", "--audio-format", "mp3", "URL",
        ])
    );
    assert_eq!(
        video_download_arguments("URL", "d", &options("best", "video_only")),
        texts(&["-f", "bestvideo/best", "-o", "d/%(title)s.%(ext)s", "--newline", "--progress", "--no-warnings", "URL"])
    );
}

#[test]
fn video_descriptions() {
    let s = |t: &str| Some(t.to_string());
    let full = video_info("u".to_string(), s("Title"), s("thumb.jpg"), Some(212), s("Channel"), s("Uploader"));
    assert_eq!((full.url.as_str(), full.title.as_str(), full.thumbnail.as_str(), full.duration, full.channel.as_str(), full.is_valid), ("u", "Title", "thumb.jpg", 212, "Channel", true));
    let bare = video_info("u".to_string(), None, None, None, None, None);
    assert_eq!((bare.title.as_str(), bare.thumbnail.as_str(), bare.duration, bare.channel.as_str(), bare.is_valid), ("Unknown", "", 0, "Unknown", true));
    assert_eq!(video_info("u".to_string(), None, None, None, None, s("Uploader")).channel, "Uploader");
}

#[test]
fn downloader_progress_lines() {
    let fields = parse_ytdlp_progress("[download]  45.2% of 245.60MiB at 5.23MiB/s ETA 02:15");
    assert_eq!(fields.percent, Some("45.2".to_string()));
    assert_eq!(fields.file_size, Some("245.60MiB".to_string()));
    assert_eq!(fields.download_speed, Some("5.23MiB/s".to_string()));
    assert_eq!(fields.eta, Some("02:15".to_string()));
    let fields = parse_ytdlp_progress("[download] 100% of 1.00MiB at  2.00MiB/s");
    assert_eq!(fields.percent, Some("100".to_string()));
    assert_eq!(fields.file_size, Some("1.00MiB".to_string()));
    assert_eq!(fields.download_speed, Some("".to_string()));
    assert_eq!(fields.eta, None);
    let fields = parse_ytdlp_progress("[download] 100% of 1.00MiB at 2.00MiB/s in 00:01");
    assert_eq!(fields.download_speed, Some("2.00MiB/s".to_string()));
    let fields = parse_ytdlp_progress("50%");
    assert_eq!(fields.percent, Some("50".to_string()));
    assert_eq!((fields.file_size, fields.download_speed, fields.eta), (None, None, None));
    let fields = parse_ytdlp_progress("[download] Destination: x");
    assert_eq!(fields.percent, None);
    let fields = parse_ytdlp_progress("a %");
    assert_eq!(fields.percent, Some("".to_string()));
}

#[test]
fn downloader_output_lines() {
    assert_eq!(read_download_line("[download]  45.2% of 245.60MiB at 5.23MiB/s ETA 02:15"), DownloadLine::Progress);
    assert_eq!(read_download_line("[download] Destination: /home/u/My Video.mp4"), DownloadLine::OutputPath("/home/u/My Video.mp4".to_string()));
    assert_eq!(read_download_line("[download] Destination: /home/u/100% fun.mp4"), DownloadLine::Progress);
    assert_eq!(
        read_download_line("[Merger] Merging formats into \"/home/u/My \"great\" Video.mp4\""),
        DownloadLine::OutputPath("/home/u/My \"great\" Video.mp4".to_string())
    );
    assert_eq!(read_download_line("[Merger] Merging formats into \"unfinished"), DownloadLine::Other);
    assert_eq!(
        read_download_line("[download] /home/u/v.mp4 has already been downloaded"),
        DownloadLine::OutputPath("/home/u/v.mp4".to_string())
    );
    assert_eq!(read_download_line("x has already been downloaded"), DownloadLine::Other);
    assert_eq!(read_download_line("[youtube] Extracting URL"), DownloadLine::Other);
    assert_eq!(read_download_line(""), DownloadLine::Other);
}

#[test]
fn language_names() {
    assert_eq!(get_language_name("en"), "English");
    assert_eq!(get_language_name("EN"), "English");
    assert_eq!(get_language_name("Zh-CN"), "Chinese");
    assert_eq!(get_language_name("zh-tw"), "Chinese");
    assert_eq!(get_language_name("ja"), "Japanese");
    assert_eq!(get_language_name("xx"), "XX");
    assert_eq!(get_language_name("straße"), "STRASSE");
    assert_eq!(get_language_name(""), "");
    assert_eq!(known_language_name("bg"), Some("Bulgarian"));
    assert_eq!(known_language_name("BG"), None);
    let known = [
        ("en", "English"), ("ja", "Japanese"), ("es", "Spanish"), ("fr", "French"), ("de", "German"),
        ("zh", "Chinese"), ("ko", "Korean"), ("pt", "Portuguese"), ("ru", "Russian"), ("it", "Italian"),
        ("ar", "Arabic"), ("hi", "Hindi"), ("nl", "Dutch"), ("pl", "Polish"), ("tr", "Turkish"),
        ("vi", "Vietnamese"), ("th", "Thai"), ("id", "Indonesian"), ("uk", "Ukrainian"), ("cs", "Czech"),
        ("el", "Greek"), ("he", "Hebrew"), ("sv", "Swedish"), ("da", "Danish"), ("fi", "Finnish"),
        ("no", "Norwegian"), ("hu", "Hungarian"), ("ro", "Romanian"), ("sk", "Slovak"), ("bg", "Bulgarian"),
    ];
    for (code, name) in known {
        assert_eq!(get_language_name(code), name);
    }
}

#[test]
fn languages_by_their_codes() {
    let table = [
        ("eng", "en", "English"), ("fra", "fr", "French"), ("deu", "de", "German"), ("spa", "es", "Spanish"),
        ("por", "pt", "Portuguese"), ("ita", "it", "Italian"), ("nld", "nl", "Dutch"), ("rus", "ru", "Russian"),
        ("ukr", "uk", "Ukrainian"), ("pol", "pl", "Polish"), ("jpn", "ja", "Japanese"), ("cmn", "zh", "Chinese"),
        ("kor", "ko", "Korean"), ("ara", "ar", "Arabic"), ("hin", "hi", "Hindi"), ("tur", "tr", "Turkish"),
        ("vie", "vi", "Vietnamese"), ("tha", "th", "Thai"), ("ind", "id", "Indonesian"), ("ces", "cs", "Czech"),
        ("ell", "el", "Greek"), ("heb", "he", "Hebrew"), ("swe", "sv", "Swedish"), ("dan", "da", "Danish"),
        ("fin", "fi", "Finnish"), ("nob", "no", "Norwegian"), ("hun", "hu", "Hungarian"), ("ron", "ro", "Romanian"),
        ("slk", "sk", "Slovak"), ("bul", "bg", "Bulgarian"), ("lat", "en", "Latin"), ("epo", "en", "Esperanto"),
        ("kat", "en", "Unknown"), ("", "en", "Unknown"),
    ];
    for (code, short, name) in table {
        assert_eq!(lang_to_code(code), short);
        assert_eq!(lang_to_name(code), name);
    }
}

#[test]
fn translations_are_planned() {
    let french = "Bonjour tout le monde, comment allez-vous aujourd'hui ? Je voudrais une baguette.";
    match plan_translation(french.to_string(), "en") {
        TranslationPlan::Request { url, detected_language } => {
            assert_eq!(detected_language, "French");
            assert_eq!(
                url,
                "https://api.mymemory.translated.net/get?q=Bonjour%20tout%20le%20monde%2C%20comment%20allez-vous%20aujourd%27hui%20%3F%20Je%20voudrais%20une%20baguette.&langpair=fr|en"
            );
        }
        other => panic!("unexpected plan {:?}", other),
    }
    match plan_translation(french.to_string(), "fr") {
        TranslationPlan::Done(result) => {
            assert_eq!(result.translated_text, french);
            assert_eq!(result.detected_language, "French");
            assert_eq!(result.target_language, "French");
        }
        other => panic!("unexpected plan {:?}", other),
    }
    // Nothing to detect: the text is taken for English.
    match plan_translation("12345".to_string(), "en") {
        TranslationPlan::Done(result) => {
            assert_eq!(result.detected_language, "Unknown");
            assert_eq!(result.target_language, "English");
        }
        other => panic!("unexpected plan {:?}", other),
    }
    match plan_translation("Съешь ещё этих мягких французских булок, да выпей же чаю".to_string(), "DE") {
        TranslationPlan::Request { url, detected_language } => {
            assert_eq!(detected_language, "Russian");
            assert!(url.starts_with("https://api.mymemory.translated.net/get?q=%D0%A1%D1%8A%D0%B5%D1%88%D1%8C%20"));
            assert!(url.ends_with("&langpair=ru|DE"));
        }
        other => panic!("unexpected plan {:?}", other),
    }
}

#[test]
fn translations_for_a_detected_language() {
    match plan_for_detected("hola".to_string(), "es", Some("spa".to_string()), "hola", "Spanish".to_string()) {
        TranslationPlan::Done(result) => {
            assert_eq!((result.translated_text.as_str(), result.detected_language.as_str(), result.target_language.as_str()), ("hola", "Spanish", "Spanish"));
        }
        other => panic!("unexpected plan {:?}", other),
    }
    match plan_for_detected("hola".to_string(), "ES", Some("spa".to_string()), "hola", "Spanish".to_string()) {
        TranslationPlan::Request { url, detected_language } => {
            assert_eq!(url, "https://api.mymemory.translated.net/get?q=hola&langpair=es|ES");
            assert_eq!(detected_language, "Spanish");
        }
        other => panic!("unexpected plan {:?}", other),
    }
    match plan_for_detected("x".to_string(), "de", None, "x", "German".to_string()) {
        TranslationPlan::Request { url, detected_language } => {
            assert_eq!(url, "https://api.mymemory.translated.net/get?q=x&langpair=en|de");
            assert_eq!(detected_language, "Unknown");
        }
        other => panic!("unexpected plan {:?}", other),
    }
    match plan_for_detected("x".to_string(), "en", Some("kat".to_string()), "x", "English".to_string()) {
        TranslationPlan::Done(result) => assert_eq!(result.detected_language, "Unknown"),
        other => panic!("unexpected plan {:?}", other),
    }
    assert_eq!(build_translation_url("a%20b", "fr", "en"), "https://api.mymemory.translated.net/get?q=a%20b&langpair=fr|en");
}

#[test]
fn translations_are_received() {
    let result = translation_received(Some("Hello".to_string()), "French".to_string(), "en").unwrap();
    assert_eq!((result.translated_text.as_str(), result.detected_language.as_str(), result.target_language.as_str()), ("Hello", "French", "English"));
    let result = translation_received(Some(String::new()), "French".to_string(), "tlh").unwrap();
    assert_eq!(result.target_language, "TLH");
    assert_eq!(translation_received(None, "French".to_string(), "en").unwrap_err(), "No translation received");
}
