//! Translating a text: which language it is in, what to call languages, and
//! the request to the translation service. The language is detected by
//! `whatlang` and the text is escaped by `urlencoding`.

use crate::text::str_eq;
use crate::unicode::{lowercase, to_lowercase, to_uppercase, uppercase};
use vstd::prelude::*;
use vstd::string::*;

verus! {

/// A translation.
#[derive(Debug, Clone)]
pub struct TranslationResult {
    pub translated_text: String,
    /// The English name of the language that the text was found to be in.
    pub detected_language: String,
    /// The English name of the language that was asked for.
    pub target_language: String,
}

/// View of [`TranslationResult`].
pub struct TranslationView {
    pub translated_text: Seq<char>,
    pub detected_language: Seq<char>,
    pub target_language: Seq<char>,
}

impl View for TranslationResult {
    type V = TranslationView;

    open spec fn view(&self) -> TranslationView {
        TranslationView {
            translated_text: self.translated_text@,
            detected_language: self.detected_language@,
            target_language: self.target_language@,
        }
    }
}

/// The ISO 639-3 code of the language that `whatlang` detects in a text,
/// when it detects one.
pub uninterp spec fn detected_code(text: Seq<char>) -> Option<Seq<char>>;

/// `whatlang::detect`, then `Info::lang` and `Lang::code`: the ISO 639-3
/// code of the language detected in `text`, or `None` when no script is
/// found in it. The detection reads nothing but the text.
#[verifier::external_body]
pub(crate) fn detect_code(text: &str) -> (r: Option<String>)
    ensures
        r.deep_view() == detected_code(text@),
{
    whatlang::detect(text).map(|info| info.lang().code().to_string())
}

/// Whether a byte is written as it is in a query: a digit, a letter, or one of `-._~`.
pub open spec fn is_unreserved(b: u8) -> bool {
    ||| 0x30 <= b <= 0x39
    ||| 0x41 <= b <= 0x5a
    ||| 0x61 <= b <= 0x7a
    ||| b == 0x2d
    ||| b == 0x2e
    ||| b == 0x5f
    ||| b == 0x7e
}

/// The upper-case hexadecimal digit for `d`, which is below sixteen.
pub open spec fn hex_digit(d: u8) -> char {
    if d < 10 {
        (0x30 + d) as char
    } else {
        (0x41 + d - 10) as char
    }
}

/// The bytes with every byte that is not unreserved written as `%` and two
/// hexadecimal digits.
pub open spec fn percent_encoded(bytes: Seq<u8>) -> Seq<char>
    decreases bytes.len(),
{
    if bytes.len() == 0 {
        Seq::empty()
    } else {
        let b = bytes[0];
        let head = if is_unreserved(b) {
            seq![b as char]
        } else {
            seq!['%', hex_digit(b / 16), hex_digit(b % 16)]
        };
        head + percent_encoded(bytes.skip(1))
    }
}

/// `urlencoding::encode`: the UTF-8 bytes of `text`, every byte
/// percent-encoded except letters, digits and `-`, `_`, `.`, `~`.
#[verifier::external_body]
pub(crate) fn url_encode(text: &str) -> (r: String)
    ensures
        r@ == percent_encoded(vstd::utf8::encode_utf8(text@)),
{
    urlencoding::encode(text).into_owned()
}

/// The two-letter code of a language, from its ISO 639-3 code; `en` for a
/// language that the service is not asked about.
pub open spec fn short_code(code: Seq<char>) -> Seq<char> {
    if code == "eng"@ {
        "en"@
    } else if code == "fra"@ {
        "fr"@
    } else if code == "deu"@ {
        "de"@
    } else if code == "spa"@ {
        "es"@
    } else if code == "por"@ {
        "pt"@
    } else if code == "ita"@ {
        "it"@
    } else if code == "nld"@ {
        "nl"@
    } else if code == "rus"@ {
        "ru"@
    } else if code == "ukr"@ {
        "uk"@
    } else if code == "pol"@ {
        "pl"@
    } else if code == "jpn"@ {
        "ja"@
    } else if code == "cmn"@ {
        "zh"@
    } else if code == "kor"@ {
        "ko"@
    } else if code == "ara"@ {
        "ar"@
    } else if code == "hin"@ {
        "hi"@
    } else if code == "tur"@ {
        "tr"@
    } else if code == "vie"@ {
        "vi"@
    } else if code == "tha"@ {
        "th"@
    } else if code == "ind"@ {
        "id"@
    } else if code == "ces"@ {
        "cs"@
    } else if code == "ell"@ {
        "el"@
    } else if code == "heb"@ {
        "he"@
    } else if code == "swe"@ {
        "sv"@
    } else if code == "dan"@ {
        "da"@
    } else if code == "fin"@ {
        "fi"@
    } else if code == "nob"@ {
        "no"@
    } else if code == "hun"@ {
        "hu"@
    } else if code == "ron"@ {
        "ro"@
    } else if code == "slk"@ {
        "sk"@
    } else if code == "bul"@ {
        "bg"@
    } else {
        "en"@
    }
}

/// The English name of a language, from its ISO 639-3 code; `Unknown` for
/// a language without a name here.
pub open spec fn english_name(code: Seq<char>) -> Seq<char> {
    if code == "eng"@ {
        "English"@
    } else if code == "fra"@ {
        "French"@
    } else if code == "deu"@ {
        "German"@
    } else if code == "spa"@ {
        "Spanish"@
    } else if code == "por"@ {
        "Portuguese"@
    } else if code == "ita"@ {
        "Italian"@
    } else if code == "nld"@ {
        "Dutch"@
    } else if code == "rus"@ {
        "Russian"@
    } else if code == "ukr"@ {
        "Ukrainian"@
    } else if code == "pol"@ {
        "Polish"@
    } else if code == "jpn"@ {
        "Japanese"@
    } else if code == "cmn"@ {
        "Chinese"@
    } else if code == "kor"@ {
        "Korean"@
    } else if code == "ara"@ {
        "Arabic"@
    } else if code == "hin"@ {
        "Hindi"@
    } else if code == "tur"@ {
        "Turkish"@
    } else if code == "vie"@ {
        "Vietnamese"@
    } else if code == "tha"@ {
        "Thai"@
    } else if code == "ind"@ {
        "Indonesian"@
    } else if code == "ces"@ {
        "Czech"@
    } else if code == "ell"@ {
        "Greek"@
    } else if code == "heb"@ {
        "Hebrew"@
    } else if code == "swe"@ {
        "Swedish"@
    } else if code == "dan"@ {
        "Danish"@
    } else if code == "fin"@ {
        "Finnish"@
    } else if code == "nob"@ {
        "Norwegian"@
    } else if code == "hun"@ {
        "Hungarian"@
    } else if code == "ron"@ {
        "Romanian"@
    } else if code == "slk"@ {
        "Slovak"@
    } else if code == "bul"@ {
        "Bulgarian"@
    } else if code == "lat"@ {
        "Latin"@
    } else if code == "epo"@ {
        "Esperanto"@
    } else {
        "Unknown"@
    }
}

/// The English name of the language with a two-letter code in lower case,
/// when the code is a known one.
pub open spec fn known_name(lower: Seq<char>) -> Option<Seq<char>> {
    if lower == "en"@ {
        Some("English"@)
    } else if lower == "ja"@ {
        Some("Japanese"@)
    } else if lower == "es"@ {
        Some("Spanish"@)
    } else if lower == "fr"@ {
        Some("French"@)
    } else if lower == "de"@ {
        Some("German"@)
    } else if lower == "zh"@ || lower == "zh-cn"@ || lower == "zh-tw"@ {
        Some("Chinese"@)
    } else if lower == "ko"@ {
        Some("Korean"@)
    } else if lower == "pt"@ {
        Some("Portuguese"@)
    } else if lower == "ru"@ {
        Some("Russian"@)
    } else if lower == "it"@ {
        Some("Italian"@)
    } else if lower == "ar"@ {
        Some("Arabic"@)
    } else if lower == "hi"@ {
        Some("Hindi"@)
    } else if lower == "nl"@ {
        Some("Dutch"@)
    } else if lower == "pl"@ {
        Some("Polish"@)
    } else if lower == "tr"@ {
        Some("Turkish"@)
    } else if lower == "vi"@ {
        Some("Vietnamese"@)
    } else if lower == "th"@ {
        Some("Thai"@)
    } else if lower == "id"@ {
        Some("Indonesian"@)
    } else if lower == "uk"@ {
        Some("Ukrainian"@)
    } else if lower == "cs"@ {
        Some("Czech"@)
    } else if lower == "el"@ {
        Some("Greek"@)
    } else if lower == "he"@ {
        Some("Hebrew"@)
    } else if lower == "sv"@ {
        Some("Swedish"@)
    } else if lower == "da"@ {
        Some("Danish"@)
    } else if lower == "fi"@ {
        Some("Finnish"@)
    } else if lower == "no"@ {
        Some("Norwegian"@)
    } else if lower == "hu"@ {
        Some("Hungarian"@)
    } else if lower == "ro"@ {
        Some("Romanian"@)
    } else if lower == "sk"@ {
        Some("Slovak"@)
    } else if lower == "bg"@ {
        Some("Bulgarian"@)
    } else {
        None
    }
}

/// What to call the language with a code: its English name when the code in
/// lower case is a known one, else the code in upper case.
pub open spec fn language_name(lower: Seq<char>, upper: Seq<char>) -> Seq<char> {
    match known_name(lower) {
        Some(name) => name,
        None => upper,
    }
}

/// The address that asks the service to translate `encoded_text`.
pub open spec fn translation_url(
    encoded_text: Seq<char>,
    source: Seq<char>,
    target: Seq<char>,
) -> Seq<char> {
    "https://api.mymemory.translated.net/get?q="@ + encoded_text + "&langpair="@ + source + "|"@
        + target
}

/// What is reported when the service answers without a translation.
pub open spec fn no_translation_message() -> Seq<char> {
    "No translation received"@
}

/// What to do for a translation.
#[derive(Debug, Clone)]
pub enum TranslationPlan {
    /// The text is in the language asked for: this is the result.
    Done(TranslationResult),
    /// Ask the service at `url`.
    Request { url: String, detected_language: String },
}

/// View of [`TranslationPlan`].
pub enum TranslationPlanView {
    Done(TranslationView),
    Request { url: Seq<char>, detected_language: Seq<char> },
}

impl View for TranslationPlan {
    type V = TranslationPlanView;

    open spec fn view(&self) -> TranslationPlanView {
        match self {
            TranslationPlan::Done(result) => TranslationPlanView::Done(result@),
            TranslationPlan::Request { url, detected_language } => TranslationPlanView::Request {
                url: url@,
                detected_language: detected_language@,
            },
        }
    }
}

/// The code that the service is told the source language is: English when none was detected.
pub open spec fn source_code(detected: Option<Seq<char>>) -> Seq<char> {
    match detected {
        Some(code) => short_code(code),
        None => "en"@,
    }
}

/// The name of the detected language: `Unknown` when none was detected.
pub open spec fn source_name(detected: Option<Seq<char>>) -> Seq<char> {
    match detected {
        Some(code) => english_name(code),
        None => "Unknown"@,
    }
}

/// What to do for a translation of `text` into `target`, when `detected` is
/// the language found in the text: nothing, when the text is in that
/// language already; else a request to the service.
pub open spec fn translation_plan(
    text: Seq<char>,
    target: Seq<char>,
    detected: Option<Seq<char>>,
    encoded_text: Seq<char>,
    target_name: Seq<char>,
) -> TranslationPlanView {
    if source_code(detected) == target {
        TranslationPlanView::Done(
            TranslationView {
                translated_text: text,
                detected_language: source_name(detected),
                target_language: target_name,
            },
        )
    } else {
        TranslationPlanView::Request {
            url: translation_url(encoded_text, source_code(detected), target),
            detected_language: source_name(detected),
        }
    }
}

/// The two-letter code of a language, from its ISO 639-3 code.
pub fn lang_to_code(code: &str) -> (r: &'static str)
    ensures
        r@ == short_code(code@),
{
    if str_eq(code, "eng") {
        "en"
    } else if str_eq(code, "fra") {
        "fr"
    } else if str_eq(code, "deu") {
        "de"
    } else if str_eq(code, "spa") {
        "es"
    } else if str_eq(code, "por") {
        "pt"
    } else if str_eq(code, "ita") {
        "it"
    } else if str_eq(code, "nld") {
        "nl"
    } else if str_eq(code, "rus") {
        "ru"
    } else if str_eq(code, "ukr") {
        "uk"
    } else if str_eq(code, "pol") {
        "pl"
    } else if str_eq(code, "jpn") {
        "ja"
    } else if str_eq(code, "cmn") {
        "zh"
    } else if str_eq(code, "kor") {
        "ko"
    } else if str_eq(code, "ara") {
        "ar"
    } else if str_eq(code, "hin") {
        "hi"
    } else if str_eq(code, "tur") {
        "tr"
    } else if str_eq(code, "vie") {
        "vi"
    } else if str_eq(code, "tha") {
        "th"
    } else if str_eq(code, "ind") {
        "id"
    } else if str_eq(code, "ces") {
        "cs"
    } else if str_eq(code, "ell") {
        "el"
    } else if str_eq(code, "heb") {
        "he"
    } else if str_eq(code, "swe") {
        "sv"
    } else if str_eq(code, "dan") {
        "da"
    } else if str_eq(code, "fin") {
        "fi"
    } else if str_eq(code, "nob") {
        "no"
    } else if str_eq(code, "hun") {
        "hu"
    } else if str_eq(code, "ron") {
        "ro"
    } else if str_eq(code, "slk") {
        "sk"
    } else if str_eq(code, "bul") {
        "bg"
    } else {
        "en"
    }
}

/// The English name of a language, from its ISO 639-3 code.
pub fn lang_to_name(code: &str) -> (r: &'static str)
    ensures
        r@ == english_name(code@),
{
    if str_eq(code, "eng") {
        "English"
    } else if str_eq(code, "fra") {
        "French"
    } else if str_eq(code, "deu") {
        "German"
    } else if str_eq(code, "spa") {
        "Spanish"
    } else if str_eq(code, "por") {
        "Portuguese"
    } else if str_eq(code, "ita") {
        "Italian"
    } else if str_eq(code, "nld") {
        "Dutch"
    } else if str_eq(code, "rus") {
        "Russian"
    } else if str_eq(code, "ukr") {
        "Ukrainian"
    } else if str_eq(code, "pol") {
        "Polish"
    } else if str_eq(code, "jpn") {
        "Japanese"
    } else if str_eq(code, "cmn") {
        "Chinese"
    } else if str_eq(code, "kor") {
        "Korean"
    } else if str_eq(code, "ara") {
        "Arabic"
    } else if str_eq(code, "hin") {
        "Hindi"
    } else if str_eq(code, "tur") {
        "Turkish"
    } else if str_eq(code, "vie") {
        "Vietnamese"
    } else if str_eq(code, "tha") {
        "Thai"
    } else if str_eq(code, "ind") {
        "Indonesian"
    } else if str_eq(code, "ces") {
        "Czech"
    } else if str_eq(code, "ell") {
        "Greek"
    } else if str_eq(code, "heb") {
        "Hebrew"
    } else if str_eq(code, "swe") {
        "Swedish"
    } else if str_eq(code, "dan") {
        "Danish"
    } else if str_eq(code, "fin") {
        "Finnish"
    } else if str_eq(code, "nob") {
        "Norwegian"
    } else if str_eq(code, "hun") {
        "Hungarian"
    } else if str_eq(code, "ron") {
        "Romanian"
    } else if str_eq(code, "slk") {
        "Slovak"
    } else if str_eq(code, "bul") {
        "Bulgarian"
    } else if str_eq(code, "lat") {
        "Latin"
    } else if str_eq(code, "epo") {
        "Esperanto"
    } else {
        "Unknown"
    }
}

/// The English name of the language with a two-letter code in lower case.
pub fn known_language_name(lower: &str) -> (r: Option<&'static str>)
    ensures
        match r {
            Some(name) => known_name(lower@) == Some(name@),
            None => known_name(lower@) is None,
        },
{
    if str_eq(lower, "en") {
        Some("English")
    } else if str_eq(lower, "ja") {
        Some("Japanese")
    } else if str_eq(lower, "es") {
        Some("Spanish")
    } else if str_eq(lower, "fr") {
        Some("French")
    } else if str_eq(lower, "de") {
        Some("German")
    } else if str_eq(lower, "zh") || str_eq(lower, "zh-cn") || str_eq(lower, "zh-tw") {
        Some("Chinese")
    } else if str_eq(lower, "ko") {
        Some("Korean")
    } else if str_eq(lower, "pt") {
        Some("Portuguese")
    } else if str_eq(lower, "ru") {
        Some("Russian")
    } else if str_eq(lower, "it") {
        Some("Italian")
    } else if str_eq(lower, "ar") {
        Some("Arabic")
    } else if str_eq(lower, "hi") {
        Some("Hindi")
    } else if str_eq(lower, "nl") {
        Some("Dutch")
    } else if str_eq(lower, "pl") {
        Some("Polish")
    } else if str_eq(lower, "tr") {
        Some("Turkish")
    } else if str_eq(lower, "vi") {
        Some("Vietnamese")
    } else if str_eq(lower, "th") {
        Some("Thai")
    } else if str_eq(lower, "id") {
        Some("Indonesian")
    } else if str_eq(lower, "uk") {
        Some("Ukrainian")
    } else if str_eq(lower, "cs") {
        Some("Czech")
    } else if str_eq(lower, "el") {
        Some("Greek")
    } else if str_eq(lower, "he") {
        Some("Hebrew")
    } else if str_eq(lower, "sv") {
        Some("Swedish")
    } else if str_eq(lower, "da") {
        Some("Danish")
    } else if str_eq(lower, "fi") {
        Some("Finnish")
    } else if str_eq(lower, "no") {
        Some("Norwegian")
    } else if str_eq(lower, "hu") {
        Some("Hungarian")
    } else if str_eq(lower, "ro") {
        Some("Romanian")
    } else if str_eq(lower, "sk") {
        Some("Slovak")
    } else if str_eq(lower, "bg") {
        Some("Bulgarian")
    } else {
        None
    }
}

/// What to call the language with a code, whatever the case of the code.
pub fn get_language_name(code: &str) -> (r: String)
    ensures
        r@ == language_name(lowercase(code@), uppercase(code@)),
{
    let lower = to_lowercase(code);
    match known_language_name(lower.as_str()) {
        Some(name) => String::from_str(name),
        None => to_uppercase(code),
    }
}

/// The address that asks the service to translate `encoded_text`.
pub fn build_translation_url(encoded_text: &str, source: &str, target: &str) -> (r: String)
    ensures
        r@ == translation_url(encoded_text@, source@, target@),
{
    let mut url = String::from_str("https://api.mymemory.translated.net/get?q=");
    url.append(encoded_text);
    url.append("&langpair=");
    url.append(source);
    url.append("|");
    url.append(target);
    url
}

/// What to do for a translation of `text` into `target_lang`, when
/// `detected` is the ISO 639-3 code of the language found in the text,
/// `encoded_text` the text escaped for a query, and `target_name` what the
/// language asked for is called.
pub fn plan_for_detected(
    text: String,
    target_lang: &str,
    detected: Option<String>,
    encoded_text: &str,
    target_name: String,
) -> (r: TranslationPlan)
    ensures
        r@ == translation_plan(
            text@,
            target_lang@,
            detected.deep_view(),
            encoded_text@,
            target_name@,
        ),
{
    let (source, name): (&'static str, &'static str) = match &detected {
        Some(code) => (lang_to_code(code.as_str()), lang_to_name(code.as_str())),
        None => ("en", "Unknown"),
    };
    if str_eq(source, target_lang) {
        TranslationPlan::Done(
            TranslationResult {
                translated_text: text,
                detected_language: String::from_str(name),
                target_language: target_name,
            },
        )
    } else {
        TranslationPlan::Request {
            url: build_translation_url(encoded_text, source, target_lang),
            detected_language: String::from_str(name),
        }
    }
}

/// What to do for a translation of `text` into `target_lang`: the language
/// of the text is detected, and the service is asked unless the text is in
/// the language asked for already.
pub fn plan_translation(text: String, target_lang: &str) -> (r: TranslationPlan)
    ensures
        r@ == translation_plan(
            text@,
            target_lang@,
            detected_code(text@),
            percent_encoded(vstd::utf8::encode_utf8(text@)),
            language_name(lowercase(target_lang@), uppercase(target_lang@)),
        ),
{
    let detected = detect_code(text.as_str());
    let encoded = url_encode(text.as_str());
    let target_name = get_language_name(target_lang);
    plan_for_detected(text, target_lang, detected, encoded.as_str(), target_name)
}

/// The result of a request to the service: the translation it gave, or an
/// error when it gave none.
pub fn translation_received(
    translated_text: Option<String>,
    detected_language: String,
    target_lang: &str,
) -> (r: Result<TranslationResult, String>)
    ensures
        match translated_text {
            Some(translated) => r is Ok && r->Ok_0@ == (TranslationView {
                translated_text: translated@,
                detected_language: detected_language@,
                target_language: language_name(lowercase(target_lang@), uppercase(target_lang@)),
            }),
            None => r is Err && r->Err_0@ == no_translation_message(),
        },
{
    match translated_text {
        Some(translated) => Ok(
            TranslationResult {
                translated_text: translated,
                detected_language,
                target_language: get_language_name(target_lang),
            },
        ),
        None => Err(String::from_str("No translation received")),
    }
}

} // verus!
