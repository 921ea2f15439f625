//! Request details for the transcription worker.
use vstd::prelude::*;

use serde_json::Value;

use base64::engine::general_purpose::STANDARD as BASE64;
use base64::Engine;

use crate::json::{is_null, is_number, json_member, json_null, json_number, member, text_field, text_member};
use crate::shell::{decode_lossy, utf8_lossy};
use crate::seeding::copy_value;
use crate::strings::{append_decimal, decimal, find_last_char, last_index_of, lemma_last_index_of, str_eq, to_string};

verus! {

/// The part of a file name after its last `.`; a name without a `.` has
/// no extension.
pub open spec fn file_extension(file_name: Seq<char>) -> Option<Seq<char>> {
    match last_index_of(file_name, '.') {
        Some(i) => Some(file_name.skip(i + 1)),
        None => None,
    }
}

/// The MIME type for a file's extension; a generic binary type when the
/// file has none.
pub open spec fn mime_for_extension(extension: Option<Seq<char>>) -> Seq<char> {
    match extension {
        None => "application/octet-stream"@,
        Some(ext) => if ext == "wav"@ {
            "audio/wav"@
        } else if ext == "webm"@ {
            "audio/webm"@
        } else if ext == "mp4"@ || ext == "m4a"@ {
            "audio/mp4"@
        } else if ext == "ogg"@ || ext == "oga"@ {
            "audio/ogg"@
        } else if ext == "flac"@ {
            "audio/flac"@
        } else if ext == "mp3"@ {
            "audio/mpeg"@
        } else {
            "application/octet-stream"@
        },
    }
}

/// Derive a MIME type from a file name's extension.
pub fn mime_type_for_filename(file_name: &str) -> (mime: &'static str)
    ensures
        mime@ == mime_for_extension(file_extension(file_name@)),
{
    proof {
        lemma_last_index_of(file_name@, '.');
    }
    let n = file_name.unicode_len();
    let ext = match find_last_char(file_name, '.') {
        Some(i) => file_name.substring_char(i + 1, n),
        None => {
            return "application/octet-stream";
        },
    };
    assert(file_extension(file_name@) == Some(ext@));
    if str_eq(ext, "wav") {
        "audio/wav"
    } else if str_eq(ext, "webm") {
        "audio/webm"
    } else if str_eq(ext, "mp4") || str_eq(ext, "m4a") {
        "audio/mp4"
    } else if str_eq(ext, "ogg") || str_eq(ext, "oga") {
        "audio/ogg"
    } else if str_eq(ext, "flac") {
        "audio/flac"
    } else if str_eq(ext, "mp3") {
        "audio/mpeg"
    } else {
        "application/octet-stream"
    }
}

/// A transcription request, checked and with its audio decoded.
#[derive(Debug, PartialEq)]
pub struct TranscriptionRequest {
    pub audio_bytes: Vec<u8>,
    pub file_name: String,
    pub mime_type: String,
    pub model: String,
    pub language: Option<String>,
    pub prompt: Option<String>,
    pub response_format: Option<String>,
    /// The sampling temperature asked for, as the JSON number given.
    pub temperature: Option<Value>,
}

/// `base64::engine::general_purpose::STANDARD.decode`: the bytes that
/// `text` encodes in standard padded base64, or the decoder's message.
pub uninterp spec fn base64_decoded(text: Seq<char>) -> Result<Seq<u8>, Seq<char>>;

/// `base64::Engine::decode` on the standard engine: the bytes `text`
/// encodes, or the decoder's message.
#[verifier::external_body]
fn decode_base64(text: &str) -> (decoded: Result<Vec<u8>, String>)
    ensures
        match base64_decoded(text@) {
            Ok(bytes) => decoded matches Ok(b) && b@ == bytes,
            Err(m) => decoded matches Err(e) && e@ == m,
        },
{
    BASE64.decode(text).map_err(|error| error.to_string())
}

/// A request's fields as plain values.
pub struct RequestView {
    pub audio_bytes: Seq<u8>,
    pub file_name: Seq<char>,
    pub mime_type: Seq<char>,
    pub model: Seq<char>,
    pub language: Option<Seq<char>>,
    pub prompt: Option<Seq<char>>,
    pub response_format: Option<Seq<char>>,
    pub temperature: Option<Value>,
}

pub open spec fn opt_text(s: Option<String>) -> Option<Seq<char>> {
    match s {
        Some(t) => Some(t@),
        None => None,
    }
}

pub open spec fn request_view(r: TranscriptionRequest) -> RequestView {
    RequestView {
        audio_bytes: r.audio_bytes@,
        file_name: r.file_name@,
        mime_type: r.mime_type@,
        model: r.model@,
        language: opt_text(r.language),
        prompt: opt_text(r.prompt),
        response_format: opt_text(r.response_format),
        temperature: r.temperature,
    }
}

/// Why a payload is no transcription request.
pub enum RequestProblem {
    MissingField(Seq<char>),
    InvalidBase64(Seq<char>),
    EmptyAudio,
    InvalidTemperature,
}

pub open spec fn is_problem(e: TranscriptionError, p: RequestProblem) -> bool {
    match p {
        RequestProblem::MissingField(f) => e matches TranscriptionError::MissingField(g) && g@ == f,
        RequestProblem::InvalidBase64(m) => e matches TranscriptionError::InvalidBase64(d) && d@ == m,
        RequestProblem::EmptyAudio => e == TranscriptionError::EmptyAudio,
        RequestProblem::InvalidTemperature => e == TranscriptionError::InvalidTemperature,
    }
}

/// The temperature a payload asks for: none when absent or `null`, the
/// number when it is one, and a problem otherwise.
pub open spec fn requested_temperature(payload: Value) -> Result<Option<Value>, RequestProblem> {
    match json_member(payload, "temperature"@) {
        None => Ok(None),
        Some(t) => if json_null(t) {
            Ok(None)
        } else if json_number(t) {
            Ok(Some(t))
        } else {
            Err(RequestProblem::InvalidTemperature)
        },
    }
}

/// The file name a payload gives, `audio.wav` when it gives none.
pub open spec fn requested_file_name(payload: Value) -> Seq<char> {
    match text_member(payload, "file_name"@) {
        Some(name) => name,
        None => "audio.wav"@,
    }
}

/// The request a JSON payload makes, or the first problem with it: the
/// audio must be a base64 string of at least one byte, the model a string,
/// and the temperature, when given and not `null`, a number.
pub open spec fn requested(payload: Value) -> Result<RequestView, RequestProblem> {
    match text_member(payload, "audio_base64"@) {
        None => Err(RequestProblem::MissingField("audio_base64"@)),
        Some(encoded) => match base64_decoded(encoded) {
            Err(m) => Err(RequestProblem::InvalidBase64(m)),
            Ok(audio) => if audio.len() == 0 {
                Err(RequestProblem::EmptyAudio)
            } else {
                match text_member(payload, "model"@) {
                    None => Err(RequestProblem::MissingField("model"@)),
                    Some(model) => match requested_temperature(payload) {
                        Err(p) => Err(p),
                        Ok(temperature) => {
                            let file_name = requested_file_name(payload);
                            Ok(
                                RequestView {
                                    audio_bytes: audio,
                                    file_name,
                                    mime_type: mime_for_extension(file_extension(file_name)),
                                    model,
                                    language: text_member(payload, "language"@),
                                    prompt: text_member(payload, "prompt"@),
                                    response_format: text_member(payload, "response_format"@),
                                    temperature,
                                },
                            )
                        },
                    },
                }
            },
        },
    }
}

fn owned_text(text: Option<&str>) -> (owned: Option<String>)
    ensures
        opt_text(owned) == match text {
            Some(t) => Some(t@),
            None => None::<Seq<char>>,
        },
{
    match text {
        Some(t) => Some(to_string(t)),
        None => None,
    }
}

/// Check a transcription job's JSON payload and decode its audio.
pub fn parse_request(payload: &Value) -> (result: Result<TranscriptionRequest, TranscriptionError>)
    ensures
        match requested(*payload) {
            Ok(v) => result matches Ok(r) && request_view(r) == v,
            Err(p) => result matches Err(e) && is_problem(e, p),
        },
{
    let encoded = match text_field(payload, "audio_base64") {
        Some(e) => e,
        None => {
            return Err(TranscriptionError::MissingField("audio_base64"));
        },
    };
    let audio_bytes = match decode_base64(encoded) {
        Ok(bytes) => bytes,
        Err(message) => {
            return Err(TranscriptionError::InvalidBase64(message));
        },
    };
    if audio_bytes.len() == 0 {
        return Err(TranscriptionError::EmptyAudio);
    }
    let model = match text_field(payload, "model") {
        Some(m) => to_string(m),
        None => {
            return Err(TranscriptionError::MissingField("model"));
        },
    };
    let file_name = match text_field(payload, "file_name") {
        Some(name) => to_string(name),
        None => to_string("audio.wav"),
    };
    let mime_type = to_string(mime_type_for_filename(file_name.as_str()));
    let language = owned_text(text_field(payload, "language"));
    let prompt = owned_text(text_field(payload, "prompt"));
    let response_format = owned_text(text_field(payload, "response_format"));
    let temperature = match member(payload, "temperature") {
        None => None,
        Some(t) => {
            if is_null(t) {
                None
            } else if is_number(t) {
                Some(copy_value(t))
            } else {
                return Err(TranscriptionError::InvalidTemperature);
            }
        },
    };
    Ok(
        TranscriptionRequest {
            audio_bytes,
            file_name,
            mime_type,
            model,
            language,
            prompt,
            response_format,
            temperature,
        },
    )
}

/// Why a transcription could not be had.
#[derive(Debug, PartialEq, Eq)]
pub enum TranscriptionError {
    MissingField(&'static str),
    InvalidBase64(String),
    InvalidTemperature,
    EmptyAudio,
    HttpError(String),
    ServerError { status: u16, body: String },
    InvalidResponse(String),
}

pub open spec fn transcription_error_text(e: TranscriptionError) -> Seq<char> {
    match e {
        TranscriptionError::MissingField(field) => "missing required field: "@ + field@,
        TranscriptionError::InvalidBase64(detail) => "invalid base64 in audio_base64: "@ + detail@,
        TranscriptionError::InvalidTemperature => "temperature must be a number"@,
        TranscriptionError::EmptyAudio => "audio data is empty"@,
        TranscriptionError::HttpError(detail) => "whisper server request failed: "@ + detail@,
        TranscriptionError::ServerError { status, body } => "whisper server returned status "@
            + decimal(status as nat) + ": "@ + body@,
        TranscriptionError::InvalidResponse(detail) => "invalid response from whisper server: "@
            + detail@,
    }
}

impl TranscriptionError {
    /// The error's message.
    pub fn message(&self) -> (text: String)
        ensures
            text@ == transcription_error_text(*self),
    {
        match self {
            TranscriptionError::MissingField(field) => {
                let mut text = to_string("missing required field: ");
                text.append(field);
                text
            },
            TranscriptionError::InvalidBase64(detail) => {
                let mut text = to_string("invalid base64 in audio_base64: ");
                text.append(detail.as_str());
                text
            },
            TranscriptionError::InvalidTemperature => to_string("temperature must be a number"),
            TranscriptionError::EmptyAudio => to_string("audio data is empty"),
            TranscriptionError::HttpError(detail) => {
                let mut text = to_string("whisper server request failed: ");
                text.append(detail.as_str());
                text
            },
            TranscriptionError::ServerError { status, body } => {
                let mut text = to_string("whisper server returned status ");
                append_decimal(&mut text, *status as u64);
                text.append(": ");
                text.append(body.as_str());
                text
            },
            TranscriptionError::InvalidResponse(detail) => {
                let mut text = to_string("invalid response from whisper server: ");
                text.append(detail.as_str());
                text
            },
        }
    }
}

/// The most bytes of a server's error body that an error keeps.
pub const MAX_ERROR_BODY_LEN: usize = 512;

/// The most bytes of an unparsable body that an error shows.
pub const MAX_PREVIEW_LEN: usize = 200;

/// The number of bytes that `c` takes in UTF-8.
pub open spec fn utf8_width(c: char) -> nat {
    if (c as u32) < 0x80 {
        1
    } else if (c as u32) < 0x800 {
        2
    } else if (c as u32) < 0x10000 {
        3
    } else {
        4
    }
}

/// The number of bytes that `s` takes in UTF-8.
pub open spec fn utf8_size(s: Seq<char>) -> nat
    decreases s.len(),
{
    if s.len() == 0 {
        0
    } else {
        utf8_size(s.drop_last()) + utf8_width(s.last())
    }
}

/// The most characters of `s` that fit in `max` bytes.
pub open spec fn fitting_chars(s: Seq<char>, max: nat) -> int
    decreases s.len(),
{
    if utf8_size(s) <= max {
        s.len() as int
    } else {
        fitting_chars(s.drop_last(), max)
    }
}

/// `s` itself when it fits in `max` bytes; otherwise its longest prefix
/// that fits, followed by `...`.
pub open spec fn truncated_text(s: Seq<char>, max: nat) -> Seq<char> {
    if utf8_size(s) <= max {
        s
    } else {
        s.take(fitting_chars(s, max)) + "..."@
    }
}

/// `serde_json::from_slice::<Value>`: the JSON value that `bytes` hold,
/// or the parser's message when they hold none.
pub uninterp spec fn json_from_bytes(bytes: Seq<u8>) -> Result<Value, Seq<char>>;

/// `serde_json::from_slice::<Value>`: parse `bytes` as one JSON value; on
/// failure, the parser's message.
#[verifier::external_body]
fn parse_json(bytes: &[u8]) -> (parsed: Result<Value, String>)
    ensures
        match json_from_bytes(bytes@) {
            Ok(v) => parsed matches Ok(p) && p == v,
            Err(m) => parsed matches Err(e) && e@ == m,
        },
{
    serde_json::from_slice(bytes).map_err(|error| error.to_string())
}

proof fn lemma_utf8_size_take(s: Seq<char>, k: int)
    requires
        0 <= k < s.len(),
    ensures
        utf8_size(s.take(k + 1)) == utf8_size(s.take(k)) + utf8_width(s[k]),
{
    assert(s.take(k + 1).drop_last() =~= s.take(k));
}

proof fn lemma_utf8_size_monotonic(s: Seq<char>, j: int, k: int)
    requires
        0 <= j <= k <= s.len(),
    ensures
        utf8_size(s.take(j)) <= utf8_size(s.take(k)),
    decreases k - j,
{
    if j < k {
        lemma_utf8_size_take(s, k - 1);
        lemma_utf8_size_monotonic(s, j, k - 1);
    }
}

proof fn lemma_fitting_chars(s: Seq<char>, max: nat, k: int)
    requires
        0 <= k <= s.len(),
        utf8_size(s.take(k)) <= max,
        k == s.len() || utf8_size(s.take(k + 1)) > max,
    ensures
        fitting_chars(s, max) == k,
    decreases s.len(),
{
    assert(s.take(s.len() as int) =~= s);
    if k == s.len() {
    } else {
        lemma_utf8_size_monotonic(s, k + 1, s.len() as int);
        let t = s.drop_last();
        assert forall|j: int| 0 <= j <= t.len() implies t.take(j) =~= s.take(j) by {}
        assert(t.take(k) =~= s.take(k));
        if k + 1 <= t.len() {
            assert(t.take(k + 1) =~= s.take(k + 1));
        }
        lemma_fitting_chars(t, max, k);
    }
}

fn char_width(c: char) -> (width: usize)
    ensures
        width == utf8_width(c),
{
    let code = c as u32;
    if code < 0x80 {
        1
    } else if code < 0x800 {
        2
    } else if code < 0x10000 {
        3
    } else {
        4
    }
}

/// `s` when it fits in `max_len` bytes; otherwise its longest prefix that
/// ends on a character boundary within `max_len` bytes, followed by `...`.
pub fn truncate_str(s: &str, max_len: usize) -> (text: String)
    ensures
        text@ == truncated_text(s@, max_len as nat),
{
    let n = s.unicode_len();
    let mut used: usize = 0;
    let mut k: usize = 0;
    assert(s@.take(0) =~= Seq::<char>::empty());
    while k < n && char_width(s.get_char(k)) <= max_len - used
        invariant
            n == s@.len(),
            k <= n,
            used == utf8_size(s@.take(k as int)),
            used <= max_len,
        decreases n - k,
    {
        proof {
            lemma_utf8_size_take(s@, k as int);
        }
        used = used + char_width(s.get_char(k));
        k += 1;
    }
    proof {
        if k < n {
            lemma_utf8_size_take(s@, k as int);
        }
        lemma_fitting_chars(s@, max_len as nat, k as int);
        assert(s@.take(n as int) =~= s@);
        if k < n {
            lemma_utf8_size_monotonic(s@, k as int + 1, n as int);
        }
    }
    if k == n {
        to_string(s)
    } else {
        let prefix = s.substring_char(0, k);
        assert(prefix@ =~= s@.take(k as int));
        let mut text = to_string(prefix);
        text.append("...");
        text
    }
}

/// What the whisper server's answer means: its JSON body on status 200;
/// otherwise the status with the start of the body; a body that is not
/// JSON is reported with the parser's message and the body's start.
pub fn parse_response(status: u16, body: &[u8]) -> (result: Result<Value, TranscriptionError>)
    ensures
        status != 200 ==> (result matches Err(TranscriptionError::ServerError { status: s, body: b })
            && s == status && b@ == truncated_text(utf8_lossy(body@), MAX_ERROR_BODY_LEN as nat)),
        status == 200 ==> match json_from_bytes(body@) {
            Ok(v) => result matches Ok(r) && r == v,
            Err(m) => result matches Err(TranscriptionError::InvalidResponse(detail)) && detail@ == m
                + " (body: "@ + truncated_text(utf8_lossy(body@), MAX_PREVIEW_LEN as nat) + ")"@,
        },
{
    let body_text = decode_lossy(body);
    if status != 200 {
        return Err(
            TranscriptionError::ServerError {
                status,
                body: truncate_str(body_text.as_str(), MAX_ERROR_BODY_LEN),
            },
        );
    }
    match parse_json(body) {
        Ok(value) => Ok(value),
        Err(message) => {
            let preview = truncate_str(body_text.as_str(), MAX_PREVIEW_LEN);
            let mut detail = message;
            detail.append(" (body: ");
            detail.append(preview.as_str());
            detail.append(")");
            Err(TranscriptionError::InvalidResponse(detail))
        },
    }
}

} // verus!
