use base64::engine::general_purpose::STANDARD as BASE64;
use base64::Engine;
use consensus::whisper::{
    mime_type_for_filename, parse_request, parse_response, truncate_str, TranscriptionError,
    MAX_ERROR_BODY_LEN,
};
use serde_json::Value;

fn payload(fields: Vec<(&str, Value)>) -> Value {
    let mut map = serde_json::Map::new();
    for (key, value) in fields {
        map.insert(key.to_owned(), value);
    }
    Value::Object(map)
}

fn text(value: &str) -> Value {
    Value::String(value.to_owned())
}

fn encoded(bytes: &[u8]) -> Value {
    Value::String(BASE64.encode(bytes))
}

fn valid_payload() -> Value {
    payload(vec![
        ("audio_base64", encoded(b"RIFF fake wav data")),
        ("model", text("whisper-1")),
        ("file_name", text("test.wav")),
    ])
}

fn temperature_of(req: &consensus::whisper::TranscriptionRequest) -> Option<f64> {
    req.temperature.as_ref().and_then(Value::as_f64)
}

#[test]
fn parse_request_happy_path() {
    let req = parse_request(&valid_payload()).unwrap();
    assert_eq!(req.audio_bytes, b"RIFF fake wav data");
    assert_eq!(req.file_name, "test.wav");
    assert_eq!(req.mime_type, "audio/wav");
    assert_eq!(req.model, "whisper-1");
    assert!(req.language.is_none());
    assert!(req.prompt.is_none());
    assert!(req.response_format.is_none());
    assert!(req.temperature.is_none());
}

#[test]
fn parse_request_with_all_optional_fields() {
    let request = payload(vec![
        ("audio_base64", encoded(b"audio")),
        ("model", text("whisper-1")),
        ("file_name", text("clip.webm")),
        ("language", text("en")),
        ("prompt", text("meeting notes")),
        ("response_format", text("verbose_json")),
        ("temperature", serde_json::from_str("0.5").unwrap()),
    ]);
    let req = parse_request(&request).unwrap();
    assert_eq!(req.mime_type, "audio/webm");
    assert_eq!(req.language.as_deref(), Some("en"));
    assert_eq!(req.prompt.as_deref(), Some("meeting notes"));
    assert_eq!(req.response_format.as_deref(), Some("verbose_json"));
    assert_eq!(temperature_of(&req), Some(0.5));
}

#[test]
fn parse_request_default_file_name() {
    let req = parse_request(&payload(vec![("audio_base64", encoded(b"audio")), ("model", text("whisper-1"))])).unwrap();
    assert_eq!(req.file_name, "audio.wav");
    assert_eq!(req.mime_type, "audio/wav");
}

#[test]
fn parse_request_missing_audio_base64() {
    assert_eq!(
        parse_request(&payload(vec![("model", text("whisper-1"))])).unwrap_err(),
        TranscriptionError::MissingField("audio_base64"),
    );
}

#[test]
fn parse_request_invalid_base64() {
    let request = payload(vec![("audio_base64", text("not valid base64!!!")), ("model", text("whisper-1"))]);
    assert!(matches!(parse_request(&request).unwrap_err(), TranscriptionError::InvalidBase64(_)));
}

#[test]
fn parse_request_empty_audio() {
    let request = payload(vec![("audio_base64", encoded(b"")), ("model", text("whisper-1"))]);
    assert_eq!(parse_request(&request).unwrap_err(), TranscriptionError::EmptyAudio);
}

#[test]
fn parse_request_missing_model() {
    let request = payload(vec![("audio_base64", encoded(b"audio"))]);
    assert_eq!(parse_request(&request).unwrap_err(), TranscriptionError::MissingField("model"));
}

#[test]
fn parse_request_temperature_as_string() {
    let request = payload(vec![
        ("audio_base64", encoded(b"audio")),
        ("model", text("whisper-1")),
        ("temperature", text("hot")),
    ]);
    assert_eq!(parse_request(&request).unwrap_err(), TranscriptionError::InvalidTemperature);
}

#[test]
fn parse_request_temperature_null_is_none() {
    let request = payload(vec![
        ("audio_base64", encoded(b"audio")),
        ("model", text("whisper-1")),
        ("temperature", Value::Null),
    ]);
    assert!(parse_request(&request).unwrap().temperature.is_none());
}

#[test]
fn parse_request_audio_base64_not_string() {
    let request = payload(vec![("audio_base64", serde_json::from_str("12345").unwrap()), ("model", text("whisper-1"))]);
    assert_eq!(parse_request(&request).unwrap_err(), TranscriptionError::MissingField("audio_base64"));
}

#[test]
fn parse_request_model_not_string() {
    let request = payload(vec![("audio_base64", encoded(b"audio")), ("model", serde_json::from_str("42").unwrap())]);
    assert_eq!(parse_request(&request).unwrap_err(), TranscriptionError::MissingField("model"));
}

#[test]
fn parsed_requests_keep_the_audio_model_and_file_name() {
    for (audio, ext) in [(&b"\x00\x01\xff"[..], "flac"), (&b"x"[..], "xyz"), (&b"RIFF"[..], "m4a")] {
        let file_name = format!("recording.{ext}");
        let request = payload(vec![
            ("audio_base64", encoded(audio)),
            ("model", text("tiny_en-1")),
            ("file_name", text(&file_name)),
        ]);
        let req = parse_request(&request).unwrap();
        assert_eq!(req.audio_bytes, audio);
        assert_eq!(req.model, "tiny_en-1");
        assert_eq!(req.file_name, file_name);
        assert_eq!(req.mime_type, mime_type_for_filename(&file_name));
    }
    let request = payload(vec![("audio_base64", encoded(b"audio")), ("model", text("m")), ("temperature", serde_json::from_str("1").unwrap())]);
    assert_eq!(temperature_of(&parse_request(&request).unwrap()), Some(1.0));
}

#[test]
fn mime_wav() {
    assert_eq!(mime_type_for_filename("recording.wav"), "audio/wav");
}

#[test]
fn mime_webm() {
    assert_eq!(mime_type_for_filename("recording.webm"), "audio/webm");
}

#[test]
fn mime_mp4() {
    assert_eq!(mime_type_for_filename("recording.mp4"), "audio/mp4");
}

#[test]
fn mime_m4a() {
    assert_eq!(mime_type_for_filename("recording.m4a"), "audio/mp4");
}

#[test]
fn mime_ogg() {
    assert_eq!(mime_type_for_filename("recording.ogg"), "audio/ogg");
}

#[test]
fn mime_oga() {
    assert_eq!(mime_type_for_filename("file.oga"), "audio/ogg");
}

#[test]
fn mime_flac() {
    assert_eq!(mime_type_for_filename("recording.flac"), "audio/flac");
}

#[test]
fn mime_mp3() {
    assert_eq!(mime_type_for_filename("recording.mp3"), "audio/mpeg");
}

#[test]
fn mime_unknown_extension() {
    assert_eq!(
        mime_type_for_filename("recording.xyz"),
        "application/octet-stream"
    );
}

#[test]
fn mime_no_extension() {
    assert_eq!(
        mime_type_for_filename("recording"),
        "application/octet-stream"
    );
}

#[test]
fn mime_uses_last_extension() {
    assert_eq!(mime_type_for_filename("a.wav.mp3"), "audio/mpeg");
    assert_eq!(mime_type_for_filename("x."), "application/octet-stream");
}

#[test]
fn parse_response_success() {
    let body = br#"{"text": "hello world"}"#;
    let result = parse_response(200, body).unwrap();
    let expected: serde_json::Value = serde_json::from_str(r#"{"text": "hello world"}"#).unwrap();
    assert_eq!(result, expected);
}

#[test]
fn parse_response_non_200_includes_body() {
    let body = b"failed to read audio data as wav (Unknown error)";
    let err = parse_response(400, body).unwrap_err();
    match err {
        TranscriptionError::ServerError { status, body } => {
            assert_eq!(status, 400);
            assert!(body.contains("failed to read audio data as wav"));
        }
        other => panic!("expected ServerError, got {other:?}"),
    }
}

#[test]
fn parse_response_non_200_empty_body() {
    let err = parse_response(500, b"").unwrap_err();
    assert!(matches!(err, TranscriptionError::ServerError { status: 500, .. }));
}

#[test]
fn parse_response_non_200_truncates_long_body() {
    let body = "x".repeat(1000);
    let err = parse_response(502, body.as_bytes()).unwrap_err();
    match err {
        TranscriptionError::ServerError { body: b, .. } => {
            assert!(b.len() <= MAX_ERROR_BODY_LEN + 3);
            assert!(b.ends_with("..."));
            assert_eq!(b.len(), MAX_ERROR_BODY_LEN + 3);
        }
        other => panic!("expected ServerError, got {other:?}"),
    }
}

#[test]
fn parse_response_non_200_truncates_at_char_boundary() {
    let body = "\u{1F525}".repeat(129);
    let err = parse_response(500, body.as_bytes()).unwrap_err();
    match err {
        TranscriptionError::ServerError { body: b, .. } => {
            assert!(b.ends_with("..."));
            let without_dots = &b[..b.len() - 3];
            assert!(without_dots.chars().all(|c| c == '\u{1F525}'));
            assert_eq!(without_dots.chars().count(), 128);
        }
        other => panic!("expected ServerError, got {other:?}"),
    }
}

#[test]
fn parse_response_200_invalid_json() {
    let err = parse_response(200, b"not json").unwrap_err();
    assert!(matches!(err, TranscriptionError::InvalidResponse(ref d) if d.ends_with("(body: not json)")));
}

#[test]
fn parse_response_200_empty_body() {
    let err = parse_response(200, b"").unwrap_err();
    assert!(matches!(err, TranscriptionError::InvalidResponse(_)));
}

#[test]
fn truncate_str_keeps_short_text_and_cuts_long_text() {
    assert_eq!(truncate_str("abc", 3), "abc");
    assert_eq!(truncate_str("abcd", 3), "abc...");
    assert_eq!(truncate_str("h\u{e9}llo", 2), "h...");
    assert_eq!(truncate_str("", 0), "");
}

#[test]
fn transcription_errors_have_messages() {
    assert_eq!(TranscriptionError::MissingField("model").message(), "missing required field: model");
    assert_eq!(
        TranscriptionError::ServerError { status: 503, body: "busy".into() }.message(),
        "whisper server returned status 503: busy"
    );
    assert_eq!(TranscriptionError::EmptyAudio.message(), "audio data is empty");
}

#[test]
fn a_name_without_a_dot_has_no_extension() {
    assert_eq!(mime_type_for_filename("wav"), "application/octet-stream");
    assert_eq!(mime_type_for_filename(".wav"), "audio/wav");
    assert_eq!(mime_type_for_filename("a.b.mp3"), "audio/mpeg");
}
