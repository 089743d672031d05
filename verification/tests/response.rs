use base64::Engine;
use base64::engine::general_purpose::STANDARD;
use serde_json::Value;

use stability_image::error::ProviderError;
use stability_image::response::{
    decode_parts, decode_response, map_status_error, mime_for_output_format, read_answer,
    status_error,
};

fn object(members: &[(&str, &str)]) -> Value {
    let mut map = serde_json::Map::new();
    for (name, text) in members {
        map.insert(name.to_string(), Value::String(text.to_string()));
    }
    Value::Object(map)
}

fn parse(text: &str) -> Value {
    serde_json::from_str(text).unwrap()
}

#[test]
fn decode_response_parses_b64_image() {
    let payload = b"hello image bytes";
    let b64 = STANDARD.encode(payload);
    let mut raw = object(&[("image", &b64), ("finish_reason", "SUCCESS")]);
    raw.as_object_mut().unwrap().insert("seed".to_string(), Value::from(42));
    let r = decode_response(&raw, "png").unwrap();
    assert_eq!(r.images.len(), 1);
    assert_eq!(AsRef::<[u8]>::as_ref(&r.images[0].bytes), payload);
    assert_eq!(r.images[0].mime_type, "image/png");
    assert!(r.images[0].revised_prompt.is_none());
}

#[test]
fn decode_response_uses_jpeg_mime_when_format_is_jpeg() {
    let payload = b"x";
    let b64 = STANDARD.encode(payload);
    let raw = object(&[("image", &b64), ("finish_reason", "SUCCESS")]);
    let r = decode_response(&raw, "jpeg").unwrap();
    assert_eq!(r.images[0].mime_type, "image/jpeg");
}

#[test]
fn decode_response_uses_webp_mime_when_format_is_webp() {
    let payload = b"x";
    let b64 = STANDARD.encode(payload);
    let raw = object(&[("image", &b64), ("finish_reason", "SUCCESS")]);
    let r = decode_response(&raw, "webp").unwrap();
    assert_eq!(r.images[0].mime_type, "image/webp");
}

#[test]
fn decode_response_surfaces_content_filtered_as_bad_request() {
    let raw = object(&[("image", ""), ("finish_reason", "CONTENT_FILTERED")]);
    let err = decode_response(&raw, "png").unwrap_err();
    match err {
        ProviderError::BadRequest { message } => {
            assert!(message.contains("content filtered"), "{message}")
        }
        other => panic!("expected BadRequest, got {other:?}"),
    }
}

#[test]
fn decode_response_rejects_missing_image_field() {
    let raw = object(&[("finish_reason", "SUCCESS")]);
    let err = decode_response(&raw, "png").unwrap_err();
    assert!(matches!(err, ProviderError::Malformed { .. }));
}

#[test]
fn decode_response_rejects_undecodable_base64() {
    let raw = object(&[("image", "!!!not-base64!!!"), ("finish_reason", "SUCCESS")]);
    let err = decode_response(&raw, "png").unwrap_err();
    assert!(matches!(err, ProviderError::Malformed { .. }));
}

#[test]
fn map_status_429_rate_limited() {
    let e = map_status_error(429, b"slow down");
    assert!(matches!(e, ProviderError::RateLimited { .. }));
}

#[test]
fn map_status_401_auth_failed() {
    let e = map_status_error(401, b"bad key");
    assert!(matches!(e, ProviderError::AuthFailed { .. }));
}

#[test]
fn map_status_extracts_first_error_from_envelope() {
    let body = br#"{"errors": ["prompt is too long", "second error"]}"#;
    let e = map_status_error(400, body);
    match e {
        ProviderError::BadRequest { message } => {
            assert_eq!(message, "prompt is too long");
        }
        other => panic!("expected BadRequest, got {other:?}"),
    }
}

#[test]
fn map_status_falls_back_to_raw_body_when_no_errors_field() {
    let body = b"upstream meltdown";
    let e = map_status_error(500, body);
    match e {
        ProviderError::Server { message } => {
            assert_eq!(message, "upstream meltdown");
        }
        other => panic!("expected Server, got {other:?}"),
    }
}

#[test]
fn decoding_gives_back_every_length() {
    for n in 0..70usize {
        let payload: Vec<u8> = (0..n).map(|i| (i * 37 + n * 11) as u8).collect();
        let b64 = STANDARD.encode(&payload);
        let r = decode_parts(None, Some(&b64), "png").unwrap();
        assert_eq!(r.images.len(), 1);
        assert_eq!(r.images[0].bytes, payload);
    }
}

#[test]
fn base64_must_be_canonical() {
    for text in ["aGVsbG8", "aGVsbA=", "aGVsbB==", "aGVs bA==", "aGVsbA==\n", "-_-_", "=", "a==="] {
        let e = decode_parts(None, Some(text), "png").unwrap_err();
        let fault = STANDARD.decode(text).unwrap_err();
        assert_eq!(
            e,
            ProviderError::Malformed { message: format!("decode image base64: {fault}") }
        );
    }
}

#[test]
fn filtered_in_any_case_and_with_an_image() {
    for reason in ["CONTENT_FILTERED", "content_filtered", "Content_Filtered"] {
        let e = decode_parts(Some(reason), Some("aGVs"), "png").unwrap_err();
        assert_eq!(
            e,
            ProviderError::BadRequest { message: "content filtered by provider".to_string() }
        );
    }
    assert!(decode_parts(Some(" CONTENT_FILTERED"), Some("aGVs"), "png").is_ok());
    assert!(decode_parts(Some("ERROR"), Some("aGVs"), "png").is_ok());
    assert!(decode_parts(None, Some(""), "png").unwrap().images[0].bytes.is_empty());
}

#[test]
fn members_that_are_no_strings_do_not_count() {
    let missing = ProviderError::Malformed {
        message: "image response missing `image` (base64) field".to_string(),
    };
    for text in ["{\"image\": 7}", "{\"image\": [\"aGVs\"]}", "[\"image\"]", "null", "\"image\""] {
        assert_eq!(decode_response(&parse(text), "png").unwrap_err(), missing);
    }
    let r = decode_response(&parse("{\"image\": \"aGVs\", \"finish_reason\": 3}"), "png").unwrap();
    assert_eq!(r.images[0].bytes, b"hel");
}

#[test]
fn mime_types() {
    assert_eq!(mime_for_output_format("jpeg"), "image/jpeg");
    assert_eq!(mime_for_output_format(" JPG\n"), "image/jpeg");
    assert_eq!(mime_for_output_format("WebP"), "image/webp");
    assert_eq!(mime_for_output_format("png"), "image/png");
    assert_eq!(mime_for_output_format("gif"), "image/png");
    assert_eq!(mime_for_output_format(""), "image/png");
}

#[test]
fn every_status_is_sorted() {
    for status in 100u16..=999 {
        let e = status_error(status, "m".to_string());
        let expected = match status {
            401 | 403 => ProviderError::AuthFailed { message: "m".to_string() },
            429 => ProviderError::RateLimited { message: "m".to_string() },
            400..=499 => ProviderError::BadRequest { message: "m".to_string() },
            500..=599 => ProviderError::Server { message: "m".to_string() },
            _ => {
                let line = reqwest::StatusCode::from_u16(status).unwrap();
                ProviderError::Network { message: format!("unexpected status {line}: m") }
            }
        };
        assert_eq!(e, expected);
    }
    assert_eq!(
        status_error(302, "m".to_string()).message(),
        "unexpected status 302 Found: m"
    );
    assert_eq!(
        status_error(777, "m".to_string()).message(),
        "unexpected status 777 <unknown status code>: m"
    );
}

#[test]
fn envelopes_that_name_no_error_are_shown_whole() {
    for body in [
        "{\"errors\": []}",
        "{\"errors\": [1, \"x\"]}",
        "{\"errors\": \"x\"}",
        "{\"errors\": {\"0\": \"x\"}}",
        "[\"x\"]",
        "{\"error\": [\"x\"]}",
        "",
    ] {
        assert_eq!(map_status_error(422, body.as_bytes()).message(), body);
    }
    assert_eq!(map_status_error(500, b"a\xffb").message(), "a\u{fffd}b");
}

#[test]
fn answers_are_read_by_status() {
    let ok = b"{\"image\": \"aGVs\"}";
    assert_eq!(read_answer(200, ok, "webp").unwrap().images[0].bytes, b"hel");
    assert_eq!(read_answer(299, ok, "webp").unwrap().images[0].mime_type, "image/webp");
    assert!(matches!(read_answer(199, ok, "png"), Err(ProviderError::Network { .. })));
    assert!(matches!(read_answer(300, ok, "png"), Err(ProviderError::Network { .. })));
    assert!(matches!(read_answer(403, ok, "png"), Err(ProviderError::AuthFailed { .. })));
    let fault = serde_json::from_slice::<Value>(b"{oops").unwrap_err();
    assert_eq!(
        read_answer(200, b"{oops", "png").unwrap_err(),
        ProviderError::Malformed { message: format!("parse response json: {fault}") }
    );
}
