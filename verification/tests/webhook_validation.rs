use soroscope_core::webhook_validation::{
    check_headers, header_text, resolve_secret, timestamp_is_fresh, verify_signature,
    InboundHeaders, InboundWebhookSecret, ValidatedWebhook, WebhookValidationError,
    MAX_TIMESTAMP_SKEW_SECS,
};
use soroscope_core::webhooks::{sign, DELIVERY_HEADER, SIGNATURE_HEADER, TIMESTAMP_HEADER};
use std::sync::Arc;
use std::time::{SystemTime, UNIX_EPOCH};

const SECRET: &str = "a-secret-that-is-at-least-thirty-two-bytes";
const BODY: &[u8] = br#"{"event":"transfer","amount":"42"}"#;

fn now_secs() -> u64 {
    SystemTime::now().duration_since(UNIX_EPOCH).unwrap().as_secs()
}

fn now_str() -> String {
    now_secs().to_string()
}

fn configured() -> Option<InboundWebhookSecret> {
    Some(InboundWebhookSecret(Arc::new(SECRET.to_string())))
}

fn headers(timestamp: Option<&str>, signature: Option<&str>, delivery: Option<&str>) -> InboundHeaders {
    InboundHeaders {
        timestamp: timestamp.map(|v| v.as_bytes().to_vec()),
        signature: signature.map(|v| v.as_bytes().to_vec()),
        delivery: delivery.map(|v| v.as_bytes().to_vec()),
    }
}

#[test]
fn valid_signature_is_accepted() {
    let ts = now_str();
    let sig = format!("sha256={}", sign(SECRET, &ts, BODY));
    assert!(verify_signature(SECRET, &ts, BODY, &sig));
}

#[test]
fn signature_with_wrong_body_is_rejected() {
    let ts = now_str();
    let sig = format!("sha256={}", sign(SECRET, &ts, BODY));
    assert!(!verify_signature(SECRET, &ts, b"tampered", &sig));
}

#[test]
fn signature_with_wrong_timestamp_is_rejected() {
    let ts = now_str();
    let sig = format!("sha256={}", sign(SECRET, &ts, BODY));
    assert!(!verify_signature(SECRET, "0", BODY, &sig));
}

#[test]
fn signature_with_wrong_secret_is_rejected() {
    let ts = now_str();
    let sig = format!("sha256={}", sign(SECRET, &ts, BODY));
    let wrong_secret = "wrong-secret-that-is-at-least-thirty-two-bytes";
    assert!(!verify_signature(wrong_secret, &ts, BODY, &sig));
}

#[test]
fn extractor_accepts_valid_signature() {
    let ts = now_str();
    let sig = format!("sha256={}", sign(SECRET, &ts, BODY));
    let request = headers(Some(&ts), Some(&sig), Some("some-uuid"));
    let accepted =
        ValidatedWebhook::from_request(&configured(), None, &request, now_secs(), Some(BODY.to_vec()));
    match accepted {
        Ok(ValidatedWebhook(body)) => assert_eq!(body, BODY),
        Err(error) => panic!("refused: {error:?}"),
    }
}

#[test]
fn extractor_rejects_missing_headers() {
    let ts = now_str();
    let sig = format!("sha256={}", sign(SECRET, &ts, BODY));
    let cases = [
        (headers(Some(&ts), None, Some("some-uuid")), SIGNATURE_HEADER),
        (headers(Some(&ts), Some(&sig), None), DELIVERY_HEADER),
        (headers(None, Some(&sig), Some("some-uuid")), TIMESTAMP_HEADER),
        (headers(None, None, None), TIMESTAMP_HEADER),
    ];
    for (request, missing) in cases {
        let refused = ValidatedWebhook::from_request(
            &configured(),
            None,
            &request,
            now_secs(),
            Some(BODY.to_vec()),
        );
        let error = refused.err().expect("refused");
        assert!(matches!(error, WebhookValidationError::MissingHeader(name) if name == missing));
        let (status, text) = error.into_response();
        assert_eq!(status, 400);
        assert_eq!(text, format!("Missing required header: {missing}"));
    }
}

#[test]
fn extractor_rejects_expired_timestamp() {
    let expired_ts = (now_secs() - MAX_TIMESTAMP_SKEW_SECS - 10).to_string();
    let sig = format!("sha256={}", sign(SECRET, &expired_ts, BODY));
    let request = headers(Some(&expired_ts), Some(&sig), Some("some-uuid"));
    let refused = ValidatedWebhook::from_request(
        &configured(),
        None,
        &request,
        now_secs(),
        Some(BODY.to_vec()),
    );
    let (status, text) = refused.err().expect("refused").into_response();
    assert_eq!(status, 401);
    assert_eq!(text, "Request timestamp expired (max skew: 300s)");
}

#[test]
fn signature_is_the_documented_code() {
    assert_eq!(
        sign(SECRET, "1700000000", BODY),
        "a1c4923beba07e02235711efe940148d9d78a3441ae0564a814abb79941a4ba4"
    );
    assert_eq!(
        sign("key", "0", b""),
        "85841b4efc3cd7776c3c8f9b7cca9e281c550e5d19889d78e9e669c6337f000d"
    );
    assert!(verify_signature(
        SECRET,
        "1700000000",
        BODY,
        "sha256=A1C4923BEBA07E02235711EFE940148D9D78A3441AE0564A814ABB79941A4BA4"
    ));
}

#[test]
fn malformed_signatures_are_rejected() {
    let digits = sign(SECRET, "5", BODY);
    for signature in [
        digits.clone(),
        format!("SHA256={digits}"),
        format!("sha256={}", &digits[..62]),
        format!("sha256={}", &digits[..63]),
        format!("sha256={digits}00"),
        format!("sha256={}zz", &digits[..62]),
        "sha256=".to_string(),
        String::new(),
    ] {
        assert!(!verify_signature(SECRET, "5", BODY, &signature), "{signature}");
    }
}

#[test]
fn timestamps_are_fresh_within_the_skew_on_both_sides() {
    assert!(timestamp_is_fresh(1_000, 700));
    assert!(!timestamp_is_fresh(1_000, 699));
    assert!(timestamp_is_fresh(1_000, 1_300));
    assert!(!timestamp_is_fresh(1_000, 1_301));
    assert!(timestamp_is_fresh(0, 0));
    assert!(!timestamp_is_fresh(0, u64::MAX));
    assert!(!timestamp_is_fresh(u64::MAX, 0));
}

#[test]
fn timestamp_must_be_a_number() {
    for (text, expected) in [
        ("soon", 400),
        ("", 400),
        ("-5", 400),
        ("1 ", 400),
        ("+", 400),
        ("18446744073709551616", 400),
        ("18446744073709551615", 401),
        ("0", 401),
    ] {
        let request = headers(Some(text), Some("sha256=00"), Some("d"));
        let refused = check_headers(&configured(), None, &request, 1_000_000);
        let (status, answer) = refused.err().expect("refused").into_response();
        assert_eq!(status, expected, "{text}");
        if status == 400 {
            assert_eq!(answer, "Invalid timestamp header value");
        }
    }
    let request = headers(Some("+1000000"), Some("sha256=00"), Some("d"));
    assert!(check_headers(&configured(), None, &request, 1_000_000).is_ok());
}

#[test]
fn bad_signature_and_unread_body_are_refused() {
    let request = headers(Some("50"), Some("sha256=00"), Some("d"));
    let refused = ValidatedWebhook::from_request(&configured(), None, &request, 50, Some(vec![1]));
    let (status, text) = refused.err().expect("refused").into_response();
    assert_eq!((status, text.as_str()), (401, "Webhook signature verification failed"));

    let unread = ValidatedWebhook::from_request(&configured(), None, &request, 50, None);
    let (status, text) = unread.err().expect("refused").into_response();
    assert_eq!((status, text.as_str()), (400, "Failed to read request body"));
}

#[test]
fn secret_comes_from_configuration_or_a_long_environment_value() {
    let short = Some(InboundWebhookSecret(Arc::new("short".to_string())));
    let long = "x".repeat(32);
    assert_eq!(resolve_secret(&short, Some(long.clone())).unwrap(), "short");
    assert_eq!(resolve_secret(&None, Some(long.clone())).unwrap(), long);
    // Sixteen characters of two bytes each are long enough.
    assert!(resolve_secret(&None, Some("\u{e9}".repeat(16))).is_ok());
    for environment in [None, Some("x".repeat(31)), Some("\u{e9}".repeat(15))] {
        let (status, text) = resolve_secret(&None, environment).unwrap_err().into_response();
        assert_eq!((status, text.as_str()), (500, "Inbound webhook secret not configured"));
    }
}

#[test]
fn missing_secret_is_reported_before_missing_headers() {
    let refused = check_headers(&None, None, &headers(None, None, None), 0);
    assert!(matches!(refused.err(), Some(WebhookValidationError::MissingSecret)));
}

#[test]
fn header_values_are_visible_ascii() {
    assert_eq!(header_text(&Some(b"a\tb ~".to_vec())).as_deref(), Some("a\tb ~"));
    assert_eq!(header_text(&Some(Vec::new())).as_deref(), Some(""));
    assert_eq!(header_text(&Some(vec![0x7f])), None);
    assert_eq!(header_text(&Some(vec![b'a', 0x1f])), None);
    assert_eq!(header_text(&Some("\u{e9}".as_bytes().to_vec())), None);
    assert_eq!(header_text(&None), None);
}

#[test]
fn unreadable_headers_are_not_missing() {
    let sig = format!("sha256={}", sign(SECRET, "50", BODY));
    let mut request = headers(None, Some(&sig), Some("d"));
    request.timestamp = Some(vec![0xff]);
    let refused =
        ValidatedWebhook::from_request(&configured(), None, &request, 50, Some(BODY.to_vec()));
    assert!(matches!(refused.err(), Some(WebhookValidationError::InvalidTimestamp)));
    request.delivery = None;
    let refused = check_headers(&configured(), None, &request, 50);
    assert!(matches!(
        refused.err(),
        Some(WebhookValidationError::MissingHeader(name)) if name == DELIVERY_HEADER
    ));

    let mut request = headers(Some("50"), None, Some("d"));
    request.signature = Some(vec![0xff]);
    let refused =
        ValidatedWebhook::from_request(&configured(), None, &request, 50, Some(BODY.to_vec()));
    assert!(matches!(refused.err(), Some(WebhookValidationError::InvalidSignature)));
    let unread = ValidatedWebhook::from_request(&configured(), None, &request, 50, None);
    assert!(matches!(unread.err(), Some(WebhookValidationError::BodyReadError)));
}

#[test]
fn delivery_header_needs_no_text() {
    let sig = format!("sha256={}", sign(SECRET, "50", BODY));
    let mut request = headers(Some("50"), Some(&sig), None);
    request.delivery = Some(vec![0xff]);
    assert!(ValidatedWebhook::from_request(&configured(), None, &request, 50, Some(BODY.to_vec())).is_ok());
    // The same request is refused once its time has passed.
    let late = ValidatedWebhook::from_request(&configured(), None, &request, 351, Some(BODY.to_vec()));
    assert!(matches!(late.err(), Some(WebhookValidationError::TimestampExpired)));
}
