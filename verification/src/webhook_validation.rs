//! HMAC-SHA256 signature validation for inbound webhook calls.
//!
//! Each inbound request carries three headers: the signature, `sha256=` and the
//! code in hexadecimal; the Unix time of the request in seconds; and a delivery
//! identifier, of which only the presence matters. The code is taken over the
//! timestamp, a dot and the raw body under a shared secret.
//!
//! A timestamp that is more than [`MAX_TIMESTAMP_SKEW_SECS`] away from the
//! server's clock is refused, which bounds how long a signature can be replayed.

use crate::text::decimal_text;
use crate::text::parse_u64;
use crate::text::strip_prefix;
use crate::webhooks::hex_decode;
use crate::webhooks::hmac_verify;
use crate::webhooks::DELIVERY_HEADER;
use crate::webhooks::SIGNATURE_HEADER;
use crate::webhooks::TIMESTAMP_HEADER;
use std::sync::Arc;
use vstd::prelude::*;

verus! {

/// Largest accepted distance, in seconds, between the timestamp of a request
/// and the server's clock, in either direction.
pub const MAX_TIMESTAMP_SKEW_SECS: u64 = 300;

/// Fewest bytes that a secret from the environment may have.
pub const MIN_ENVIRONMENT_SECRET_BYTES: usize = 32;

/// The shared secret that the server was configured with.
pub struct InboundWebhookSecret(pub Arc<String>);

impl Clone for InboundWebhookSecret {
    fn clone(&self) -> (r: InboundWebhookSecret)
        ensures
            r == *self,
    {
        InboundWebhookSecret(self.0.clone())
    }
}

/// The body of a request whose signature was found valid.
pub struct ValidatedWebhook(pub Vec<u8>);

/// Errors that can occur during inbound webhook signature validation.
#[derive(Debug)]
pub enum WebhookValidationError {
    /// A required header was absent.
    MissingHeader(&'static str),
    /// The timestamp header value could not be parsed as a `u64`.
    InvalidTimestamp,
    /// The timestamp is outside the skew window.
    TimestampExpired,
    /// The HMAC signature verification failed.
    InvalidSignature,
    /// The request body could not be read.
    BodyReadError,
    /// The shared secret is not configured.
    MissingSecret,
}

impl WebhookValidationError {
    /// The HTTP status that the error is answered with.
    pub open spec fn status(self) -> u16 {
        match self {
            WebhookValidationError::MissingHeader(_) => 400,
            WebhookValidationError::InvalidTimestamp => 400,
            WebhookValidationError::TimestampExpired => 401,
            WebhookValidationError::InvalidSignature => 401,
            WebhookValidationError::BodyReadError => 400,
            WebhookValidationError::MissingSecret => 500,
        }
    }

    /// The text that the error is answered with.
    pub open spec fn text(self) -> Seq<char> {
        match self {
            WebhookValidationError::MissingHeader(name) => "Missing required header: "@ + name@,
            WebhookValidationError::InvalidTimestamp => "Invalid timestamp header value"@,
            WebhookValidationError::TimestampExpired => "Request timestamp expired (max skew: "@
                + crate::text::decimal(MAX_TIMESTAMP_SKEW_SECS as nat) + "s)"@,
            WebhookValidationError::InvalidSignature => "Webhook signature verification failed"@,
            WebhookValidationError::BodyReadError => "Failed to read request body"@,
            WebhookValidationError::MissingSecret => "Inbound webhook secret not configured"@,
        }
    }

    /// The status code and the text of the response to a refused request.
    pub fn into_response(self) -> (r: (u16, String))
        ensures
            r.0 == self.status(),
            r.1@ == self.text(),
    {
        match self {
            WebhookValidationError::MissingHeader(name) => (
                400,
                "Missing required header: ".to_owned().concat(name),
            ),
            WebhookValidationError::InvalidTimestamp => (
                400,
                "Invalid timestamp header value".to_owned(),
            ),
            WebhookValidationError::TimestampExpired => (
                401,
                "Request timestamp expired (max skew: ".to_owned().concat(
                    decimal_text(MAX_TIMESTAMP_SKEW_SECS).as_str(),
                ).concat("s)"),
            ),
            WebhookValidationError::InvalidSignature => (
                401,
                "Webhook signature verification failed".to_owned(),
            ),
            WebhookValidationError::BodyReadError => (
                400,
                "Failed to read request body".to_owned(),
            ),
            WebhookValidationError::MissingSecret => (
                500,
                "Inbound webhook secret not configured".to_owned(),
            ),
        }
    }
}

/// Whether `signature` is a signature of the request: `sha256=` and then, in
/// hexadecimal, the code of its timestamp and body under the secret.
pub open spec fn signature_valid(
    secret: Seq<char>,
    timestamp: Seq<char>,
    body: Seq<u8>,
    signature: Seq<char>,
) -> bool {
    let prefix = "sha256="@;
    let digits = signature.skip(prefix.len() as int);
    &&& crate::text::has_prefix(signature, prefix)
    &&& crate::webhooks::is_hex_text(digits)
    &&& crate::webhooks::request_code(secret, timestamp, body) == crate::webhooks::hex_bytes(digits)
}

/// Verifies the signature of a request. A code that is cut short or has anything
/// behind it never passes.
pub fn verify_signature(secret: &str, timestamp: &str, body: &[u8], signature: &str) -> (r: bool)
    ensures
        r == signature_valid(secret@, timestamp@, body@, signature@),
        r ==> signature@.len() == "sha256="@.len() + 2 * crate::webhooks::CODE_BYTES,
{
    let digits = match strip_prefix(signature, "sha256=") {
        Some(digits) => digits,
        None => {
            return false;
        },
    };
    assert(signature@.skip("sha256="@.len() as int) == digits@);
    let tag = match hex_decode(digits) {
        Some(tag) => tag,
        None => {
            return false;
        },
    };
    let dot: [u8; 1] = [0x2e];
    assert(dot@ == seq![0x2eu8]);
    hmac_verify(secret.as_bytes(), timestamp.as_bytes(), &dot, body, tag.as_slice())
}

/// The secret to validate with: the configured one, whatever its length, or
/// else the one from the environment if it is long enough.
pub open spec fn chosen_secret(
    configured: Option<Seq<char>>,
    environment: Option<Seq<char>>,
) -> Option<Seq<char>> {
    match configured {
        Some(secret) => Some(secret),
        None => match environment {
            Some(secret) if vstd::utf8::encode_utf8(secret).len()
                >= MIN_ENVIRONMENT_SECRET_BYTES => Some(secret),
            _ => None,
        },
    }
}

/// The text of an optional string.
pub open spec fn text_of(s: Option<String>) -> Option<Seq<char>> {
    match s {
        Some(s) => Some(s@),
        None => None,
    }
}

/// The text of a configured secret, if there is one.
pub open spec fn configured_text(s: Option<InboundWebhookSecret>) -> Option<Seq<char>> {
    match s {
        Some(s) => Some(s.0@),
        None => None,
    }
}

/// Finds the secret to validate with.
pub fn resolve_secret(
    configured: &Option<InboundWebhookSecret>,
    environment: Option<String>,
) -> (r: Result<String, WebhookValidationError>)
    ensures
        match chosen_secret(configured_text(*configured), text_of(environment)) {
            Some(secret) => r matches Ok(s) && s@ == secret,
            None => r == Err::<String, _>(WebhookValidationError::MissingSecret),
        },
{
    match configured {
        Some(secret) => {
            let text: &String = &secret.0;
            Ok(text.clone())
        },
        None => match environment {
            Some(secret) => {
                if secret.as_str().as_bytes().len() < MIN_ENVIRONMENT_SECRET_BYTES {
                    return Err(WebhookValidationError::MissingSecret);
                }
                Ok(secret)
            },
            None => Err(WebhookValidationError::MissingSecret),
        },
    }
}

/// The validated headers of a request, as the bytes that were received; `None`
/// for a header that is absent.
pub struct InboundHeaders {
    /// Value of the timestamp header.
    pub timestamp: Option<Vec<u8>>,
    /// Value of the signature header.
    pub signature: Option<Vec<u8>>,
    /// Value of the delivery header.
    pub delivery: Option<Vec<u8>>,
}

/// A byte that may stand in the text of a header: visible ASCII, space or tab.
pub open spec fn is_header_byte(b: u8) -> bool {
    32 <= b < 127 || b == 9
}

/// The text of a header value, or `None` where it holds any other byte.
pub open spec fn header_text_of(value: Seq<u8>) -> Option<Seq<char>> {
    if forall|i: int| 0 <= i < value.len() ==> is_header_byte(#[trigger] value[i]) {
        Some(value.map_values(|b: u8| b as char))
    } else {
        None
    }
}

/// The text of an optional header value.
pub open spec fn optional_header_text(value: Option<Vec<u8>>) -> Option<Seq<char>> {
    match value {
        Some(value) => header_text_of(value@),
        None => None,
    }
}

/// Reads a header value as text.
pub fn header_text(value: &Option<Vec<u8>>) -> (r: Option<String>)
    ensures
        text_of(r) == optional_header_text(*value),
{
    let bytes = match value {
        Some(bytes) => bytes,
        None => {
            return None;
        },
    };
    let mut text = String::new();
    for i in 0..bytes.len()
        invariant
            *value == Some(*bytes),
            forall|j: int| 0 <= j < i ==> is_header_byte(#[trigger] bytes@[j]),
            text@ == bytes@.take(i as int).map_values(|b: u8| b as char),
    {
        let b: u8 = bytes[i];
        if !(32 <= b && b < 127 || b == 9) {
            assert(!is_header_byte(bytes@[i as int]));
            return None;
        }
        text.push(b as char);
        assert(text@ == bytes@.take(i + 1).map_values(|b: u8| b as char));
    }
    assert(bytes@.take(bytes@.len() as int) == bytes@);
    Some(text)
}

/// Whether a timestamp is close enough to the clock, in either direction.
pub open spec fn is_fresh(now_secs: u64, timestamp: u64) -> bool {
    -MAX_TIMESTAMP_SKEW_SECS <= now_secs - timestamp <= MAX_TIMESTAMP_SKEW_SECS
}

/// Checks a timestamp against the clock.
pub fn timestamp_is_fresh(now_secs: u64, timestamp: u64) -> (r: bool)
    ensures
        r == is_fresh(now_secs, timestamp),
{
    !(now_secs.saturating_sub(timestamp) > MAX_TIMESTAMP_SKEW_SECS || timestamp.saturating_sub(
        now_secs,
    ) > MAX_TIMESTAMP_SKEW_SECS)
}

/// A request that passed every check that does not need its body.
pub struct PendingWebhook {
    /// The secret to validate with.
    pub secret: String,
    /// The text of the timestamp header.
    pub timestamp: String,
    /// The text of the signature header, if it is text.
    pub signature: Option<String>,
}

/// The number that the timestamp header writes down, if it does.
pub open spec fn request_seconds(headers: InboundHeaders) -> Option<u64> {
    match optional_header_text(headers.timestamp) {
        Some(text) => crate::text::parsed_u64(text),
        None => None,
    }
}

/// Whether the signature header is text and a signature of the request.
pub open spec fn header_authenticates(
    secret: Seq<char>,
    timestamp: Seq<char>,
    body: Seq<u8>,
    signature: Option<Seq<char>>,
) -> bool {
    signature matches Some(text) && signature_valid(secret, timestamp, body, text)
}

/// The first reason to refuse a request without looking at its body, in the
/// order in which the checks are made, or `None` if there is none.
pub open spec fn refusal(
    secret: Option<Seq<char>>,
    headers: InboundHeaders,
    now_secs: u64,
) -> Option<WebhookValidationError> {
    if secret is None {
        Some(WebhookValidationError::MissingSecret)
    } else if headers.timestamp is None {
        Some(WebhookValidationError::MissingHeader(TIMESTAMP_HEADER))
    } else if headers.signature is None {
        Some(WebhookValidationError::MissingHeader(SIGNATURE_HEADER))
    } else if headers.delivery is None {
        Some(WebhookValidationError::MissingHeader(DELIVERY_HEADER))
    } else {
        match request_seconds(headers) {
            None => Some(WebhookValidationError::InvalidTimestamp),
            Some(seconds) => if is_fresh(now_secs, seconds) {
                None
            } else {
                Some(WebhookValidationError::TimestampExpired)
            },
        }
    }
}

/// Makes the checks that do not need the body of a request.
pub fn check_headers(
    configured: &Option<InboundWebhookSecret>,
    environment: Option<String>,
    headers: &InboundHeaders,
    now_secs: u64,
) -> (r: Result<PendingWebhook, WebhookValidationError>)
    ensures
        ({
            let secret = chosen_secret(configured_text(*configured), text_of(environment));
            match refusal(secret, *headers, now_secs) {
                Some(error) => r == Err::<PendingWebhook, _>(error),
                None => {
                    &&& r matches Ok(pending)
                    &&& Some(pending.secret@) == secret
                    &&& Some(pending.timestamp@) == optional_header_text(headers.timestamp)
                    &&& text_of(pending.signature) == optional_header_text(headers.signature)
                },
            }
        }),
{
    let secret = match resolve_secret(configured, environment) {
        Ok(secret) => secret,
        Err(error) => {
            return Err(error);
        },
    };
    if headers.timestamp.is_none() {
        return Err(WebhookValidationError::MissingHeader(TIMESTAMP_HEADER));
    }
    if headers.signature.is_none() {
        return Err(WebhookValidationError::MissingHeader(SIGNATURE_HEADER));
    }
    if headers.delivery.is_none() {
        return Err(WebhookValidationError::MissingHeader(DELIVERY_HEADER));
    }
    let timestamp = match header_text(&headers.timestamp) {
        Some(timestamp) => timestamp,
        None => {
            return Err(WebhookValidationError::InvalidTimestamp);
        },
    };
    let seconds: u64 = match parse_u64(timestamp.as_str()) {
        Some(seconds) => seconds,
        None => {
            return Err(WebhookValidationError::InvalidTimestamp);
        },
    };
    if !timestamp_is_fresh(now_secs, seconds) {
        return Err(WebhookValidationError::TimestampExpired);
    }
    let signature = header_text(&headers.signature);
    Ok(PendingWebhook { secret, timestamp, signature })
}

impl PendingWebhook {
    /// Decides on the request once its body was read, or failed to be read.
    pub fn finish(self, body: Option<Vec<u8>>) -> (r: Result<
        ValidatedWebhook,
        WebhookValidationError,
    >)
        ensures
            match body {
                None => r == Err::<ValidatedWebhook, _>(WebhookValidationError::BodyReadError),
                Some(body) => if header_authenticates(
                    self.secret@,
                    self.timestamp@,
                    body@,
                    text_of(self.signature),
                ) {
                    r == Ok::<_, WebhookValidationError>(ValidatedWebhook(body))
                } else {
                    r == Err::<ValidatedWebhook, _>(WebhookValidationError::InvalidSignature)
                },
            },
    {
        match body {
            None => Err(WebhookValidationError::BodyReadError),
            Some(body) => {
                let authentic = match &self.signature {
                    Some(signature) => verify_signature(
                        self.secret.as_str(),
                        self.timestamp.as_str(),
                        body.as_slice(),
                        signature.as_str(),
                    ),
                    None => false,
                };
                if !authentic {
                    return Err(WebhookValidationError::InvalidSignature);
                }
                Ok(ValidatedWebhook(body))
            },
        }
    }
}

/// What validating a request comes to: its body, or the first reason to refuse
/// it.
pub open spec fn validation(
    secret: Option<Seq<char>>,
    headers: InboundHeaders,
    now_secs: u64,
    body: Option<Vec<u8>>,
) -> Result<ValidatedWebhook, WebhookValidationError> {
    match refusal(secret, headers, now_secs) {
        Some(error) => Err(error),
        None => match body {
            None => Err(WebhookValidationError::BodyReadError),
            Some(body) => if header_authenticates(
                secret->0,
                optional_header_text(headers.timestamp)->0,
                body@,
                optional_header_text(headers.signature),
            ) {
                Ok(ValidatedWebhook(body))
            } else {
                Err(WebhookValidationError::InvalidSignature)
            },
        },
    }
}

impl ValidatedWebhook {
    /// Validates a request whose body was read beforehand.
    pub fn from_request(
        configured: &Option<InboundWebhookSecret>,
        environment: Option<String>,
        headers: &InboundHeaders,
        now_secs: u64,
        body: Option<Vec<u8>>,
    ) -> (r: Result<ValidatedWebhook, WebhookValidationError>)
        ensures
            r == validation(
                chosen_secret(configured_text(*configured), text_of(environment)),
                *headers,
                now_secs,
                body,
            ),
    {
        match check_headers(configured, environment, headers, now_secs) {
            Ok(pending) => pending.finish(body),
            Err(error) => Err(error),
        }
    }
}

/// The signature header of a request that was signed with the same secret,
/// timestamp and body is valid.
pub proof fn signed_request_is_valid(secret: Seq<char>, timestamp: Seq<char>, body: Seq<u8>)
    ensures
        signature_valid(
            secret,
            timestamp,
            body,
            "sha256="@ + crate::webhooks::hex_text(
                crate::webhooks::request_code(secret, timestamp, body),
            ),
        ),
{
    let code = crate::webhooks::request_code(secret, timestamp, body);
    let signature = "sha256="@ + crate::webhooks::hex_text(code);
    let n = "sha256="@.len() as int;
    crate::webhooks::hex_round_trip(code);
    assert(signature.take(n) == "sha256="@);
    assert(signature.skip(n) == crate::webhooks::hex_text(code));
}

/// A request is accepted exactly when there is a secret, every header is
/// there, the timestamp is a number close to the clock, the body was read and
/// the signature is valid; what is accepted is the body itself.
pub proof fn accepted_exactly_when_authentic(
    secret: Option<Seq<char>>,
    headers: InboundHeaders,
    now_secs: u64,
    body: Option<Vec<u8>>,
)
    ensures
        validation(secret, headers, now_secs, body) is Ok <==> {
            &&& secret is Some
            &&& headers.delivery is Some
            &&& optional_header_text(headers.timestamp) matches Some(timestamp)
            &&& optional_header_text(headers.signature) matches Some(signature)
            &&& crate::text::parsed_u64(timestamp) matches Some(seconds)
            &&& is_fresh(now_secs, seconds)
            &&& body matches Some(bytes)
            &&& signature_valid(secret->0, timestamp, bytes@, signature)
        },
        validation(secret, headers, now_secs, body) matches Ok(accepted) ==> Some(accepted.0)
            == body,
{
}

/// A request is refused for a missing header only if that header is absent. A
/// header that is there but cannot be read is answered as an invalid timestamp or
/// an invalid signature.
pub proof fn missing_header_is_absent(
    secret: Option<Seq<char>>,
    headers: InboundHeaders,
    now_secs: u64,
    body: Option<Vec<u8>>,
)
    ensures
        validation(secret, headers, now_secs, body) matches Err(
            WebhookValidationError::MissingHeader(name),
        ) ==> {
            ||| name == TIMESTAMP_HEADER && headers.timestamp is None
            ||| name == SIGNATURE_HEADER && headers.signature is None
            ||| name == DELIVERY_HEADER && headers.delivery is None
        },
        secret is Some && (headers.timestamp is None || headers.signature is None
            || headers.delivery is None) ==> validation(secret, headers, now_secs, body) matches Err(
            WebhookValidationError::MissingHeader(_),
        ),
{
}

/// An accepted request that is sent again, unchanged, when the clock is past
/// its timestamp by more than the allowed skew is refused as expired.
pub proof fn late_replay_is_refused(
    secret: Option<Seq<char>>,
    headers: InboundHeaders,
    now_secs: u64,
    later_secs: u64,
    body: Option<Vec<u8>>,
)
    requires
        validation(secret, headers, now_secs, body) is Ok,
        later_secs > request_seconds(headers)->0 + MAX_TIMESTAMP_SKEW_SECS,
    ensures
        validation(secret, headers, later_secs, body) == Err::<ValidatedWebhook, _>(
            WebhookValidationError::TimestampExpired,
        ),
{
}

/// `c` is the hexadecimal digit, in either case, for a value below 16.
pub open spec fn writes_digit(c: char, v: int) -> bool {
    ||| '0' <= c <= '9' && v == c as int - '0' as int
    ||| 'a' <= c <= 'f' && v == c as int - 'a' as int + 10
    ||| 'A' <= c <= 'F' && v == c as int - 'A' as int + 10
}

/// A signature passes exactly if it is `sha256=` and the 64 hexadecimal digits of
/// the code over the timestamp, a dot and the whole body, under the secret.
pub proof fn signature_check_is_exact(
    secret: &str,
    timestamp: &str,
    body: &[u8],
    signature: &str,
    r: bool,
    message: Seq<u8>,
)
    requires
        call_ensures(verify_signature, (secret, timestamp, body, signature), r),
        message.len() == vstd::utf8::encode_utf8(timestamp@).len() + 1 + body@.len(),
        forall|i: int|
            0 <= i < vstd::utf8::encode_utf8(timestamp@).len() ==> message[i]
                == vstd::utf8::encode_utf8(timestamp@)[i],
        message[vstd::utf8::encode_utf8(timestamp@).len() as int] == 0x2e,
        forall|i: int|
            0 <= i < body@.len() ==> message[vstd::utf8::encode_utf8(timestamp@).len() + 1 + i]
                == body@[i],
    ensures
        ({
            let code = crate::webhooks::hmac_sha256(vstd::utf8::encode_utf8(secret@), message);
            r <==> {
                &&& signature@.len() == 71 && code.len() == 32
                &&& signature@.take(7) == "sha256="@
                &&& forall|i: int|
                    0 <= i < 32 ==> writes_digit(
                        signature@[7 + 2 * i],
                        (#[trigger] code[i]) as int / 16,
                    ) && writes_digit(signature@[7 + 2 * i + 1], code[i] as int % 16)
            }
        }),
{
    reveal_strlit("sha256=");
    crate::webhooks::lemma_spelled_message(message, timestamp@, body@);
    let code = crate::webhooks::hmac_sha256(vstd::utf8::encode_utf8(secret@), message);
    let digits = signature@.skip(7);
    let spelled = {
        &&& signature@.len() == 71 && code.len() == 32
        &&& signature@.take(7) == "sha256="@
        &&& forall|i: int|
            0 <= i < 32 ==> writes_digit(signature@[7 + 2 * i], (#[trigger] code[i]) as int / 16)
                && writes_digit(signature@[7 + 2 * i + 1], code[i] as int % 16)
    };
    if r {
        assert(digits.len() == 64);
        assert(crate::webhooks::hex_bytes(digits).len() == 32);
        assert forall|i: int| 0 <= i < 32 implies writes_digit(
            signature@[7 + 2 * i],
            (#[trigger] code[i]) as int / 16,
        ) && writes_digit(signature@[7 + 2 * i + 1], code[i] as int % 16) by {
            assert(digits[2 * i] == signature@[7 + 2 * i]);
            assert(digits[2 * i + 1] == signature@[7 + 2 * i + 1]);
            assert(crate::webhooks::hex_value(digits[2 * i]) is Some);
            assert(crate::webhooks::hex_value(digits[2 * i + 1]) is Some);
            let high = crate::webhooks::hex_value(digits[2 * i])->0;
            let low = crate::webhooks::hex_value(digits[2 * i + 1])->0;
            assert(high < 16 && low < 16);
            assert(code[i] == high * 16 + low);
        }
    }
    if spelled {
        assert(digits.len() == 64);
        assert forall|k: int| 0 <= k < 64 implies crate::webhooks::hex_value(
            #[trigger] digits[k],
        ) is Some by {
            let i = k / 2;
            assert(writes_digit(signature@[7 + 2 * i], code[i] as int / 16));
            assert(digits[k] == signature@[7 + k]);
        }
        assert forall|i: int| 0 <= i < 32 implies code[i] == crate::webhooks::hex_bytes(
            digits,
        )[i] by {
            assert(writes_digit(signature@[7 + 2 * i], code[i] as int / 16));
            assert(digits[2 * i] == signature@[7 + 2 * i]);
            assert(digits[2 * i + 1] == signature@[7 + 2 * i + 1]);
        }
        assert(code =~= crate::webhooks::hex_bytes(digits));
    }
}

/// A request that was signed with the same secret, timestamp and body passes the
/// check of its signature.
pub proof fn signed_requests_pass(
    secret: &str,
    timestamp: &str,
    body: &[u8],
    code: String,
    signature: &str,
    r: bool,
)
    requires
        call_ensures(crate::webhooks::sign, (secret, timestamp, body), code),
        signature@ == "sha256="@ + code@,
        call_ensures(verify_signature, (secret, timestamp, body, signature), r),
    ensures
        r,
{
    signed_request_is_valid(secret@, timestamp@, body@);
}

/// A timestamp is accepted up to 300 seconds before and after the clock.
pub proof fn window_is_five_minutes(now_secs: u64, timestamp: u64, r: bool)
    requires
        call_ensures(timestamp_is_fresh, (now_secs, timestamp), r),
    ensures
        r <==> timestamp <= now_secs + 300 && now_secs <= timestamp + 300,
{
}

/// `text` is the characters of some bytes, all of them visible ASCII, space or tab.
pub open spec fn reads_as(bytes: Seq<u8>, text: Seq<char>) -> bool {
    &&& text.len() == bytes.len()
    &&& forall|i: int|
        0 <= i < bytes.len() ==> text[i] as int == (#[trigger] bytes[i]) as int && (32 <= bytes[i]
            <= 126 || bytes[i] == 9)
}

/// Such bytes are the text of a header.
proof fn lemma_reads_as(bytes: Seq<u8>, text: Seq<char>)
    requires
        reads_as(bytes, text),
    ensures
        header_text_of(bytes) == Some(text),
{
    assert forall|i: int| 0 <= i < bytes.len() implies is_header_byte(#[trigger] bytes[i]) by {}
    assert(bytes.map_values(|b: u8| b as char) =~= text);
}

/// A request with readable headers and a body, on a server with a secret, is
/// accepted exactly if it names its delivery, its timestamp is a number within 300
/// seconds of the clock, and its signature is that of its timestamp and its body
/// under the secret. What is accepted is the body. Otherwise the first of these
/// that fails is the answer.
pub proof fn requests_are_judged_in_order(
    configured: &Option<InboundWebhookSecret>,
    environment: Option<String>,
    headers: &InboundHeaders,
    now_secs: u64,
    body: Option<Vec<u8>>,
    r: Result<ValidatedWebhook, WebhookValidationError>,
    secret: &str,
    timestamp: &str,
    signature: &str,
    bytes: &[u8],
    seconds: Option<u64>,
    authentic: bool,
)
    requires
        call_ensures(
            ValidatedWebhook::from_request,
            (configured, environment, headers, now_secs, body),
            r,
        ),
        configured matches Some(c) ==> secret@ == c.0@,
        configured is None ==> (environment matches Some(e) && secret@ == e@
            && vstd::utf8::encode_utf8(e@).len() >= 32),
        headers.timestamp matches Some(t) && reads_as(t@, timestamp@),
        headers.signature matches Some(g) && reads_as(g@, signature@),
        body matches Some(b) && bytes@ == b@,
        call_ensures(parse_u64, (timestamp,), seconds),
        call_ensures(verify_signature, (secret, timestamp, bytes, signature), authentic),
    ensures
        ({
            let in_time = seconds matches Some(s) && s <= now_secs + 300 && now_secs <= s + 300;
            &&& r is Ok <==> headers.delivery is Some && in_time && authentic
            &&& r matches Ok(accepted) ==> accepted.0@ == bytes@
            &&& headers.delivery is None ==> (r matches Err(
                WebhookValidationError::MissingHeader(name),
            ) && name@ == "x-soroscope-delivery"@)
            &&& headers.delivery is Some && seconds is None ==> r == Err::<ValidatedWebhook, _>(
                WebhookValidationError::InvalidTimestamp,
            )
            &&& headers.delivery is Some && seconds is Some && !in_time ==> r == Err::<
                ValidatedWebhook,
                _,
            >(WebhookValidationError::TimestampExpired)
            &&& headers.delivery is Some && in_time && !authentic ==> r == Err::<
                ValidatedWebhook,
                _,
            >(WebhookValidationError::InvalidSignature)
        }),
{
    lemma_reads_as(headers.timestamp->0@, timestamp@);
    lemma_reads_as(headers.signature->0@, signature@);
}

/// Without a secret every request is answered with that. Then come, in this order,
/// a missing timestamp, a missing signature and a missing delivery header; a
/// timestamp that is not readable text; and, for a request that has all of this and
/// is in time, a body that could not be read and a signature that is not readable
/// text.
pub proof fn incomplete_requests_are_refused(
    configured: &Option<InboundWebhookSecret>,
    environment: Option<String>,
    headers: &InboundHeaders,
    now_secs: u64,
    body: Option<Vec<u8>>,
    r: Result<ValidatedWebhook, WebhookValidationError>,
    timestamp: &str,
    seconds: Option<u64>,
    at: int,
)
    requires
        call_ensures(
            ValidatedWebhook::from_request,
            (configured, environment, headers, now_secs, body),
            r,
        ),
        call_ensures(parse_u64, (timestamp,), seconds),
    ensures
        ({
            let no_secret = configured is None && (environment is None || (environment matches Some(
                e,
            ) && vstd::utf8::encode_utf8(e@).len() < 32));
            let complete = !no_secret && headers.timestamp is Some && headers.signature is Some
                && headers.delivery is Some;
            let in_time = complete && reads_as(headers.timestamp->0@, timestamp@) && (
            seconds matches Some(s) && s <= now_secs + 300 && now_secs <= s + 300);
            &&& no_secret <==> r == Err::<ValidatedWebhook, _>(
                WebhookValidationError::MissingSecret,
            )
            &&& !no_secret && headers.timestamp is None ==> (r matches Err(
                WebhookValidationError::MissingHeader(name),
            ) && name@ == "x-soroscope-timestamp"@)
            &&& !no_secret && headers.timestamp is Some && headers.signature is None ==> (
            r matches Err(WebhookValidationError::MissingHeader(name)) && name@
                == "x-soroscope-signature"@)
            &&& !no_secret && headers.timestamp is Some && headers.signature is Some
                && headers.delivery is None ==> (r matches Err(
                WebhookValidationError::MissingHeader(name),
            ) && name@ == "x-soroscope-delivery"@)
            &&& complete && 0 <= at < headers.timestamp->0@.len() && !(32
                <= headers.timestamp->0@[at] <= 126 || headers.timestamp->0@[at] == 9) ==> r
                == Err::<ValidatedWebhook, _>(WebhookValidationError::InvalidTimestamp)
            &&& in_time && body is None ==> r == Err::<ValidatedWebhook, _>(
                WebhookValidationError::BodyReadError,
            )
            &&& in_time && body is Some && 0 <= at < headers.signature->0@.len() && !(32
                <= headers.signature->0@[at] <= 126 || headers.signature->0@[at] == 9) ==> r
                == Err::<ValidatedWebhook, _>(WebhookValidationError::InvalidSignature)
        }),
{
    if headers.timestamp is Some {
        let t = headers.timestamp->0@;
        if reads_as(t, timestamp@) {
            lemma_reads_as(t, timestamp@);
        }
        if 0 <= at < t.len() && !(32 <= t[at] <= 126 || t[at] == 9) {
            assert(!is_header_byte(t[at]));
        }
    }
    if headers.signature is Some {
        let g = headers.signature->0@;
        if 0 <= at < g.len() && !(32 <= g[at] <= 126 || g[at] == 9) {
            assert(!is_header_byte(g[at]));
        }
    }
}

/// Checking the headers first and the body later comes to the same as validating
/// the request at once.
pub proof fn two_stages_agree(
    configured: &Option<InboundWebhookSecret>,
    environment: Option<String>,
    headers: &InboundHeaders,
    now_secs: u64,
    body: Option<Vec<u8>>,
    checked: Result<PendingWebhook, WebhookValidationError>,
    finished: Result<ValidatedWebhook, WebhookValidationError>,
    at_once: Result<ValidatedWebhook, WebhookValidationError>,
)
    requires
        call_ensures(check_headers, (configured, environment, headers, now_secs), checked),
        checked matches Ok(pending) ==> call_ensures(
            PendingWebhook::finish,
            (pending, body),
            finished,
        ),
        call_ensures(
            ValidatedWebhook::from_request,
            (configured, environment, headers, now_secs, body),
            at_once,
        ),
    ensures
        checked is Ok ==> at_once == finished,
        checked matches Err(error) ==> at_once == Err::<ValidatedWebhook, _>(error),
{
}

/// A configured secret is used whatever its length. One from the environment is
/// used if there is no configured one and it has at least 32 bytes.
pub proof fn configured_secret_comes_first(
    configured: &Option<InboundWebhookSecret>,
    environment: Option<String>,
    r: Result<String, WebhookValidationError>,
)
    requires
        call_ensures(resolve_secret, (configured, environment), r),
    ensures
        configured matches Some(c) ==> (r matches Ok(secret) && secret@ == c.0@),
        configured is None ==> (environment matches Some(e) ==> if vstd::utf8::encode_utf8(
            e@,
        ).len() >= 32 {
            r matches Ok(secret) && secret@ == e@
        } else {
            r == Err::<String, _>(WebhookValidationError::MissingSecret)
        }),
        configured is None && environment is None ==> r == Err::<String, _>(
            WebhookValidationError::MissingSecret,
        ),
{
}

/// A refusal is answered as the client's fault, unless the server has no secret: a
/// request that is not authentic with 401, any other with 400. The answer to a
/// missing header names it.
pub proof fn refusals_are_answered(error: WebhookValidationError, r: (u16, String))
    requires
        call_ensures(WebhookValidationError::into_response, (error,), r),
    ensures
        r.0 == 401 <==> error is TimestampExpired || error is InvalidSignature,
        r.0 == 500 <==> error is MissingSecret,
        r.0 == 400 <==> error is MissingHeader || error is InvalidTimestamp
            || error is BodyReadError,
        error matches WebhookValidationError::MissingHeader(name) ==> r.1@
            == "Missing required header: "@ + name@,
{
}

/// The text of a header is its bytes as characters, if they are all visible ASCII,
/// space or tab; else it has none.
pub proof fn header_texts_are_their_bytes(value: &Option<Vec<u8>>, r: Option<String>, at: int)
    requires
        call_ensures(header_text, (value,), r),
    ensures
        r matches Some(text) ==> (value matches Some(bytes) && text@.len() == bytes@.len()
            && forall|i: int|
                0 <= i < bytes@.len() ==> text@[i] as int == (#[trigger] bytes@[i]) as int),
        r is Some && value is Some && 0 <= at < value->0@.len() ==> 32 <= value->0@[at] <= 126
            || value->0@[at] == 9,
        value is Some && (forall|i: int|
            0 <= i < value->0@.len() ==> 32 <= #[trigger] value->0@[i] <= 126 || value->0@[i] == 9)
            ==> r is Some,
{
    if let Some(bytes) = value {
        if forall|i: int|
            0 <= i < bytes@.len() ==> 32 <= #[trigger] bytes@[i] <= 126 || bytes@[i] == 9 {
            assert forall|i: int| 0 <= i < bytes@.len() implies is_header_byte(
                #[trigger] bytes@[i],
            ) by {
                assert(32 <= bytes@[i] <= 126 || bytes@[i] == 9);
            }
        }
        if r is Some && 0 <= at < bytes@.len() {
            assert(is_header_byte(bytes@[at]));
        }
        if let Some(text) = r {
            assert(text@ == bytes@.map_values(|b: u8| b as char));
        }
    }
}

} // verus!
