//! The signature that webhook requests carry: an HMAC-SHA256 code, in
//! hexadecimal, over the timestamp, a dot and the raw body.

use hmac::Mac;
use vstd::prelude::*;

verus! {

/// Header with the signature: `sha256=` and the code in hexadecimal.
pub const SIGNATURE_HEADER: &'static str = "x-soroscope-signature";

/// Header with the Unix time of the request, in seconds.
pub const TIMESTAMP_HEADER: &'static str = "x-soroscope-timestamp";

/// Header with the identifier of the delivery.
pub const DELIVERY_HEADER: &'static str = "x-soroscope-delivery";

/// Length of an HMAC-SHA256 code in bytes.
pub const CODE_BYTES: usize = 32;

/// The HMAC-SHA256 code of `message` under `key`.
pub uninterp spec fn hmac_sha256(key: Seq<u8>, message: Seq<u8>) -> Seq<u8>;

/// The HMAC-SHA256 code of the concatenation of three parts, from
/// `Mac::new_from_slice` of `Hmac<Sha256>`, which accepts a key of any length,
/// `update` with each part in turn, and `finalize`. The code is a function of
/// the key and of the bytes in the order given, however they are cut into parts,
/// and has 32 bytes.
#[verifier::external_body]
pub(crate) fn hmac_code(key: &[u8], first: &[u8], second: &[u8], third: &[u8]) -> (r: Vec<u8>)
    ensures
        r@ == hmac_sha256(key@, first@ + second@ + third@),
        r@.len() == CODE_BYTES,
{
    let mut mac = hmac::Hmac::<sha2::Sha256>::new_from_slice(key).expect("any key length");
    mac.update(first);
    mac.update(second);
    mac.update(third);
    mac.finalize().into_bytes().to_vec()
}

/// `Mac::verify_slice` after `update` with three parts: whether `tag` is the
/// whole code of their concatenation, all 32 bytes of it, compared in constant
/// time.
#[verifier::external_body]
pub(crate) fn hmac_verify(
    key: &[u8],
    first: &[u8],
    second: &[u8],
    third: &[u8],
    tag: &[u8],
) -> (r: bool)
    ensures
        r == (hmac_sha256(key@, first@ + second@ + third@) == tag@),
        r ==> tag@.len() == CODE_BYTES,
{
    let mut mac = hmac::Hmac::<sha2::Sha256>::new_from_slice(key).expect("any key length");
    mac.update(first);
    mac.update(second);
    mac.update(third);
    mac.verify_slice(tag).is_ok()
}

/// The value of a hexadecimal digit of either case, if `c` is one.
pub open spec fn hex_value(c: char) -> Option<u8> {
    if '0' <= c <= '9' {
        Some((c as u8 - '0' as u8) as u8)
    } else if 'a' <= c <= 'f' {
        Some((c as u8 - 'a' as u8 + 10) as u8)
    } else if 'A' <= c <= 'F' {
        Some((c as u8 - 'A' as u8 + 10) as u8)
    } else {
        None
    }
}

/// The lower-case hexadecimal digit of a value below 16.
pub open spec fn hex_digit(v: u8) -> char {
    if v < 10 {
        ('0' as u8 + v) as u8 as char
    } else {
        ('a' as u8 + (v - 10)) as u8 as char
    }
}

/// `bytes` in hexadecimal: for each byte its high and then its low digit.
pub open spec fn hex_text(bytes: Seq<u8>) -> Seq<char> {
    Seq::new(
        2 * bytes.len(),
        |i: int|
            if i % 2 == 0 {
                hex_digit((bytes[i / 2] / 16) as u8)
            } else {
                hex_digit((bytes[i / 2] % 16) as u8)
            },
    )
}

/// Whether `text` is a hexadecimal text of whole bytes.
pub open spec fn is_hex_text(text: Seq<char>) -> bool {
    &&& text.len() % 2 == 0
    &&& forall|i: int| 0 <= i < text.len() ==> hex_value(#[trigger] text[i]) is Some
}

/// The bytes that a hexadecimal text stands for.
pub open spec fn hex_bytes(text: Seq<char>) -> Seq<u8> {
    Seq::new(
        text.len() / 2,
        |i: int|
            (hex_value(text[2 * i])->0 * 16 + hex_value(text[2 * i + 1])->0) as u8,
    )
}

/// `hex::encode` writes two lower-case digits for each byte.
#[verifier::external_body]
pub(crate) fn hex_encode(bytes: &[u8]) -> (r: String)
    ensures
        r@ == hex_text(bytes@),
{
    hex::encode(bytes)
}

/// `hex::decode` reads digits of either case, two for each byte, and rejects a
/// text of odd length or with any other character in it.
#[verifier::external_body]
pub(crate) fn hex_decode(text: &str) -> (r: Option<Vec<u8>>)
    ensures
        r is Some <==> is_hex_text(text@),
        r matches Some(bytes) ==> bytes@ == hex_bytes(text@),
{
    hex::decode(text).ok()
}

/// The bytes that a signature covers: timestamp, dot, body.
pub open spec fn signed_message(timestamp: Seq<char>, body: Seq<u8>) -> Seq<u8> {
    vstd::utf8::encode_utf8(timestamp) + seq![0x2eu8] + body
}

/// The code that authenticates a request under a secret.
pub open spec fn request_code(secret: Seq<char>, timestamp: Seq<char>, body: Seq<u8>) -> Seq<u8> {
    hmac_sha256(vstd::utf8::encode_utf8(secret), signed_message(timestamp, body))
}

/// Signs a request: the code over its timestamp and body, in hexadecimal.
pub fn sign(secret: &str, timestamp: &str, body: &[u8]) -> (r: String)
    ensures
        r@ == hex_text(request_code(secret@, timestamp@, body@)),
        r@.len() == 2 * CODE_BYTES,
{
    let dot: [u8; 1] = [0x2e];
    proof {
        assert(dot@ == seq![0x2eu8]);
    }
    let code = hmac_code(secret.as_bytes(), timestamp.as_bytes(), &dot, body);
    hex_encode(code.as_slice())
}

/// Reading the hexadecimal text of some bytes gives those bytes back.
pub proof fn hex_round_trip(bytes: Seq<u8>)
    ensures
        is_hex_text(hex_text(bytes)),
        hex_bytes(hex_text(bytes)) == bytes,
{
    let text = hex_text(bytes);
    assert forall|i: int| 0 <= i < text.len() implies hex_value(#[trigger] text[i]) is Some by {
        let b = bytes[i / 2];
    }
    assert forall|i: int| 0 <= i < bytes.len() implies hex_bytes(text)[i] == bytes[i] by {
        let b = bytes[i];
        assert(2 * i / 2 == i && (2 * i + 1) / 2 == i);
        assert(text[2 * i] == hex_digit((b / 16) as u8));
        assert(text[2 * i + 1] == hex_digit((b % 16) as u8));
        assert(hex_value(hex_digit((b / 16) as u8)) == Some((b / 16) as u8));
        assert(hex_value(hex_digit((b % 16) as u8)) == Some((b % 16) as u8));
    }
    assert(hex_bytes(text) =~= bytes);
}

/// What is authenticated is the timestamp in UTF-8, one dot, and every byte of the
/// body; so for one timestamp two different bodies are two different messages.
pub proof fn message_holds_the_whole_request(
    timestamp: Seq<char>,
    body: Seq<u8>,
    other: Seq<u8>,
)
    ensures
        ({
            let stamp = vstd::utf8::encode_utf8(timestamp);
            let message = signed_message(timestamp, body);
            &&& message.len() == stamp.len() + 1 + body.len()
            &&& forall|i: int| 0 <= i < stamp.len() ==> #[trigger] message[i] == stamp[i]
            &&& message[stamp.len() as int] == 0x2e
            &&& forall|i: int|
                0 <= i < body.len() ==> message[stamp.len() + 1 + i] == #[trigger] body[i]
        }),
        body != other ==> signed_message(timestamp, body) != signed_message(timestamp, other),
{
    let n = vstd::utf8::encode_utf8(timestamp).len() as int;
    assert(signed_message(timestamp, body).skip(n + 1) == body);
    assert(signed_message(timestamp, other).skip(n + 1) == other);
}

/// `message` is a timestamp in UTF-8, a dot and a body, byte by byte.
pub open spec fn spells_request(message: Seq<u8>, timestamp: Seq<char>, body: Seq<u8>) -> bool {
    let stamp = vstd::utf8::encode_utf8(timestamp);
    &&& message.len() == stamp.len() + 1 + body.len()
    &&& forall|i: int| 0 <= i < stamp.len() ==> message[i] == stamp[i]
    &&& message[stamp.len() as int] == 0x2e
    &&& forall|i: int| 0 <= i < body.len() ==> message[stamp.len() + 1 + i] == body[i]
}

/// There is only one such message.
pub(crate) proof fn lemma_spelled_message(message: Seq<u8>, timestamp: Seq<char>, body: Seq<u8>)
    requires
        spells_request(message, timestamp, body),
    ensures
        message == signed_message(timestamp, body),
{
    let stamp = vstd::utf8::encode_utf8(timestamp);
    let whole = signed_message(timestamp, body);
    assert forall|i: int| 0 <= i < message.len() implies message[i] == whole[i] by {
        if i > stamp.len() {
            let k = i - stamp.len() - 1;
            assert(message[stamp.len() + 1 + k] == body[k]);
        }
    }
    assert(message =~= whole);
}

/// The signature of a request is the code of its timestamp, a dot and its whole
/// body: for each byte of the code the two hexadecimal digits, in lower case, the
/// high one first.
pub proof fn signature_covers_the_whole_request(
    secret: &str,
    timestamp: &str,
    body: &[u8],
    r: String,
    message: Seq<u8>,
)
    requires
        call_ensures(sign, (secret, timestamp, body), r),
        message.len() == vstd::utf8::encode_utf8(timestamp@).len() + 1 + body@.len(),
        forall|i: int|
            0 <= i < vstd::utf8::encode_utf8(timestamp@).len() ==> message[i]
                == vstd::utf8::encode_utf8(timestamp@)[i],
        message[vstd::utf8::encode_utf8(timestamp@).len() as int] == 0x2e,
        forall|i: int|
            0 <= i < body@.len() ==> message[vstd::utf8::encode_utf8(timestamp@).len() + 1 + i]
                == body@[i],
    ensures
        ({
            let code = hmac_sha256(vstd::utf8::encode_utf8(secret@), message);
            &&& code.len() == 32
            &&& r@.len() == 64
            &&& forall|i: int|
                0 <= i < 32 ==> {
                    let high = (#[trigger] code[i]) as int / 16;
                    let low = code[i] as int % 16;
                    &&& r@[2 * i] as int == if high < 10 {
                        '0' as int + high
                    } else {
                        'a' as int + high - 10
                    }
                    &&& r@[2 * i + 1] as int == if low < 10 {
                        '0' as int + low
                    } else {
                        'a' as int + low - 10
                    }
                }
        }),
{
    lemma_spelled_message(message, timestamp@, body@);
    let code = hmac_sha256(vstd::utf8::encode_utf8(secret@), message);
    assert(r@ == hex_text(code));
    assert(code.len() == 32);
    assert forall|i: int| 0 <= i < 32 implies {
        let high = (#[trigger] code[i]) as int / 16;
        let low = code[i] as int % 16;
        &&& r@[2 * i] as int == if high < 10 {
            '0' as int + high
        } else {
            'a' as int + high - 10
        }
        &&& r@[2 * i + 1] as int == if low < 10 {
            '0' as int + low
        } else {
            'a' as int + low - 10
        }
    } by {
        assert((2 * i) / 2 == i && (2 * i) % 2 == 0);
        assert((2 * i + 1) / 2 == i && (2 * i + 1) % 2 == 1);
        assert(r@[2 * i] == hex_digit((code[i] / 16) as u8));
        assert(r@[2 * i + 1] == hex_digit((code[i] % 16) as u8));
    }
}

} // verus!
