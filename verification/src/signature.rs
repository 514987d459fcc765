//! Checking the Ed25519 signature that Discord puts on every interaction request.

use crate::rejections::{BadSignautre, InvalidSignautre, InvalidTimestamp, Rejection};
use ed25519_dalek::Verifier;
use vstd::prelude::*;
use vstd::string::{StringExecFns, StringSliceAdditionalSpecFns};
use vstd::utf8::{decode_utf8, encode_utf8, valid_utf8};

verus! {


#[verifier::external_type_specification]
#[verifier::external_body]
pub struct ExVerifyingKey(ed25519_dalek::VerifyingKey);

#[verifier::external_type_specification]
#[verifier::external_body]
pub struct ExSignatureError(ed25519::signature::Error);

#[verifier::external_type_specification]
#[verifier::external_body]
pub struct ExFromHexError(hex::FromHexError);

/// Whether the 32 bytes `key` are the compressed encoding of a point on the
/// Edwards curve, so that they can serve as an Ed25519 public key.
pub uninterp spec fn ed25519_key_decodes(key: Seq<u8>) -> bool;

/// Whether the 64 bytes `signature` are a valid Ed25519 signature of `message`
/// under the public key encoded by the 32 bytes `key`.
pub uninterp spec fn ed25519_signature_valid(
    key: Seq<u8>,
    message: Seq<u8>,
    signature: Seq<u8>,
) -> bool;

/// The value of an ASCII hexadecimal digit, or `-1` for any other byte.
pub open spec fn hex_value(c: u8) -> int {
    if 48 <= c <= 57 {
        c - 48
    } else if 97 <= c <= 102 {
        c - 87
    } else if 65 <= c <= 70 {
        c - 55
    } else {
        -1
    }
}

/// `text` is exactly `2 * n` hexadecimal digits.
pub open spec fn hex_decodes(text: Seq<u8>, n: int) -> bool {
    &&& text.len() == 2 * n
    &&& forall|i: int| 0 <= i < text.len() ==> hex_value(#[trigger] text[i]) >= 0
}

/// The bytes that the pairs of hexadecimal digits in `text` stand for, the first
/// digit of each pair giving the high half of the byte.
pub open spec fn hex_decode(text: Seq<u8>) -> Seq<u8> {
    Seq::new(
        (text.len() / 2) as nat,
        |i: int| (hex_value(text[2 * i]) * 16 + hex_value(text[2 * i + 1])) as u8,
    )
}

/// Calls `hex::decode_to_slice(data, out)`. The crate's source checks that
/// `data` has even length, then that it has twice the length of `out`, then
/// decodes the pairs of digits in order, failing at the first byte that is not a
/// hexadecimal digit. So it succeeds exactly when `data` is `2 * N` hex digits,
/// and then `out` holds the decoded bytes. On failure some leading bytes of `out`
/// may already have been overwritten; what they hold is left unsaid.
#[verifier::external_body]
fn hex_decode_to_array<const N: usize>(data: &[u8], out: &mut [u8; N]) -> (r: Result<
    (),
    hex::FromHexError,
>)
    ensures
        r is Ok <==> hex_decodes(data@, N as int),
        r is Ok ==> final(out)@ == hex_decode(data@),
{
    hex::decode_to_slice(data, out)
}

/// Calls `ed25519_dalek::VerifyingKey::from_bytes`, which succeeds exactly when
/// the bytes decompress to a curve point; that condition is named, not stated.
#[verifier::external_body]
fn verifying_key_from_bytes(bytes: &[u8; 32]) -> (r: Result<
    ed25519_dalek::VerifyingKey,
    ed25519::signature::Error,
>)
    ensures
        r is Ok <==> ed25519_key_decodes(bytes@),
{
    ed25519_dalek::VerifyingKey::from_bytes(bytes)
}

/// Calls `std::str::from_utf8`, which documents that it fails exactly when the
/// bytes are not UTF-8; on success the string is made of those bytes.
#[verifier::external_body]
fn str_from_utf8(bytes: &[u8]) -> (r: Option<&str>)
    ensures
        r is Some <==> valid_utf8(bytes@),
        r matches Some(s) ==> s@ == decode_utf8(bytes@),
{
    std::str::from_utf8(bytes).ok()
}

/// An Ed25519 public key, kept as its 32-byte encoding, which always
/// decompresses to a curve point. Each check of a signature decompresses the
/// point from these bytes, so the point a key verifies with can only be the one
/// its own encoding names.
pub struct PublicKey {
    bytes: [u8; 32],
}

impl View for PublicKey {
    type V = Seq<u8>;

    /// The 32-byte encoding of the key.
    closed spec fn view(&self) -> Seq<u8> {
        self.bytes@
    }
}

/// Why a public key given in hexadecimal could not be used.
#[derive(Clone, Copy, Debug, PartialEq, Eq)]
pub enum PublicKeyError {
    /// The text is not 64 hexadecimal digits.
    InvalidHex,
    /// The 32 bytes do not encode a curve point.
    InvalidKey,
}

impl PublicKey {
    /// The encoding decompresses to a curve point.
    #[verifier::type_invariant]
    spec fn decodes(self) -> bool {
        ed25519_key_decodes(self.bytes@)
    }

    /// The key encoded by `bytes`, or `None` when they do not encode a curve point.
    pub fn from_bytes(bytes: [u8; 32]) -> (r: Option<PublicKey>)
        ensures
            r is Some <==> ed25519_key_decodes(bytes@),
            r matches Some(k) ==> k@ == bytes@,
    {
        match verifying_key_from_bytes(&bytes) {
            Ok(_) => Some(PublicKey { bytes }),
            Err(_) => None,
        }
    }

    /// The key written as 64 hexadecimal digits.
    pub fn from_hex(text: &str) -> (r: Result<PublicKey, PublicKeyError>)
        ensures
            !hex_decodes(text.spec_bytes(), 32) ==> r == Err::<PublicKey, _>(
                PublicKeyError::InvalidHex,
            ),
            hex_decodes(text.spec_bytes(), 32) ==> {
                let bytes = hex_decode(text.spec_bytes());
                &&& ed25519_key_decodes(bytes) ==> (r matches Ok(k) && k@ == bytes)
                &&& !ed25519_key_decodes(bytes) ==> r == Err::<PublicKey, _>(
                    PublicKeyError::InvalidKey,
                )
            },
    {
        let mut key_bytes = [0u8;32];
        match hex_decode_to_array(text.as_bytes(), &mut key_bytes) {
            Ok(()) => {},
            Err(_) => return Err(PublicKeyError::InvalidHex),
        }
        match PublicKey::from_bytes(key_bytes) {
            Some(k) => Ok(k),
            None => Err(PublicKeyError::InvalidKey),
        }
    }

    /// The 32-byte encoding of the key.
    pub fn to_bytes(&self) -> (r: [u8; 32])
        ensures
            r@ == self@,
    {
        self.bytes
    }
}

/// Decompresses the key's curve point from its 32-byte encoding with
/// `ed25519_dalek::VerifyingKey::from_bytes`, calls that point's
/// `ed25519_dalek::Verifier::verify` method on `message` and the signature
/// `ed25519_dalek::Signature::from_bytes(signature)`, and reports whether it
/// returned `Ok`. Since the point is decompressed here from the encoding, the
/// result is a function of the encoding, the message and the signature bytes,
/// and is named. (The encoding of a `PublicKey` always decompresses; were it
/// not to, no signature would be accepted.)
#[verifier::external_body]
fn ed25519_verify(key: &PublicKey, message: &[u8], signature: &[u8; 64]) -> (accepted: bool)
    ensures
        accepted == ed25519_signature_valid(key@, message@, signature@),
{
    match ed25519_dalek::VerifyingKey::from_bytes(&key.bytes) {
        Ok(point) => point.verify(message, &ed25519_dalek::Signature::from_bytes(signature)).is_ok(),
        Err(_) => false,
    }
}

/// The bytes of a request body together with the message that its signature
/// covers.
pub struct BodyParser {
    /// The raw body.
    pub body: Vec<u8>,
    /// The timestamp header followed by the body.
    pub message: String,
}

/// The UTF-8 encoding of two strings put together is the encoding of the first
/// followed by that of the second.
pub proof fn lemma_encode_utf8_concat(a: Seq<char>, b: Seq<char>)
    ensures
        encode_utf8(a + b) == encode_utf8(a) + encode_utf8(b),
    decreases a.len(),
{
    if a.len() == 0 {
        assert(a + b =~= b);
    } else {
        assert((a + b).drop_first() =~= a.drop_first() + b);
        lemma_encode_utf8_concat(a.drop_first(), b);
        assert((a + b)[0] == a[0]);
    }
}

/// Puts the timestamp and the body of a request together into the message that
/// the request's signature covers.
pub fn format_header(timestamp: &str, body: &[u8]) -> (r: String)
    requires
        valid_utf8(body@),
    ensures
        r@ == timestamp@ + decode_utf8(body@),
        encode_utf8(r@) == timestamp.spec_bytes() + body@,
{
    let text = match str_from_utf8(body) {
        Some(s) => s,
        None => {
            proof {
                assert(false);
            }
            ""
        },
    };
    let r = timestamp.to_owned().concat(text);
    proof {
        lemma_encode_utf8_concat(timestamp@, decode_utf8(body@));
        vstd::utf8::decode_utf8_encode_utf8(body@);
    }
    r
}

/// Builds the signed message of a request from its timestamp header (`None`
/// when the header is not visible ASCII text) and its body.
pub fn get_verifier_message(timestamp: Option<&str>, body: Vec<u8>) -> (r: Result<
    BodyParser,
    Rejection,
>)
    requires
        timestamp is Some ==> valid_utf8(body@),
    ensures
        match timestamp {
            None => r == Err::<BodyParser, _>(Rejection::InvalidTimestamp(InvalidTimestamp)),
            Some(t) => r matches Ok(parsed) && parsed.body@ == body@ && encode_utf8(
                parsed.message@,
            ) == t.spec_bytes() + body@,
        },
{
    match timestamp {
        Some(s) => {
            let message = format_header(s, body.as_slice());
            Ok(BodyParser { body, message })
        },
        None => Err(Rejection::InvalidTimestamp(InvalidTimestamp)),
    }
}

/// Checks the signature header of a request (`None` when the header is not
/// visible ASCII text) against the request's signed message. Returns the body
/// when the header holds 128 hexadecimal digits that decode to a valid signature
/// of the message under `verifying_key`.
pub fn verify_header(body_data: BodyParser, signature: Option<&str>, verifying_key: &PublicKey) -> (r:
    Result<Vec<u8>, Rejection>)
    ensures
        match signature {
            None => r == Err::<Vec<u8>, _>(Rejection::BadSignautre(BadSignautre)),
            Some(s) => if !hex_decodes(s.spec_bytes(), 64) {
                r == Err::<Vec<u8>, _>(Rejection::BadSignautre(BadSignautre))
            } else if ed25519_signature_valid(
                verifying_key@,
                encode_utf8(body_data.message@),
                hex_decode(s.spec_bytes()),
            ) {
                r matches Ok(body) && body@ == body_data.body@
            } else {
                r == Err::<Vec<u8>, _>(Rejection::InvalidSignautre(InvalidSignautre))
            },
        },
{
    let signature_string = match signature {
        None => return Err(Rejection::BadSignautre(BadSignautre)),
        Some(s) => s,
    };
    let mut signing_key_bytes = [0u8;64];
    match hex_decode_to_array(signature_string.as_bytes(), &mut signing_key_bytes) {
        Ok(()) => {},
        Err(_) => return Err(Rejection::BadSignautre(BadSignautre)),
    }
    let message = body_data.message.as_str().as_bytes();
    if ed25519_verify(verifying_key, message, &signing_key_bytes) {
        Ok(body_data.body)
    } else {
        Err(Rejection::InvalidSignautre(InvalidSignautre))
    }
}

/// Whether a request with this timestamp header, body and signature header is
/// signed by the holder of `key`: the signature header holds 128 hexadecimal
/// digits that decode to a valid signature of the timestamp followed by the body.
pub open spec fn request_signed(
    key: Seq<u8>,
    timestamp: Seq<u8>,
    body: Seq<u8>,
    signature: Option<Seq<u8>>,
) -> bool {
    match signature {
        None => false,
        Some(s) => hex_decodes(s, 64) && ed25519_signature_valid(
            key,
            timestamp + body,
            hex_decode(s),
        ),
    }
}

/// Checks a request's signature over its timestamp and body, as the signed
/// message is built by `get_verifier_message` and checked by `verify_header`.
/// The headers are `None` when they are not visible ASCII text. Returns the body
/// exactly when the timestamp header is readable and the request is signed by
/// the holder of `verifying_key`.
pub fn authenticate_request(
    timestamp: Option<&str>,
    body: Vec<u8>,
    signature: Option<&str>,
    verifying_key: &PublicKey,
) -> (r: Result<Vec<u8>, Rejection>)
    requires
        timestamp is Some ==> valid_utf8(body@),
    ensures
        timestamp is None ==> r == Err::<Vec<u8>, _>(Rejection::InvalidTimestamp(InvalidTimestamp)),
        timestamp matches Some(t) ==> {
            &&& r is Ok <==> request_signed(
                verifying_key@,
                t.spec_bytes(),
                body@,
                match signature {
                    None => None,
                    Some(s) => Some(s.spec_bytes()),
                },
            )
            &&& r matches Ok(b) ==> b@ == body@
            &&& r matches Err(e) ==> match signature {
                Some(s) => if hex_decodes(s.spec_bytes(), 64) {
                    e == Rejection::InvalidSignautre(InvalidSignautre)
                } else {
                    e == Rejection::BadSignautre(BadSignautre)
                },
                None => e == Rejection::BadSignautre(BadSignautre),
            }
        },
{
    let parsed = match get_verifier_message(timestamp, body) {
        Ok(p) => p,
        Err(e) => return Err(e),
    };
    verify_header(parsed, signature, verifying_key)
}

} // verus!
