use dither_bot::rejections::{BadSignautre, InvalidSignautre, InvalidTimestamp, Rejection};
use dither_bot::signature::{
    authenticate_request, format_header, get_verifier_message, verify_header, BodyParser,
    PublicKey, PublicKeyError,
};
use ed25519_dalek::{Signer, SigningKey};

fn signing_key() -> SigningKey {
    SigningKey::from_bytes(&[7u8; 32])
}

fn public_key() -> PublicKey {
    PublicKey::from_bytes(signing_key().verifying_key().to_bytes()).unwrap()
}

fn sign_hex(message: &[u8]) -> String {
    hex::encode(signing_key().sign(message).to_bytes())
}

#[test]
fn format_header_puts_timestamp_before_body() {
    assert_eq!(format_header("1700000000", b"{\"type\":1}"), "1700000000{\"type\":1}");
    assert_eq!(format_header("", b""), "");
    assert_eq!(format_header("t", "é".as_bytes()), "té");
}

#[test]
fn public_key_from_hex_accepts_a_valid_key() {
    let text = hex::encode(signing_key().verifying_key().to_bytes());
    let key = PublicKey::from_hex(&text).unwrap();
    assert_eq!(key.to_bytes(), signing_key().verifying_key().to_bytes());
    let upper = text.to_uppercase();
    assert_eq!(PublicKey::from_hex(&upper).unwrap().to_bytes(), key.to_bytes());
}

#[test]
fn public_key_from_hex_rejects_bad_hex() {
    assert_eq!(PublicKey::from_hex("abc").err(), Some(PublicKeyError::InvalidHex));
    assert_eq!(PublicKey::from_hex(&"0".repeat(62)).err(), Some(PublicKeyError::InvalidHex));
    assert_eq!(PublicKey::from_hex(&"g".repeat(64)).err(), Some(PublicKeyError::InvalidHex));
}

#[test]
fn public_key_from_hex_rejects_a_point_off_the_curve() {
    // y = 2 does not decompress to a point on the curve
    let mut bytes = [0u8; 32];
    bytes[0] = 2;
    assert!(PublicKey::from_bytes(bytes).is_none());
    assert_eq!(PublicKey::from_hex(&hex::encode(bytes)).err(), Some(PublicKeyError::InvalidKey));
}

#[test]
fn verify_header_accepts_a_good_signature() {
    let body = b"{\"type\":1}".to_vec();
    let message = format_header("123", &body);
    let sig = sign_hex(message.as_bytes());
    let parsed = BodyParser { body: body.clone(), message };
    assert_eq!(verify_header(parsed, Some(&sig), &public_key()), Ok(body));
}

#[test]
fn verify_header_rejects_a_signature_of_another_message() {
    let body = b"{\"type\":1}".to_vec();
    let sig = sign_hex(b"124{\"type\":1}");
    let parsed = BodyParser { body, message: format_header("123", b"{\"type\":1}") };
    assert_eq!(
        verify_header(parsed, Some(&sig), &public_key()),
        Err(Rejection::InvalidSignautre(InvalidSignautre))
    );
}

#[test]
fn verify_header_rejects_a_malformed_signature_header() {
    let parsed = || BodyParser { body: vec![], message: String::from("123") };
    assert_eq!(
        verify_header(parsed(), None, &public_key()),
        Err(Rejection::BadSignautre(BadSignautre))
    );
    assert_eq!(
        verify_header(parsed(), Some("zz"), &public_key()),
        Err(Rejection::BadSignautre(BadSignautre))
    );
    let short = "ab".repeat(63);
    assert_eq!(
        verify_header(parsed(), Some(&short), &public_key()),
        Err(Rejection::BadSignautre(BadSignautre))
    );
}

#[test]
fn get_verifier_message_needs_a_timestamp() {
    assert!(matches!(
        get_verifier_message(None, vec![1, 2]),
        Err(Rejection::InvalidTimestamp(InvalidTimestamp))
    ));
    let parsed = get_verifier_message(Some("99"), b"abc".to_vec()).ok().unwrap();
    assert_eq!(parsed.message, "99abc");
    assert_eq!(parsed.body, b"abc".to_vec());
}

#[test]
fn authenticate_request_covers_timestamp_and_body() {
    let body = b"{\"type\":2}".to_vec();
    let sig = sign_hex(b"1700{\"type\":2}");
    assert_eq!(
        authenticate_request(Some("1700"), body.clone(), Some(&sig), &public_key()),
        Ok(body.clone())
    );
    // the same signature does not cover another timestamp
    assert_eq!(
        authenticate_request(Some("1701"), body.clone(), Some(&sig), &public_key()),
        Err(Rejection::InvalidSignautre(InvalidSignautre))
    );
    assert_eq!(
        authenticate_request(None, body.clone(), Some(&sig), &public_key()),
        Err(Rejection::InvalidTimestamp(InvalidTimestamp))
    );
    assert_eq!(
        authenticate_request(Some("1700"), body, None, &public_key()),
        Err(Rejection::BadSignautre(BadSignautre))
    );
}
