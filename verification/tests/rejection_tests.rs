use dither_bot::rejections::{
    handle_rejection, BadBodyError, BadSignautre, InvalidSignautre, InvalidTimestamp, Rejection,
};

#[test]
fn not_found_gets_404() {
    let r = handle_rejection(&Rejection::NotFound);
    assert_eq!((r.status, r.message.as_str()), (404, "NOT_FOUND"));
}

#[test]
fn invalid_signature_gets_401() {
    let r = handle_rejection(&Rejection::InvalidSignautre(InvalidSignautre));
    assert_eq!((r.status, r.message.as_str()), (401, "INTERNAL_SERVER_ERROR"));
}

#[test]
fn other_rejections_get_500() {
    for err in [
        Rejection::BodyDeserialize,
        Rejection::BadSignautre(BadSignautre),
        Rejection::InvalidTimestamp(InvalidTimestamp),
        Rejection::BadBodyError(BadBodyError),
        Rejection::Unhandled,
    ] {
        let r = handle_rejection(&err);
        assert_eq!((r.status, r.message.as_str()), (500, "INTERNAL_SERVER_ERROR"));
    }
}
