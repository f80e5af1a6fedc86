use frame::dispatcher::Surface;
use frame::gateway::{
    classify, reply_to_refusal, reply_to_surface, response_headers, HeaderLine, Intent, Refusal,
    Reply, SCHEME_BYTES, STATUS_NO_CONTENT, STATUS_OK,
};

const KEY: &str = "s3cret-key";
const SENT: Option<&str> = Some("Bearer s3cret-key");

fn refused(why: Refusal) -> Intent {
    Intent::Refused { why }
}

#[test]
fn post_to_frame_with_the_key_fetches_a_frame() {
    assert_eq!(classify("POST", SENT, KEY, "/frame"), Intent::FetchFrame);
}

#[test]
fn slashes_at_the_end_of_the_path_are_set_aside() {
    assert_eq!(classify("POST", SENT, KEY, "/frame/"), Intent::FetchFrame);
    assert_eq!(classify("POST", SENT, KEY, "/frame////"), Intent::FetchFrame);
}

#[test]
fn other_paths_are_not_found() {
    for path in ["", "/", "//", "frame", "/frames", "/fram", "/frame/x", "/frame?x=1", "//frame",
        "/Frame", "/frame /", "/fr\u{e4}me"]
    {
        assert_eq!(classify("POST", SENT, KEY, path), refused(Refusal::NotFound), "{}", path);
    }
}

#[test]
fn options_is_a_preflight_whatever_else_is_sent() {
    assert_eq!(classify("OPTIONS", None, KEY, "/nowhere"), Intent::Preflight);
    assert_eq!(classify("OPTIONS", SENT, KEY, "/frame"), Intent::Preflight);
}

#[test]
fn other_methods_are_not_allowed() {
    for method in ["GET", "PUT", "DELETE", "post", "POSTS", "POS", "", "OPTION", "options"] {
        assert_eq!(
            classify(method, SENT, KEY, "/frame"),
            refused(Refusal::MethodNotAllowed),
            "{}",
            method
        );
    }
}

#[test]
fn method_is_judged_before_the_credentials_and_the_path() {
    assert_eq!(classify("GET", None, KEY, "/nowhere"), refused(Refusal::MethodNotAllowed));
}

#[test]
fn missing_or_wrong_credentials_are_unauthorized() {
    let cases = [
        None,
        Some(""),
        Some("Bearer"),
        Some("Bearer "),
        Some("Bearer s3cret-ke"),
        Some("Bearer s3cret-key "),
        Some("Bearer S3cret-key"),
        Some("s3cret-key"),
        Some("Bearer  s3cret-key"),
    ];
    for sent in cases {
        assert_eq!(
            classify("POST", sent, KEY, "/frame"),
            refused(Refusal::Unauthorized),
            "{:?}",
            sent
        );
    }
}

#[test]
fn credentials_are_judged_before_the_path() {
    assert_eq!(classify("POST", None, KEY, "/nowhere"), refused(Refusal::Unauthorized));
}

#[test]
fn key_is_what_follows_the_first_seven_bytes() {
    assert_eq!(SCHEME_BYTES, 7);
    assert_eq!(classify("POST", Some("1234567s3cret-key"), KEY, "/frame"), Intent::FetchFrame);
    assert_eq!(classify("POST", Some("Bearer "), "", "/frame"), Intent::FetchFrame);
    assert_eq!(classify("POST", Some("Bearer"), "", "/frame"), refused(Refusal::Unauthorized));
}

#[test]
fn each_refusal_has_its_status_and_text() {
    assert_eq!(
        reply_to_refusal(Refusal::MethodNotAllowed),
        Reply { status: 405, message: "Method not allowed" }
    );
    assert_eq!(
        reply_to_refusal(Refusal::Unauthorized),
        Reply { status: 401, message: "Unauthorized" }
    );
    assert_eq!(reply_to_refusal(Refusal::NotFound), Reply { status: 404, message: "Not found" });
    assert_eq!(
        reply_to_refusal(Refusal::MalformedPayload),
        Reply { status: 400, message: "Bad request" }
    );
}

#[test]
fn each_surface_has_its_status_and_text() {
    assert_eq!(reply_to_surface(Surface::Delivered), Reply { status: 200, message: "" });
    assert_eq!(
        reply_to_surface(Surface::ServerError),
        Reply { status: 500, message: "Internal server error" }
    );
    assert_eq!(
        reply_to_surface(Surface::TemporarilyUnavailable),
        Reply { status: 503, message: "Service unavailable" }
    );
    assert_eq!(STATUS_OK, 200);
    assert_eq!(STATUS_NO_CONTENT, 204);
}

#[test]
fn answers_carry_their_type_and_the_cross_origin_headers() {
    let cross_origin = vec![
        HeaderLine { name: "Access-Control-Allow-Origin", value: "*" },
        HeaderLine { name: "Access-Control-Allow-Methods", value: "OPTIONS, POST" },
        HeaderLine { name: "Access-Control-Allow-Headers", value: "Content-Type, Authorization" },
    ];
    let mut with_frame =
        vec![HeaderLine { name: "Content-Type", value: "application/octet-stream" }];
    with_frame.extend(cross_origin.iter().copied());
    let mut without_frame =
        vec![HeaderLine { name: "Content-Type", value: "text/html; charset=UTF-8" }];
    without_frame.extend(cross_origin.iter().copied());
    assert_eq!(response_headers(true), with_frame);
    assert_eq!(response_headers(false), without_frame);
}
