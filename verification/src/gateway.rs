//! The door of the service: what a request asks for, judged by its method,
//! its credentials and its path, and with which status and headers each
//! kind of answer leaves.
//!
//! Texts are compared byte by byte, as they stand on the wire.

use crate::dispatcher::Surface;
use vstd::prelude::*;
use vstd::slice::slice_subrange;
use vstd::string::StringSliceAdditionalSpecFns;

verus! {

/// Why a request is turned away at the door.
#[derive(Clone, Copy, Debug, PartialEq, Eq, Structural)]
pub enum Refusal {
    /// The method is neither `OPTIONS` nor `POST`.
    MethodNotAllowed,
    /// The credentials are missing or are not the key of the service.
    Unauthorized,
    /// The path is not that of the frame.
    NotFound,
    /// The body is not a list of telemetry documents.
    MalformedPayload,
}

/// What a request asks for.
#[derive(Clone, Copy, Debug, PartialEq, Eq, Structural)]
pub enum Intent {
    /// A browser asks what it may send.
    Preflight,
    /// A device that knows the key asks for its next frame.
    FetchFrame,
    /// Nothing that the service does.
    Refused { why: Refusal },
}

/// The method `OPTIONS`.
pub open spec fn options_method() -> Seq<u8> {
    seq!['O' as u8, 'P' as u8, 'T' as u8, 'I' as u8, 'O' as u8, 'N' as u8, 'S' as u8]
}

/// The method `POST`.
pub open spec fn post_method() -> Seq<u8> {
    seq!['P' as u8, 'O' as u8, 'S' as u8, 'T' as u8]
}

/// The path `/frame`.
pub open spec fn frame_path() -> Seq<u8> {
    seq!['/' as u8, 'f' as u8, 'r' as u8, 'a' as u8, 'm' as u8, 'e' as u8]
}

/// The number of bytes that stand before the key in the credentials: the
/// name of the scheme and a blank.
pub const SCHEME_BYTES: usize = 7;

/// The key that the credentials carry: what follows their first seven
/// bytes. Shorter credentials carry none.
pub open spec fn key_of(credentials: Seq<u8>) -> Option<Seq<u8>> {
    if credentials.len() >= SCHEME_BYTES {
        Some(credentials.skip(SCHEME_BYTES as int))
    } else {
        None
    }
}

/// The path without the slashes at its end.
pub open spec fn without_trailing_slashes(path: Seq<u8>) -> Seq<u8>
    decreases path.len(),
{
    if path.len() > 0 && path.last() == '/' as u8 {
        without_trailing_slashes(path.drop_last())
    } else {
        path
    }
}

/// What is kept of a path is its longest beginning that does not end in a
/// slash, and what is set aside are slashes only.
pub proof fn lemma_without_trailing_slashes(path: Seq<u8>)
    ensures
        ({
            let kept = without_trailing_slashes(path);
            &&& kept.len() <= path.len()
            &&& kept == path.subrange(0, kept.len() as int)
            &&& kept.len() > 0 ==> kept.last() != '/' as u8
            &&& forall|i: int| kept.len() <= i < path.len() ==> path[i] == '/' as u8
        }),
    decreases path.len(),
{
    if path.len() > 0 && path.last() == '/' as u8 {
        let shorter = path.drop_last();
        lemma_without_trailing_slashes(shorter);
        let kept = without_trailing_slashes(shorter);
        assert(kept =~= path.subrange(0, kept.len() as int));
        assert forall|i: int| kept.len() <= i < path.len() implies path[i] == '/' as u8 by {
            if i < shorter.len() {
                assert(shorter[i] == path[i]);
            }
        }
    } else {
        assert(path =~= path.subrange(0, path.len() as int));
    }
}

/// What a request asks for. The method is judged first, then the
/// credentials, then the path.
pub open spec fn intent_of(
    method: Seq<u8>,
    credentials: Option<Seq<u8>>,
    key: Seq<u8>,
    path: Seq<u8>,
) -> Intent {
    if method == options_method() {
        Intent::Preflight
    } else if method != post_method() {
        Intent::Refused { why: Refusal::MethodNotAllowed }
    } else if !(credentials matches Some(sent) && key_of(sent) == Some(key)) {
        Intent::Refused { why: Refusal::Unauthorized }
    } else if without_trailing_slashes(path) != frame_path() {
        Intent::Refused { why: Refusal::NotFound }
    } else {
        Intent::FetchFrame
    }
}

/// Whether two texts are the same.
fn same_bytes(a: &[u8], b: &[u8]) -> (same: bool)
    ensures
        same == (a@ == b@),
{
    if a.len() != b.len() {
        return false;
    }
    let mut i: usize = 0;
    while i < a.len()
        invariant
            i <= a.len(),
            a.len() == b.len(),
            forall|k: int| 0 <= k < i ==> a@[k] == b@[k],
        decreases a.len() - i,
    {
        if a[i] != b[i] {
            return false;
        }
        i += 1;
    }
    assert(a@ =~= b@);
    true
}

/// Whether the credentials carry the key.
fn carries_key(credentials: &[u8], key: &[u8]) -> (yes: bool)
    ensures
        yes == (key_of(credentials@) == Some(key@)),
{
    if credentials.len() < SCHEME_BYTES {
        return false;
    }
    same_bytes(slice_subrange(credentials, SCHEME_BYTES, credentials.len()), key)
}

/// Whether the path is `/frame`, slashes at its end set aside.
fn is_frame_path(path: &[u8]) -> (yes: bool)
    ensures
        yes == (without_trailing_slashes(path@) == frame_path()),
{
    let mut end: usize = path.len();
    assert(path@.subrange(0, end as int) =~= path@);
    while end > 0 && path[end - 1] == '/' as u8
        invariant
            end <= path.len(),
            without_trailing_slashes(path@) == without_trailing_slashes(
                path@.subrange(0, end as int),
            ),
        decreases end,
    {
        assert(path@.subrange(0, end as int).drop_last() =~= path@.subrange(0, end as int - 1));
        end -= 1;
    }
    let want: [u8; 6] = ['/' as u8, 'f' as u8, 'r' as u8, 'a' as u8, 'm' as u8, 'e' as u8];
    assert(want@ =~= frame_path());
    same_bytes(slice_subrange(path, 0, end), want.as_slice())
}

/// Judges a request by its method, its credentials, the key of the
/// service and its path.
pub fn classify(method: &str, credentials: Option<&str>, key: &str, path: &str) -> (intent: Intent)
    ensures
        intent == intent_of(
            method.spec_bytes(),
            match credentials {
                Some(sent) => Some(sent.spec_bytes()),
                None => None,
            },
            key.spec_bytes(),
            path.spec_bytes(),
        ),
{
    let options: [u8; 7] = [
        'O' as u8,
        'P' as u8,
        'T' as u8,
        'I' as u8,
        'O' as u8,
        'N' as u8,
        'S' as u8,
    ];
    let post: [u8; 4] = ['P' as u8, 'O' as u8, 'S' as u8, 'T' as u8];
    assert(options@ =~= options_method());
    assert(post@ =~= post_method());
    if same_bytes(method.as_bytes(), options.as_slice()) {
        return Intent::Preflight;
    }
    if !same_bytes(method.as_bytes(), post.as_slice()) {
        return Intent::Refused { why: Refusal::MethodNotAllowed };
    }
    let known = match credentials {
        Some(sent) => carries_key(sent.as_bytes(), key.as_bytes()),
        None => false,
    };
    if !known {
        return Intent::Refused { why: Refusal::Unauthorized };
    }
    if !is_frame_path(path.as_bytes()) {
        return Intent::Refused { why: Refusal::NotFound };
    }
    Intent::FetchFrame
}

/// The status and the text with which an answer without a frame leaves.
#[derive(Clone, Copy, Debug, PartialEq, Eq)]
pub struct Reply {
    pub status: u16,
    pub message: &'static str,
}

/// The status of a delivered frame.
pub const STATUS_OK: u16 = 200;

/// The status of the answer to a preflight, which has no body.
pub const STATUS_NO_CONTENT: u16 = 204;

/// The status with which a refusal leaves.
pub open spec fn refusal_status(why: Refusal) -> u16 {
    match why {
        Refusal::MalformedPayload => 400,
        Refusal::Unauthorized => 401,
        Refusal::NotFound => 404,
        Refusal::MethodNotAllowed => 405,
    }
}

/// The status with which the end of a request leaves.
pub open spec fn surface_status(surface: Surface) -> u16 {
    match surface {
        Surface::Delivered => STATUS_OK,
        Surface::ServerError => 500,
        Surface::TemporarilyUnavailable => 503,
    }
}

/// The answer to a request that is turned away at the door.
pub fn reply_to_refusal(why: Refusal) -> (reply: Reply)
    ensures
        reply.status == refusal_status(why),
        reply.message@ == match why {
            Refusal::MalformedPayload => "Bad request"@,
            Refusal::Unauthorized => "Unauthorized"@,
            Refusal::NotFound => "Not found"@,
            Refusal::MethodNotAllowed => "Method not allowed"@,
        },
{
    match why {
        Refusal::MalformedPayload => Reply { status: 400, message: "Bad request" },
        Refusal::Unauthorized => Reply { status: 401, message: "Unauthorized" },
        Refusal::NotFound => Reply { status: 404, message: "Not found" },
        Refusal::MethodNotAllowed => Reply { status: 405, message: "Method not allowed" },
    }
}

/// The answer that stands for the end of a request. For a delivered frame
/// the text is empty: the frame is the body.
pub fn reply_to_surface(surface: Surface) -> (reply: Reply)
    ensures
        reply.status == surface_status(surface),
        reply.message@ == match surface {
            Surface::Delivered => ""@,
            Surface::ServerError => "Internal server error"@,
            Surface::TemporarilyUnavailable => "Service unavailable"@,
        },
{
    match surface {
        Surface::Delivered => Reply { status: STATUS_OK, message: "" },
        Surface::ServerError => Reply { status: 500, message: "Internal server error" },
        Surface::TemporarilyUnavailable => Reply { status: 503, message: "Service unavailable" },
    }
}

/// One header of an answer.
#[derive(Clone, Copy, Debug, PartialEq, Eq)]
pub struct HeaderLine {
    pub name: &'static str,
    pub value: &'static str,
}

/// The headers of an answer as texts.
pub open spec fn header_texts(lines: Seq<HeaderLine>) -> Seq<(Seq<char>, Seq<char>)> {
    lines.map_values(|line: HeaderLine| (line.name@, line.value@))
}

/// The headers with which every answer leaves: the type of its body, and
/// what a browser of another origin may send.
pub open spec fn headers_of(frame: bool) -> Seq<(Seq<char>, Seq<char>)> {
    seq![
        (
            "Content-Type"@,
            if frame {
                "application/octet-stream"@
            } else {
                "text/html; charset=UTF-8"@
            },
        ),
        ("Access-Control-Allow-Origin"@, "*"@),
        ("Access-Control-Allow-Methods"@, "OPTIONS, POST"@),
        ("Access-Control-Allow-Headers"@, "Content-Type, Authorization"@),
    ]
}

/// The headers of an answer that carries a frame, or of one that does not.
pub fn response_headers(frame: bool) -> (lines: Vec<HeaderLine>)
    ensures
        header_texts(lines@) == headers_of(frame),
{
    let body = if frame {
        "application/octet-stream"
    } else {
        "text/html; charset=UTF-8"
    };
    let mut lines: Vec<HeaderLine> = Vec::new();
    lines.push(HeaderLine { name: "Content-Type", value: body });
    lines.push(HeaderLine { name: "Access-Control-Allow-Origin", value: "*" });
    lines.push(HeaderLine { name: "Access-Control-Allow-Methods", value: "OPTIONS, POST" });
    lines.push(
        HeaderLine { name: "Access-Control-Allow-Headers", value: "Content-Type, Authorization" },
    );
    assert(header_texts(lines@) =~= headers_of(frame));
    lines
}

} // verus!
