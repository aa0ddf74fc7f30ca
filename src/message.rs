//! The requests the host application sends and the responses it receives.
use vstd::prelude::*;
use vstd::utf8::encode_utf8;
use crate::codec::{encode_frame, frame_of};
use crate::config::{Config, ConfigView};

verus! {

/// A decoded request.
pub enum Request {
    UpdateConfig { payload: Config },
    CheckUrl { url: String },
}

/// The mathematical value of a [`Request`].
pub enum RequestView {
    UpdateConfig { payload: ConfigView },
    CheckUrl { url: Seq<char> },
}

impl View for Request {
    type V = RequestView;

    open spec fn view(&self) -> RequestView {
        match self {
            Request::UpdateConfig { payload } => RequestView::UpdateConfig { payload: payload@ },
            Request::CheckUrl { url } => RequestView::CheckUrl { url: url@ },
        }
    }
}

/// A response; on the wire each variant is told apart by its fields alone.
pub enum Response {
    Acknowledge { status: String },
    CheckResult { action: String, redirect: Option<String> },
    Error { error: String },
}

/// The mathematical value of a [`Response`].
pub enum ResponseView {
    Acknowledge { status: Seq<char> },
    CheckResult { action: Seq<char>, redirect: Option<Seq<char>> },
    Error { error: Seq<char> },
}

impl View for Response {
    type V = ResponseView;

    open spec fn view(&self) -> ResponseView {
        match self {
            Response::Acknowledge { status } => ResponseView::Acknowledge { status: status@ },
            Response::CheckResult { action, redirect } => ResponseView::CheckResult {
                action: action@,
                redirect: match redirect {
                    Some(r) => Some(r@),
                    None => None,
                },
            },
            Response::Error { error } => ResponseView::Error { error: error@ },
        }
    }
}

/// The page a blocked tab is sent to.
pub open spec fn blocked_page() -> Seq<char> {
    "blocked.html"@
}

/// The response to a URL check: `ALLOW` alone, or `BLOCK` with the redirect.
pub open spec fn verdict(allow: bool) -> ResponseView {
    if allow {
        ResponseView::CheckResult { action: "ALLOW"@, redirect: None }
    } else {
        ResponseView::CheckResult { action: "BLOCK"@, redirect: Some(blocked_page()) }
    }
}

/// The response that acknowledges a configuration update.
pub open spec fn acknowledgement() -> ResponseView {
    ResponseView::Acknowledge { status: "ok"@ }
}

pub fn allow_response() -> (r: Response)
    ensures
        r@ == verdict(true),
{
    Response::CheckResult { action: String::from_str("ALLOW"), redirect: None }
}

pub fn block_response() -> (r: Response)
    ensures
        r@ == verdict(false),
{
    Response::CheckResult {
        action: String::from_str("BLOCK"),
        redirect: Some(String::from_str("blocked.html")),
    }
}

/// The JSON string literal that `serde_json` writes for a text.
pub uninterp spec fn json_string_of(s: Seq<char>) -> Seq<char>;

/// Relies on `serde_json::to_string` on a `&str`: the text as a quoted,
/// escaped JSON string. It depends on the text alone.
#[verifier::external_body]
fn json_quote(s: &str) -> (r: String)
    ensures
        r@ == json_string_of(s@),
{
    match serde_json::to_string(s) {
        Ok(q) => q,
        Err(_) => String::new(),
    }
}

/// The wire text of a response: a JSON object whose keys tell the variant,
/// with no `redirect` key where there is no redirect.
pub open spec fn response_json(r: ResponseView) -> Seq<char> {
    match r {
        ResponseView::Acknowledge { status } => "{\"status\":"@ + json_string_of(status) + "}"@,
        ResponseView::CheckResult { action, redirect } => match redirect {
            None => "{\"action\":"@ + json_string_of(action) + "}"@,
            Some(to) => "{\"action\":"@ + json_string_of(action) + ",\"redirect\":"@
                + json_string_of(to) + "}"@,
        },
        ResponseView::Error { error } => "{\"error\":"@ + json_string_of(error) + "}"@,
    }
}

/// The frame that carries a response, where its encoding fits a frame.
pub open spec fn response_frame_of(r: ResponseView) -> Option<Seq<u8>> {
    let bytes = encode_utf8(response_json(r));
    if bytes.len() <= u32::MAX {
        Some(frame_of(bytes))
    } else {
        None
    }
}

fn push_field(out: &mut String, key: &str, value: &String)
    ensures
        final(out)@ == old(out)@ + key@ + json_string_of(value@),
{
    out.append(key);
    let q = json_quote(value.as_str());
    out.append(q.as_str());
}

/// Encodes a response as JSON text.
pub fn encode_response(resp: &Response) -> (r: String)
    ensures
        r@ == response_json(resp@),
{
    let mut out = String::new();
    match resp {
        Response::Acknowledge { status } => {
            push_field(&mut out, "{\"status\":", status);
        },
        Response::CheckResult { action, redirect } => {
            push_field(&mut out, "{\"action\":", action);
            if let Some(to) = redirect {
                push_field(&mut out, ",\"redirect\":", to);
            }
        },
        Response::Error { error } => {
            push_field(&mut out, "{\"error\":", error);
        },
    }
    out.append("}");
    proof {
        assert(out@ =~= response_json(resp@));
    }
    out
}

/// The frame that carries `resp`, or `None` where its encoding is too long
/// for a four-byte length.
pub fn response_frame(resp: &Response) -> (r: Option<Vec<u8>>)
    ensures
        match r {
            Some(f) => response_frame_of(resp@) == Some(f@),
            None => response_frame_of(resp@) is None,
        },
{
    let text = encode_response(resp);
    let bytes = text.as_str().as_bytes();
    if bytes.len() > 0xffff_ffff {
        return None;
    }
    Some(encode_frame(bytes))
}

} // verus!
