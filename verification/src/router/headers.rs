//! The headers of a request to a routing model.

use crate::json::members_view;
use crate::router::orchestrator::opt_str;
use vstd::prelude::*;
use vstd::utf8::encode_utf8;

verus! {

/// Tells the proxy in front which provider a request goes to.
pub const PROVIDER_HINT_HEADER: &'static str = "x-arch-llm-provider-hint";

pub const TRACE_PARENT_HEADER: &'static str = "traceparent";

pub const REQUEST_ID_HEADER: &'static str = "x-request-id";

/// Whether a text can be the value of a header: it holds no control
/// characters but tabs.
pub open spec fn is_header_value(text: Seq<char>) -> bool {
    forall|i: int|
        0 <= i < encode_utf8(text).len() ==> {
            let b = #[trigger] encode_utf8(text)[i];
            (b >= 32 && b != 127) || b == 9
        }
}

/// Calls `hyper::header::HeaderValue::from_str`, which takes a text whose
/// UTF-8 bytes are tabs or not control characters, and refuses all others
/// with one message.
#[verifier::external_body]
pub(crate) fn header_value_fault(text: &str) -> (r: Option<String>)
    ensures
        match r {
            None => is_header_value(text@),
            Some(m) => !is_header_value(text@) && m@ == "failed to parse header value"@,
        },
{
    hyper::header::HeaderValue::from_str(text).err().map(|e| e.to_string())
}

/// Whether a byte can stand in the name of a header.
pub open spec fn is_header_name_byte(b: u8) -> bool {
    ||| 48 <= b <= 57
    ||| 65 <= b <= 90
    ||| 97 <= b <= 122
    ||| b == 33
    ||| 35 <= b <= 39
    ||| b == 42
    ||| b == 43
    ||| b == 45
    ||| b == 46
    ||| 94 <= b <= 96
    ||| b == 124
    ||| b == 126
}

/// Whether a text can be the name of a header: at least one and at most
/// 65535 letters, digits and characters out of ``!#$%&'*+-.^_`|~``.
pub open spec fn is_header_name(text: Seq<char>) -> bool {
    &&& 0 < encode_utf8(text).len() <= 65535
    &&& forall|i: int|
        0 <= i < encode_utf8(text).len() ==> is_header_name_byte(#[trigger] encode_utf8(text)[i])
}

/// Calls `hyper::header::HeaderName::from_bytes` on the UTF-8 bytes of a
/// text, which takes up to 65535 letters, digits and a few other characters,
/// and refuses all else with one message.
#[verifier::external_body]
pub(crate) fn header_name_fault(text: &str) -> (r: Option<String>)
    ensures
        match r {
            None => is_header_name(text@),
            Some(m) => !is_header_name(text@) && m@ == "invalid HTTP header name"@,
        },
{
    hyper::header::HeaderName::from_bytes(text.as_bytes()).err().map(|e| e.to_string())
}

/// A header where its value can stand in one, else none.
pub open spec fn header_if_valid(name: Seq<char>, value: Seq<char>) -> Seq<
    (Seq<char>, Seq<char>),
> {
    if is_header_value(value) {
        seq![(name, value)]
    } else {
        Seq::empty()
    }
}

fn push_header(headers: &mut Vec<(String, String)>, name: &str, value: &str)
    ensures
        members_view(final(headers)@) == members_view(old(headers)@).push((name@, value@)),
{
    headers.push((name.to_owned(), value.to_owned()));
    assert(members_view(headers@) =~= members_view(old(headers)@).push((name@, value@)));
}

fn push_if_valid(headers: &mut Vec<(String, String)>, name: &str, value: &str)
    ensures
        members_view(final(headers)@) == members_view(old(headers)@) + header_if_valid(
            name@,
            value@,
        ),
{
    if header_value_fault(value).is_none() {
        push_header(headers, name, value);
    }
    assert(members_view(headers@) =~= members_view(old(headers)@) + header_if_valid(name@, value@));
}

/// The headers of a request to the routing model: a provider, trace or
/// request id that cannot stand in a header is left out.
pub open spec fn router_header_texts(
    provider: Seq<char>,
    traceparent: Seq<char>,
    request_id: Seq<char>,
) -> Seq<(Seq<char>, Seq<char>)> {
    seq![("content-type"@, "application/json"@)] + header_if_valid(PROVIDER_HINT_HEADER@, provider)
        + header_if_valid(TRACE_PARENT_HEADER@, traceparent) + header_if_valid(
        REQUEST_ID_HEADER@,
        request_id,
    ) + seq![("model"@, "arch-router"@)]
}

/// The headers of a request to the routing model.
pub fn router_headers(provider: &str, traceparent: &str, request_id: &str) -> (r: Vec<
    (String, String),
>)
    ensures
        members_view(r@) == router_header_texts(provider@, traceparent@, request_id@),
{
    let mut r: Vec<(String, String)> = Vec::new();
    push_header(&mut r, "content-type", "application/json");
    push_if_valid(&mut r, PROVIDER_HINT_HEADER, provider);
    push_if_valid(&mut r, TRACE_PARENT_HEADER, traceparent);
    push_if_valid(&mut r, REQUEST_ID_HEADER, request_id);
    push_header(&mut r, "model", "arch-router");
    assert(members_view(r@) =~= router_header_texts(provider@, traceparent@, request_id@));
    r
}

/// The headers of a request to the orchestrator: a provider that cannot stand
/// in a header goes by the orchestrator's own name, such a request id is left
/// out.
pub open spec fn orchestrator_header_texts(provider: Seq<char>, request_id: Option<Seq<char>>) -> Seq<
    (Seq<char>, Seq<char>),
> {
    let hint = if is_header_value(provider) {
        provider
    } else {
        "plano-orchestrator"@
    };
    let id = match request_id {
        Some(id) => header_if_valid(REQUEST_ID_HEADER@, id),
        None => Seq::empty(),
    };
    seq![("content-type"@, "application/json"@), (PROVIDER_HINT_HEADER@, hint)] + id + seq![
        ("model"@, "plano-orchestrator"@),
    ]
}

/// The headers of a request to the orchestrator.
pub fn orchestrator_headers(provider: &str, request_id: Option<&str>) -> (r: Vec<(String, String)>)
    ensures
        members_view(r@) == orchestrator_header_texts(provider@, opt_str(request_id)),
{
    let mut r: Vec<(String, String)> = Vec::new();
    push_header(&mut r, "content-type", "application/json");
    if header_value_fault(provider).is_none() {
        push_header(&mut r, PROVIDER_HINT_HEADER, provider);
    } else {
        push_header(&mut r, PROVIDER_HINT_HEADER, "plano-orchestrator");
    }
    if let Some(id) = request_id {
        push_if_valid(&mut r, REQUEST_ID_HEADER, id);
    }
    push_header(&mut r, "model", "plano-orchestrator");
    assert(members_view(r@) =~= orchestrator_header_texts(provider@, opt_str(request_id)));
    r
}

/// The routing model is sent JSON for the model it is, with the provider, the
/// trace and the request id where they can be sent, each under its name.
pub proof fn router_is_told_who_asks(
    provider: Seq<char>,
    traceparent: Seq<char>,
    request_id: Seq<char>,
)
    ensures
        ({
            let h = router_header_texts(provider, traceparent, request_id);
            &&& h[0] == ("content-type"@, "application/json"@)
            &&& h.last() == ("model"@, "arch-router"@)
            &&& is_header_value(provider) ==> h[1] == ("x-arch-llm-provider-hint"@, provider)
            &&& is_header_value(provider) && is_header_value(traceparent) ==> h[2] == (
                "traceparent"@,
                traceparent,
            )
            &&& is_header_value(provider) && is_header_value(traceparent) && is_header_value(
                request_id,
            ) ==> h[3] == ("x-request-id"@, request_id) && h.len() == 5
            &&& !is_header_value(provider) && !is_header_value(traceparent) && !is_header_value(
                request_id,
            ) ==> h.len() == 2
            &&& !is_header_value(provider) && !is_header_value(traceparent) && is_header_value(
                request_id,
            ) ==> h.len() == 3 && h[1] == ("x-request-id"@, request_id)
            &&& !is_header_value(provider) && is_header_value(traceparent) ==> h[1] == (
                "traceparent"@,
                traceparent,
            )
        }),
{
}

/// The orchestrator is told the provider, or its own name where that cannot be
/// sent, and the request id where there is one that can.
pub proof fn orchestrator_is_told_who_asks(provider: Seq<char>, request_id: Seq<char>)
    ensures
        ({
            let h = orchestrator_header_texts(provider, Some(request_id));
            let bare = orchestrator_header_texts(provider, None);
            &&& h[0] == ("content-type"@, "application/json"@)
            &&& h.last() == ("model"@, "plano-orchestrator"@)
            &&& is_header_value(provider) ==> h[1] == ("x-arch-llm-provider-hint"@, provider)
            &&& !is_header_value(provider) ==> h[1] == (
                "x-arch-llm-provider-hint"@,
                "plano-orchestrator"@,
            )
            &&& is_header_value(request_id) ==> h.len() == 4 && h[2] == (
                "x-request-id"@,
                request_id,
            )
            &&& !is_header_value(request_id) ==> h == bare
            &&& bare.len() == 3 && bare[1] == h[1] && bare[2] == h.last()
        }),
{
    let h = orchestrator_header_texts(provider, Some(request_id));
    if !is_header_value(request_id) {
        assert(h =~= orchestrator_header_texts(provider, None));
    }
}

} // verus!
