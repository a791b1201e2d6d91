//! The request and the response, as both transports see them.

use crate::error::FetcherError;
use crate::grammar::visible_value;
use crate::headers::{
    canonical_entries, decode_pairs, encode_entries, from_pairs, lemma_round_trip, to_pairs,
    HeaderFault,
};
use crate::http_types::{header_entries, method_text, url_text, ASSURED_ENTRIES};
use crate::wire;
use http::{HeaderMap, Method};
use url::Url;
use vstd::prelude::*;
use vstd::utf8::{decode_utf8, valid_utf8};

verus! {

/// An HTTP request. The URL is absolute and was validated when it was
/// parsed; a request is used for one fetch.
pub struct Request {
    pub url: Url,
    pub method: Method,
    pub body: Option<String>,
    pub headers: HeaderMap,
    /// Whether we should follow redirects or not.
    pub follow: bool,
}

/// An HTTP response: the status, the headers, and the body as it arrived.
pub struct Response {
    pub status: u16,
    pub headers: HeaderMap,
    pub bytes: Vec<u8>,
}

/// What a [`Request`] holds.
pub ghost struct RequestView {
    pub url: Seq<char>,
    pub method: Seq<char>,
    pub body: Option<Seq<char>>,
    pub headers: Seq<(Seq<char>, Seq<u8>)>,
    pub follow: bool,
}

/// What a [`Response`] holds.
pub ghost struct ResponseView {
    pub status: u16,
    pub headers: Seq<(Seq<char>, Seq<u8>)>,
    pub bytes: Seq<u8>,
}

impl View for Request {
    type V = RequestView;

    open spec fn view(&self) -> RequestView {
        RequestView {
            url: url_text(self.url),
            method: method_text(self.method),
            body: self.body.deep_view(),
            headers: header_entries(self.headers),
            follow: self.follow,
        }
    }
}

impl View for Response {
    type V = ResponseView;

    open spec fn view(&self) -> ResponseView {
        ResponseView {
            status: self.status,
            headers: header_entries(self.headers),
            bytes: self.bytes@,
        }
    }
}

/// The Unicode replacement character, which stands in for bytes that are
/// no UTF-8.
pub const REPLACEMENT: char = '\u{FFFD}';

/// The text that lossy UTF-8 decoding makes of `bytes`.
pub uninterp spec fn lossy_text(bytes: Seq<u8>) -> Seq<char>;

/// `String::from_utf8_lossy`: decodes `bytes` as UTF-8 and puts the
/// replacement character in place of what is no UTF-8. Valid UTF-8 comes out
/// as the text it encodes; anything else comes out with at least one
/// replacement character.
#[verifier::external_body]
fn decode_lossy(bytes: &Vec<u8>) -> (text: String)
    ensures
        text@ == lossy_text(bytes@),
        valid_utf8(bytes@) ==> text@ == decode_utf8(bytes@),
        !valid_utf8(bytes@) ==> text@.contains(REPLACEMENT),
{
    String::from_utf8_lossy(bytes).into_owned()
}

/// The wire form of a request: URL and method as text, each header as a
/// pair, body and redirect flag as they are.
pub open spec fn wire_request(request: RequestView) -> wire::RequestView {
    wire::RequestView {
        url: request.url,
        method: request.method,
        headers: encode_entries(request.headers),
        body: request.body,
        follow: request.follow,
    }
}

/// The wire form of a response: each header as a pair, status and body as
/// they are.
pub open spec fn wire_response(response: ResponseView) -> wire::ResponseView {
    wire::ResponseView {
        status: response.status,
        headers: encode_entries(response.headers),
        bytes: response.bytes,
    }
}

/// The response that a wire response stands for, or the fault of its
/// headers. Status and body are taken as they are.
pub open spec fn read_response(wire: wire::ResponseView) -> Result<ResponseView, HeaderFault> {
    match decode_pairs(wire.headers) {
        Ok(entries) => Ok(ResponseView { status: wire.status, headers: entries, bytes: wire.bytes }),
        Err(fault) => Err(fault),
    }
}

impl Request {
    /// The request in its wire form.
    pub fn to_wire(&self) -> (wire: wire::Request)
        ensures
            wire@ == wire_request(self@),
    {
        let body = match &self.body {
            Some(text) => Some(text.clone()),
            None => None,
        };
        wire::Request {
            url: self.url.as_str().to_owned(),
            method: self.method.as_str().to_owned(),
            headers: to_pairs(&self.headers),
            body,
            follow: self.follow,
        }
    }
}

impl Response {
    /// Builds the response that a wire response stands for.
    ///
    /// Status and body are taken over unchanged. The headers are read by
    /// [`from_pairs`], whose failure is the failure of this function.
    pub fn from_wire(wire: wire::Response) -> (outcome: Result<Response, FetcherError>)
        ensures
            match read_response(wire@) {
                Err(fault) => outcome matches Err(error) && error@ == fault.text(),
                Ok(response) => match outcome {
                    Ok(built) => built@ == response,
                    Err(error) => error@ == HeaderFault::TooMany.text() && wire.headers.len()
                        > ASSURED_ENTRIES,
                },
            },
    {
        match from_pairs(&wire.headers) {
            Ok(headers) => Ok(Response { status: wire.status, headers, bytes: wire.bytes }),
            Err(error) => Err(error),
        }
    }

    /// The body as text, decoded as UTF-8 without ever failing.
    ///
    /// The text depends on the body alone. A body that is valid UTF-8 gives
    /// the text it encodes; in any other body the replacement character
    /// stands where the bytes are no UTF-8.
    pub fn text(&self) -> (text: String)
        ensures
            text@ == lossy_text(self.bytes@),
            valid_utf8(self.bytes@) ==> text@ == decode_utf8(self.bytes@),
            !valid_utf8(self.bytes@) ==> text@.contains(REPLACEMENT),
    {
        decode_lossy(&self.bytes)
    }

    /// The response in its wire form.
    pub fn to_wire(&self) -> (wire: wire::Response)
        ensures
            wire@ == wire_response(self@),
    {
        wire::Response {
            status: self.status,
            headers: to_pairs(&self.headers),
            bytes: self.bytes.clone(),
        }
    }
}

/// Body round trip: whatever bytes a response carries, it carries the same
/// bytes and the same status after going out as a wire response and coming
/// back, whenever it comes back at all.
pub proof fn lemma_body_round_trip(response: ResponseView)
    ensures
        wire_response(response).bytes == response.bytes,
        read_response(wire_response(response)) matches Ok(back) ==> back.bytes == response.bytes
            && back.status == response.status,
{
}

/// Response round trip: a response whose header values are visible ASCII
/// comes back from its wire form as the response it was.
pub proof fn lemma_response_round_trip(response: ResponseView)
    requires
        canonical_entries(response.headers),
        forall|i: int|
            0 <= i < response.headers.len() ==> visible_value((#[trigger] response.headers[i]).1),
    ensures
        read_response(wire_response(response)) == Ok::<_, HeaderFault>(response),
{
    lemma_round_trip(response.headers);
}

} // verus!
